//! The growable-array engine and its consuming iterator.

use crate::int_trait::Int;
use vstd::prelude::*;

verus! {

/// The initial capacity chosen on the first growth, by element size: many
/// small slots for byte-sized elements, a single slot for very large ones.
pub open spec fn first_alloc_len(elem_size: nat) -> int {
    if elem_size == 1 {
        8
    } else if elem_size <= 1024 {
        4
    } else {
        1
    }
}

/// A growable sequence container whose length and capacity fields have the
/// narrow type `Limit` instead of `usize`.
///
/// The abstract state is the sequence `self@` of live elements together with
/// the capacity `self.spec_cap()`; every operation keeps `self.wf()`:
/// `0 <= self@.len() <= self.spec_cap() <= Limit::max_spec()`.
#[derive(Debug, Clone)]
pub struct SmallerVec<T, Limit: Int> {
    buf: Vec<T>,
    len: Limit,
    cap: Limit,
}

impl<T, Limit: Int> View for SmallerVec<T, Limit> {
    type V = Seq<T>;

    closed spec fn view(&self) -> Seq<T> {
        self.buf@
    }
}

impl<T, Limit: Int> SmallerVec<T, Limit> {
    /// The capacity the container reports: how many elements it can hold
    /// before the next growth.
    pub closed spec fn spec_cap(self) -> int {
        self.cap.as_int()
    }

    /// Well-formedness: the narrow length field counts the live elements, and
    /// the length/capacity chain `len <= cap <= MAX` holds.
    pub closed spec fn wf(self) -> bool {
        &&& self.len.as_int() == self.buf@.len()
        &&& self.len.as_int() <= self.cap.as_int()
        &&& self.cap.as_int() <= Limit::max_spec()
    }

    /// Constructs an empty container; no storage is reserved.
    pub fn new() -> (v: Self)
        ensures
            v.wf(),
            v@ == Seq::<T>::empty(),
            v.spec_cap() == 0,
    {
        Self::new_unallocated()
    }

    /// The container invariant: the length never exceeds the capacity, the
    /// capacity never exceeds the narrow maximum, and both convert losslessly
    /// to `usize`.
    pub proof fn lemma_invariant(self)
        requires
            self.wf(),
        ensures
            0 <= self@.len() <= self.spec_cap() <= Limit::max_spec() <= usize::MAX as int,
    {
        Limit::lemma_in_range(self.len);
        Limit::lemma_narrow();
    }

    /// The number of live elements, as a native `usize`.
    pub fn len(&self) -> (r: usize)
        requires
            self.wf(),
        ensures
            r as int == self@.len(),
    {
        self.len.as_usize()
    }

    /// The current capacity, as a native `usize`.
    pub fn capacity(&self) -> (r: usize)
        requires
            self.wf(),
        ensures
            r as int == self.spec_cap(),
    {
        self.cap.as_usize()
    }

    /// Whether the container holds no live element.
    pub fn is_empty(&self) -> (r: bool)
        requires
            self.wf(),
        ensures
            r <==> self@.len() == 0,
    {
        self.len() == 0
    }

    /// The capacity one growth step reaches from capacity `c`: the
    /// element-size heuristic on the first growth, doubling afterwards, both
    /// saturating at the narrow maximum.
    pub open spec fn grown_cap(c: int) -> int {
        let first = first_alloc_len(vstd::layout::size_of::<T>());
        if c == 0 {
            if first <= Limit::max_spec() {
                first
            } else {
                Limit::max_spec()
            }
        } else {
            if c + c <= Limit::max_spec() {
                c + c
            } else {
                Limit::max_spec()
            }
        }
    }

    /// One growth step strictly enlarges the capacity (so a following single
    /// insertion always finds room), and from a nonzero capacity it yields
    /// exactly the double, saturating at the narrow maximum.
    pub proof fn lemma_growth_policy(c: int)
        requires
            0 <= c < Limit::max_spec(),
        ensures
            c < Self::grown_cap(c) <= Limit::max_spec(),
            c > 0 ==> Self::grown_cap(c) == if c + c <= Limit::max_spec() {
                c + c
            } else {
                Limit::max_spec()
            },
    {
    }

    fn first_alloc_size() -> (r: usize)
        ensures
            r as int == first_alloc_len(vstd::layout::size_of::<T>()),
    {
        let elem_size = core::mem::size_of::<T>();
        if elem_size == 1 {
            8
        } else if elem_size <= 1024 {
            4
        } else {
            1
        }
    }

    /// The doubled capacity, saturating at the narrow maximum.
    fn growth_factor(&self) -> (r: Limit)
        ensures
            r.as_int() == if self.spec_cap() + self.spec_cap() <= Limit::max_spec() {
                self.spec_cap() + self.spec_cap()
            } else {
                Limit::max_spec()
            },
    {
        self.cap.saturating_add(self.cap)
    }

    /// Enlarges the capacity by one growth step and reserves storage for it.
    /// Growing is only permitted below the narrow maximum: at the maximum the
    /// chosen width cannot represent any larger capacity, and the container
    /// treats that as an unrecoverable capacity overflow.
    fn grow(&mut self)
        requires
            old(self).wf(),
            old(self).spec_cap() < Limit::max_spec(),
        ensures
            final(self).wf(),
            final(self)@ == old(self)@,
            final(self).spec_cap() == Self::grown_cap(old(self).spec_cap()),
            old(self).spec_cap() < final(self).spec_cap(),
    {
        proof {
            Limit::lemma_in_range(self.len);
            Limit::lemma_in_range(self.cap);
            Limit::lemma_narrow();
            Self::lemma_growth_policy(self.cap.as_int());
        }
        let new_cap: Limit = if self.cap.as_usize() == 0 {
            let first = Self::first_alloc_size();
            let max = Limit::max_value();
            if first <= max.as_usize() {
                Limit::from_usize(first)
            } else {
                max
            }
        } else {
            self.growth_factor()
        };
        let additional = new_cap.as_usize() - self.len.as_usize();
        self.buf.reserve(additional);
        self.cap = new_cap;
    }

    /// Appends `value` after the last live element, growing first if the
    /// container is at capacity. The narrow maximum must not be reached yet:
    /// a container already holding `Limit::max_spec()` elements cannot grow,
    /// which is the fatal capacity-overflow condition.
    pub fn push(&mut self, value: T)
        requires
            old(self).wf(),
            old(self)@.len() < Limit::max_spec(),
        ensures
            final(self).wf(),
            final(self)@ == old(self)@.push(value),
            old(self).spec_cap() <= final(self).spec_cap(),
            old(self)@.len() < old(self).spec_cap() ==> final(self).spec_cap() == old(
                self,
            ).spec_cap(),
            old(self)@.len() == old(self).spec_cap() ==> final(self).spec_cap()
                == Self::grown_cap(old(self).spec_cap()),
    {
        proof {
            Limit::lemma_in_range(self.len);
            Limit::lemma_in_range(self.cap);
            Limit::lemma_narrow();
        }
        if self.len.as_usize() == self.cap.as_usize() {
            self.grow();
        }
        self.buf.push(value);
        self.len = self.len.add(Limit::one());
    }

    /// Removes and returns the last live element; on an empty container this
    /// is an ordinary empty result, not an error.
    pub fn pop(&mut self) -> (r: Option<T>)
        requires
            old(self).wf(),
        ensures
            final(self).wf(),
            final(self).spec_cap() == old(self).spec_cap(),
            old(self)@.len() == 0 ==> r is None && final(self)@ == old(self)@,
            old(self)@.len() > 0 ==> r == Some(old(self)@.last()) && final(self)@ == old(
                self,
            )@.drop_last(),
    {
        proof {
            Limit::lemma_in_range(self.len);
        }
        if self.len.as_usize() == 0 {
            None
        } else {
            self.len = self.len.sub(Limit::one());
            self.buf.pop()
        }
    }

    /// Inserts `element` at position `index`, shifting the live elements at
    /// `[index, len)` one slot to the right; `index == len` appends. An index
    /// beyond `len` violates the operation's precondition, and inserting into
    /// a container already holding `Limit::max_spec()` elements is the fatal
    /// capacity overflow; both are excluded here.
    pub fn insert(&mut self, index: usize, element: T)
        requires
            old(self).wf(),
            index as int <= old(self)@.len(),
            old(self)@.len() < Limit::max_spec(),
        ensures
            final(self).wf(),
            final(self)@ == old(self)@.insert(index as int, element),
            old(self).spec_cap() <= final(self).spec_cap(),
            old(self)@.len() < old(self).spec_cap() ==> final(self).spec_cap() == old(
                self,
            ).spec_cap(),
            old(self)@.len() == old(self).spec_cap() ==> final(self).spec_cap()
                == Self::grown_cap(old(self).spec_cap()),
            index as int == old(self)@.len() ==> final(self)@ == old(self)@.push(element),
    {
        proof {
            Limit::lemma_in_range(self.len);
            Limit::lemma_in_range(self.cap);
            Limit::lemma_narrow();
        }
        if self.cap.as_usize() == self.len.as_usize() {
            self.grow();
        }
        self.buf.insert(index, element);
        self.len = self.len.add(Limit::one());
        proof {
            if index as int == old(self)@.len() {
                assert(old(self)@.insert(index as int, element) =~= old(self)@.push(element));
            }
        }
    }

    /// Removes and returns the element at position `index`, shifting the
    /// elements after it one slot to the left. Only a live position may be
    /// removed: `index` must be strictly below `len` (the boundary position
    /// `len` holds no element).
    pub fn remove(&mut self, index: usize) -> (r: T)
        requires
            old(self).wf(),
            (index as int) < old(self)@.len(),
        ensures
            final(self).wf(),
            final(self).spec_cap() == old(self).spec_cap(),
            r == old(self)@[index as int],
            final(self)@ == old(self)@.remove(index as int),
    {
        proof {
            Limit::lemma_in_range(self.len);
        }
        self.len = self.len.sub(Limit::one());
        self.buf.remove(index)
    }

    /// The live elements as a contiguous shared view.
    pub fn as_slice(&self) -> (r: &[T])
        requires
            self.wf(),
        ensures
            r@ == self@,
    {
        self.buf.as_slice()
    }

    /// The live elements as a contiguous exclusive view: elements may be
    /// replaced through it. A slice never changes its length, so any use of
    /// the view leaves the count of live elements, and with it
    /// well-formedness, intact.
    pub fn as_mut_slice(&mut self) -> (r: &mut [T])
        requires
            old(self).wf(),
        ensures
            r@ == old(self)@,
            final(r)@ == final(self)@,
            final(self).spec_cap() == old(self).spec_cap(),
            final(r)@.len() == old(self)@.len() ==> final(self).wf(),
    {
        self.buf.as_mut_slice()
    }

    fn new_unallocated() -> (v: Self)
        ensures
            v.wf(),
            v@ == Seq::<T>::empty(),
            v.spec_cap() == 0,
    {
        let v = Self { buf: Vec::new(), len: Limit::zero(), cap: Limit::zero() };
        proof {
            Limit::lemma_narrow();
            assert(v@ =~= Seq::<T>::empty());
        }
        v
    }
}

impl<T: Clone, Limit: Int> SmallerVec<T, Limit> {
    /// Clones and appends every element of `other`, in order. The whole of
    /// `other` must fit: running past the narrow maximum would be the fatal
    /// capacity overflow.
    pub fn extend_from_slice(&mut self, other: &[T])
        requires
            old(self).wf(),
            old(self)@.len() + other@.len() <= Limit::max_spec(),
        ensures
            final(self).wf(),
            final(self)@.len() == old(self)@.len() + other@.len(),
            final(self)@.subrange(0, old(self)@.len() as int) == old(self)@,
            forall|i: int|
                0 <= i < other@.len() ==> cloned::<T>(
                    other@[i],
                    #[trigger] final(self)@[old(self)@.len() + i],
                ),
            old(self).spec_cap() <= final(self).spec_cap(),
    {
        let ghost orig = self@;
        let ghost orig_cap = self.spec_cap();
        let mut i: usize = 0;
        while i < other.len()
            invariant
                self.wf(),
                i as int <= other@.len(),
                orig.len() + other@.len() <= Limit::max_spec(),
                self@.len() == orig.len() + i as int,
                self@.subrange(0, orig.len() as int) =~= orig,
                forall|j: int|
                    0 <= j < i as int ==> cloned::<T>(other@[j], #[trigger] self@[orig.len() + j]),
                orig_cap <= self.spec_cap(),
            decreases other@.len() - i as int,
        {
            let ghost before = self@;
            let val = other[i].clone();
            self.push(val);
            proof {
                assert(self@.subrange(0, orig.len() as int) =~= before.subrange(
                    0,
                    orig.len() as int,
                ));
            }
            i = i + 1;
        }
    }
}

impl<T, Limit: Int> Default for SmallerVec<T, Limit> {
    fn default() -> (v: Self)
        ensures
            v.wf(),
            v@ == Seq::<T>::empty(),
            v.spec_cap() == 0,
    {
        Self::new()
    }
}

/// A consuming iterator: it owns the elements transferred out of a
/// `SmallerVec` and yields them by value from either end.
///
/// Abstractly it remembers the full sequence it was created over
/// (`self.source()`) and how many elements have already left through the
/// front (`self.drained_front()`); what is still owned, `self@`, is always
/// the contiguous stretch of the source between the front-drained prefix and
/// the back-drained suffix.
pub struct IntoIter<T> {
    elems: Vec<T>,
    cap: usize,
    source_elems: Ghost<Seq<T>>,
    taken_front: Ghost<int>,
}

impl<T> View for IntoIter<T> {
    type V = Seq<T>;

    closed spec fn view(&self) -> Seq<T> {
        self.elems@
    }
}

impl<T> IntoIter<T> {
    /// The sequence the iterator was created over.
    pub closed spec fn source(&self) -> Seq<T> {
        self.source_elems@
    }

    /// How many elements have been yielded from the front so far.
    pub closed spec fn drained_front(&self) -> int {
        self.taken_front@
    }

    /// The capacity of the container the iterator was created from.
    pub closed spec fn original_capacity(&self) -> int {
        self.cap as int
    }

    /// Well-formedness: the elements still owned are exactly the stretch of
    /// the source that follows the front-drained prefix.
    pub closed spec fn wf(&self) -> bool {
        &&& 0 <= self.taken_front@
        &&& self.taken_front@ + self.elems@.len() <= self.source_elems@.len()
        &&& self.elems@ == self.source_elems@.subrange(
            self.taken_front@,
            self.taken_front@ + self.elems@.len() as int,
        )
    }

    /// Yields the frontmost remaining element, or signals exhaustion.
    pub fn next(&mut self) -> (r: Option<T>)
        requires
            old(self).wf(),
        ensures
            final(self).wf(),
            final(self).source() == old(self).source(),
            final(self).original_capacity() == old(self).original_capacity(),
            old(self)@.len() == 0 ==> ({
                &&& r is None
                &&& final(self)@ == old(self)@
                &&& final(self).drained_front() == old(self).drained_front()
            }),
            old(self)@.len() > 0 ==> ({
                &&& r == Some(old(self)@[0])
                &&& old(self)@[0] == old(self).source()[old(self).drained_front()]
                &&& final(self)@ == old(self)@.subrange(1, old(self)@.len() as int)
                &&& final(self).drained_front() == old(self).drained_front() + 1
            }),
    {
        if self.elems.len() == 0 {
            None
        } else {
            let r = self.elems.remove(0);
            self.taken_front = Ghost(self.taken_front@ + 1);
            proof {
                assert(self.elems@ =~= self.source_elems@.subrange(
                    self.taken_front@,
                    self.taken_front@ + self.elems@.len() as int,
                ));
            }
            Some(r)
        }
    }

    /// Yields the backmost remaining element, or signals exhaustion.
    pub fn next_back(&mut self) -> (r: Option<T>)
        requires
            old(self).wf(),
        ensures
            final(self).wf(),
            final(self).source() == old(self).source(),
            final(self).original_capacity() == old(self).original_capacity(),
            final(self).drained_front() == old(self).drained_front(),
            old(self)@.len() == 0 ==> r is None && final(self)@ == old(self)@,
            old(self)@.len() > 0 ==> ({
                &&& r == Some(old(self)@.last())
                &&& old(self)@.last() == old(self).source()[old(self).drained_front() + old(
                    self,
                )@.len() - 1]
                &&& final(self)@ == old(self)@.drop_last()
            }),
    {
        let r = self.elems.pop();
        proof {
            assert(self.elems@ =~= self.source_elems@.subrange(
                self.taken_front@,
                self.taken_front@ + self.elems@.len() as int,
            ));
        }
        r
    }

    /// The exact number of remaining elements, as both a lower and an upper
    /// bound.
    pub fn size_hint(&self) -> (r: (usize, Option<usize>))
        ensures
            r.0 as int == self@.len(),
            r.1 == Some(r.0),
    {
        let n = self.elems.len();
        (n, Some(n))
    }

    /// Draining yields every source element exactly once: at any point, the
    /// front-drained prefix, the remaining stretch and the back-drained
    /// suffix partition the source in original order — so front-drained
    /// elements came out in forward order and back-drained ones in reverse
    /// order of their original positions.
    pub proof fn lemma_drain_partition(self)
        requires
            self.wf(),
        ensures
            self.source().subrange(0, self.drained_front()) + self@ + self.source().subrange(
                self.drained_front() + self@.len() as int,
                self.source().len() as int,
            ) == self.source(),
    {
        assert(self.source().subrange(0, self.drained_front()) + self@ + self.source().subrange(
            self.drained_front() + self@.len() as int,
            self.source().len() as int,
        ) =~= self.source());
    }
}

impl<T, Limit: Int> SmallerVec<T, Limit> {
    /// Transfers ownership of the live elements into a consuming iterator;
    /// afterwards the container no longer exists and only the iterator may
    /// release the elements.
    pub fn into_iter(self) -> (it: IntoIter<T>)
        requires
            self.wf(),
        ensures
            it.wf(),
            it@ == self@,
            it.source() == self@,
            it.drained_front() == 0,
            it.original_capacity() == self.spec_cap(),
    {
        proof {
            Limit::lemma_in_range(self.cap);
            Limit::lemma_narrow();
        }
        let ghost s = self@;
        let SmallerVec { buf, len: _, cap } = self;
        let it = IntoIter {
            elems: buf,
            cap: cap.as_usize(),
            source_elems: Ghost(s),
            taken_front: Ghost(0int),
        };
        proof {
            assert(it.elems@ =~= s.subrange(0, s.len() as int));
        }
        it
    }
}

/// Stack law: a pop immediately after appending `v` returns `v` and restores
/// the previous contents — `push` ensures the new state `s.push(v)`, and
/// `pop` on that state returns `Some(s.push(v).last())` leaving
/// `s.push(v).drop_last()`, which are `v` and `s`.
pub proof fn lemma_stack_law<T>(s: Seq<T>, v: T)
    ensures
        s.push(v).len() == s.len() + 1,
        s.push(v).last() == v,
        s.push(v).drop_last() == s,
{
    assert(s.push(v).drop_last() =~= s);
}

/// Round trip: inserting `v` at position `i` and removing position `i` again
/// returns `v` and leaves every other element, in its original relative
/// order, and the length unchanged — `insert` ensures the state
/// `s.insert(i, v)`, whose element at `i` is `v`, and `remove` on it ensures
/// the state `s.insert(i, v).remove(i)`, which is `s`.
pub proof fn lemma_insert_remove_round_trip<T>(s: Seq<T>, i: int, v: T)
    requires
        0 <= i <= s.len(),
    ensures
        s.insert(i, v)[i] == v,
        s.insert(i, v).len() == s.len() + 1,
        s.insert(i, v).remove(i) == s,
{
    assert(s.insert(i, v).remove(i) =~= s);
}

} // verus!
