//! The narrow-index abstraction: unsigned integer types, strictly narrower
//! than the native machine word, that can serve as a container's length and
//! capacity fields.

use vstd::prelude::*;

verus! {

/// An unsigned integer type strictly narrower than the native word (`usize`),
/// with the arithmetic the container needs for its length and capacity
/// bookkeeping.
///
/// Every value of an implementing type denotes the integer `self.as_int()`,
/// which lies in `[0, Self::max_spec()]`; `max_spec()` itself is strictly
/// below `usize::MAX`, so every value converts losslessly to `usize` and a
/// value strictly below the maximum can still be incremented within `usize`.
/// Multiplication of nonnegative integers is monotonic in both arguments.
proof fn lemma_mul_upper_bound(a: int, b: int, bound_a: int, bound_b: int)
    requires
        0 <= a <= bound_a,
        0 <= b <= bound_b,
    ensures
        a * b <= bound_a * bound_b,
{
    assert(a * b <= bound_a * bound_b) by (nonlinear_arith)
        requires
            0 <= a <= bound_a,
            0 <= b <= bound_b,
    ;
}

pub trait Int: Sized + Copy {
    /// The integer a value of this type denotes.
    spec fn as_int(self) -> int;

    /// The largest integer the type can denote.
    spec fn max_spec() -> int;

    /// Every value denotes an integer in `[0, max_spec()]`.
    proof fn lemma_in_range(x: Self)
        ensures
            0 <= x.as_int() <= Self::max_spec(),
    ;

    /// The type is no wider than the native word: every value of it converts
    /// losslessly to `usize`.
    proof fn lemma_narrow()
        ensures
            1 <= Self::max_spec() <= usize::MAX as int,
    ;

    fn zero() -> (r: Self)
        ensures
            r.as_int() == 0,
    ;

    fn one() -> (r: Self)
        ensures
            r.as_int() == 1,
    ;

    fn max_value() -> (r: Self)
        ensures
            r.as_int() == Self::max_spec(),
    ;

    /// Lossless conversion to the native size type.
    fn as_usize(self) -> (r: usize)
        ensures
            r as int == self.as_int(),
    ;

    /// Conversion from the native size type; the caller must already have
    /// range-checked the value.
    fn from_usize(val: usize) -> (r: Self)
        requires
            val as int <= Self::max_spec(),
        ensures
            r.as_int() == val as int,
    ;

    /// Addition; the caller must guarantee the sum stays representable.
    fn add(self, rhs: Self) -> (r: Self)
        requires
            self.as_int() + rhs.as_int() <= Self::max_spec(),
        ensures
            r.as_int() == self.as_int() + rhs.as_int(),
    ;

    /// Subtraction; the caller must guarantee the difference is nonnegative.
    fn sub(self, rhs: Self) -> (r: Self)
        requires
            rhs.as_int() <= self.as_int(),
        ensures
            r.as_int() == self.as_int() - rhs.as_int(),
    ;

    /// Halving, rounding down.
    fn half(self) -> (r: Self)
        ensures
            r.as_int() == self.as_int() / 2,
    ;

    fn saturating_add(self, rhs: Self) -> (r: Self)
        ensures
            r.as_int() == if self.as_int() + rhs.as_int() <= Self::max_spec() {
                self.as_int() + rhs.as_int()
            } else {
                Self::max_spec()
            },
    ;

    fn saturating_mul(self, rhs: Self) -> (r: Self)
        ensures
            r.as_int() == if self.as_int() * rhs.as_int() <= Self::max_spec() {
                self.as_int() * rhs.as_int()
            } else {
                Self::max_spec()
            },
    ;
}

impl Int for u8 {
    open spec fn as_int(self) -> int {
        self as int
    }

    open spec fn max_spec() -> int {
        u8::MAX as int
    }

    proof fn lemma_in_range(x: Self) {
    }

    proof fn lemma_narrow() {
    }

    fn zero() -> Self {
        0
    }

    fn one() -> Self {
        1
    }

    fn max_value() -> Self {
        u8::MAX
    }

    fn as_usize(self) -> usize {
        self as usize
    }

    fn from_usize(val: usize) -> Self {
        val as u8
    }

    fn add(self, rhs: Self) -> Self {
        self + rhs
    }

    fn sub(self, rhs: Self) -> Self {
        self - rhs
    }

    fn half(self) -> Self {
        self / 2
    }

    fn saturating_add(self, rhs: Self) -> Self {
        if self > u8::MAX - rhs {
            u8::MAX
        } else {
            self + rhs
        }
    }

    fn saturating_mul(self, rhs: Self) -> Self {
        proof {
            lemma_mul_upper_bound(self as int, rhs as int, u8::MAX as int, u8::MAX as int);
        }
        let wide: u16 = (self as u16) * (rhs as u16);
        if wide > u8::MAX as u16 {
            u8::MAX
        } else {
            wide as u8
        }
    }
}

impl Int for u16 {
    open spec fn as_int(self) -> int {
        self as int
    }

    open spec fn max_spec() -> int {
        u16::MAX as int
    }

    proof fn lemma_in_range(x: Self) {
    }

    proof fn lemma_narrow() {
    }

    fn zero() -> Self {
        0
    }

    fn one() -> Self {
        1
    }

    fn max_value() -> Self {
        u16::MAX
    }

    fn as_usize(self) -> usize {
        self as usize
    }

    fn from_usize(val: usize) -> Self {
        val as u16
    }

    fn add(self, rhs: Self) -> Self {
        self + rhs
    }

    fn sub(self, rhs: Self) -> Self {
        self - rhs
    }

    fn half(self) -> Self {
        self / 2
    }

    fn saturating_add(self, rhs: Self) -> Self {
        if self > u16::MAX - rhs {
            u16::MAX
        } else {
            self + rhs
        }
    }

    fn saturating_mul(self, rhs: Self) -> Self {
        proof {
            lemma_mul_upper_bound(self as int, rhs as int, u16::MAX as int, u16::MAX as int);
        }
        let wide: u32 = (self as u32) * (rhs as u32);
        if wide > u16::MAX as u32 {
            u16::MAX
        } else {
            wide as u16
        }
    }
}

impl Int for u32 {
    open spec fn as_int(self) -> int {
        self as int
    }

    open spec fn max_spec() -> int {
        u32::MAX as int
    }

    proof fn lemma_in_range(x: Self) {
    }

    proof fn lemma_narrow() {
    }

    fn zero() -> Self {
        0
    }

    fn one() -> Self {
        1
    }

    fn max_value() -> Self {
        u32::MAX
    }

    fn as_usize(self) -> usize {
        self as usize
    }

    fn from_usize(val: usize) -> Self {
        val as u32
    }

    fn add(self, rhs: Self) -> Self {
        self + rhs
    }

    fn sub(self, rhs: Self) -> Self {
        self - rhs
    }

    fn half(self) -> Self {
        self / 2
    }

    fn saturating_add(self, rhs: Self) -> Self {
        if self > u32::MAX - rhs {
            u32::MAX
        } else {
            self + rhs
        }
    }

    fn saturating_mul(self, rhs: Self) -> Self {
        proof {
            lemma_mul_upper_bound(self as int, rhs as int, u32::MAX as int, u32::MAX as int);
        }
        let wide: u64 = (self as u64) * (rhs as u64);
        if wide > u32::MAX as u64 {
            u32::MAX
        } else {
            wide as u32
        }
    }
}

} // verus!
