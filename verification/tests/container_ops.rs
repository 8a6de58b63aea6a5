use smaller_vec::SmallerVec;

#[test]
fn new_is_empty_and_unallocated() {
    let mut v: SmallerVec<u8, u8> = SmallerVec::new();
    assert_eq!(v.len(), 0);
    assert_eq!(v.capacity(), 0);
    assert!(v.is_empty());
    assert_eq!(v.pop(), None);
    assert_eq!(v.capacity(), 0);
}

#[test]
fn default_is_empty() {
    let v: SmallerVec<u32, u16> = SmallerVec::default();
    assert_eq!(v.len(), 0);
    assert_eq!(v.capacity(), 0);
    assert!(v.is_empty());
}

#[test]
fn pop_after_push_returns_value_and_restores_len() {
    let mut v: SmallerVec<u32, u8> = SmallerVec::new();
    v.push(1);
    v.push(2);
    let before = v.len();
    v.push(42);
    assert_eq!(v.pop(), Some(42));
    assert_eq!(v.len(), before);
    assert_eq!(v.as_slice(), &[1, 2]);
}

#[test]
fn pop_empty_is_ordinary_empty_result() {
    let mut v: SmallerVec<String, u16> = SmallerVec::new();
    assert_eq!(v.pop(), None);
    v.push(String::from("x"));
    assert_eq!(v.pop(), Some(String::from("x")));
    assert_eq!(v.pop(), None);
}

#[test]
fn first_allocation_is_eight_for_byte_elements_then_doubles() {
    let mut v: SmallerVec<u8, u8> = SmallerVec::new();
    for i in 0..8u8 {
        v.push(i);
        assert_eq!(v.capacity(), 8);
    }
    v.push(8);
    assert_eq!(v.capacity(), 16);
    assert_eq!(v.len(), 9);
    assert_eq!(v.as_slice(), &[0, 1, 2, 3, 4, 5, 6, 7, 8]);
}

#[test]
fn first_allocation_is_four_for_mid_sized_elements() {
    let mut v: SmallerVec<u64, u8> = SmallerVec::new();
    v.push(5);
    assert_eq!(v.capacity(), 4);
}

#[test]
fn first_allocation_is_one_for_large_elements_then_doubles() {
    let mut v: SmallerVec<[u8; 2000], u8> = SmallerVec::new();
    v.push([1; 2000]);
    assert_eq!(v.capacity(), 1);
    v.push([2; 2000]);
    assert_eq!(v.capacity(), 2);
    v.push([3; 2000]);
    assert_eq!(v.capacity(), 4);
}

#[test]
fn capacity_doubles_and_saturates_at_narrow_max() {
    let mut v: SmallerVec<u8, u8> = SmallerVec::new();
    let mut caps: Vec<usize> = Vec::new();
    for i in 0..255u16 {
        let before = v.capacity();
        v.push(i as u8);
        let after = v.capacity();
        assert!(after >= before);
        if after != before {
            caps.push(after);
        }
    }
    assert_eq!(caps, vec![8, 16, 32, 64, 128, 255]);
    assert_eq!(v.len(), 255);
    assert_eq!(v.capacity(), 255);
}

#[test]
fn insert_in_middle_shifts_right() {
    let mut v: SmallerVec<u32, u8> = SmallerVec::new();
    v.extend_from_slice(&[1, 2, 3]);
    v.insert(1, 99);
    assert_eq!(v.len(), 4);
    assert_eq!(v.as_slice(), &[1, 99, 2, 3]);
}

#[test]
fn insert_at_len_appends() {
    let mut v: SmallerVec<u32, u8> = SmallerVec::new();
    v.extend_from_slice(&[1, 2]);
    v.insert(2, 3);
    assert_eq!(v.as_slice(), &[1, 2, 3]);
    let mut empty: SmallerVec<u32, u8> = SmallerVec::new();
    empty.insert(0, 7);
    assert_eq!(empty.as_slice(), &[7]);
}

#[test]
fn insert_then_remove_round_trips() {
    let mut v: SmallerVec<u32, u16> = SmallerVec::new();
    v.extend_from_slice(&[10, 20, 30, 40]);
    v.insert(2, 99);
    assert_eq!(v.as_slice(), &[10, 20, 99, 30, 40]);
    let removed = v.remove(2);
    assert_eq!(removed, 99);
    assert_eq!(v.len(), 4);
    assert_eq!(v.as_slice(), &[10, 20, 30, 40]);
}

#[test]
fn remove_shifts_left() {
    let mut v: SmallerVec<u32, u8> = SmallerVec::new();
    v.extend_from_slice(&[1, 2, 3]);
    assert_eq!(v.remove(0), 1);
    assert_eq!(v.as_slice(), &[2, 3]);
    assert_eq!(v.remove(1), 3);
    assert_eq!(v.as_slice(), &[2]);
}

#[test]
fn extend_from_slice_clones_in_order() {
    let mut v: SmallerVec<u32, u8> = SmallerVec::new();
    v.push(1);
    v.extend_from_slice(&[2, 3, 4]);
    assert_eq!(v.as_slice(), &[1, 2, 3, 4]);

    let mut s: SmallerVec<String, u8> = SmallerVec::new();
    s.push(String::from("a"));
    s.extend_from_slice(&[String::from("b"), String::from("c")]);
    assert_eq!(s.len(), 3);
    assert_eq!(s.as_slice(), &[String::from("a"), String::from("b"), String::from("c")]);
}

#[test]
fn mutable_view_replaces_elements_in_place() {
    let mut v: SmallerVec<u32, u8> = SmallerVec::new();
    v.extend_from_slice(&[1, 2, 3]);
    let view = v.as_mut_slice();
    view[1] = 99;
    assert_eq!(v.as_slice(), &[1, 99, 3]);
    assert_eq!(v.len(), 3);
}

#[test]
fn clone_is_independent() {
    let mut v: SmallerVec<u32, u8> = SmallerVec::new();
    v.extend_from_slice(&[1, 2, 3]);
    let c = v.clone();
    v.push(4);
    assert_eq!(c.as_slice(), &[1, 2, 3]);
    assert_eq!(v.as_slice(), &[1, 2, 3, 4]);
}

#[test]
fn len_tracks_net_count_of_operations() {
    let mut v: SmallerVec<u32, u8> = SmallerVec::new();
    let mut net: usize = 0;
    for i in 0..10 {
        v.push(i);
        net += 1;
        assert_eq!(v.len(), net);
    }
    v.insert(3, 100);
    net += 1;
    assert_eq!(v.len(), net);
    v.remove(0);
    net -= 1;
    assert_eq!(v.len(), net);
    while v.pop().is_some() {
        net -= 1;
        assert_eq!(v.len(), net);
    }
    assert_eq!(net, 0);
    assert!(v.len() <= v.capacity());
    assert!(v.capacity() <= u8::MAX as usize);
}
