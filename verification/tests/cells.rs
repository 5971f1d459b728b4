use packed_integers::{PackedInt, PackedIntegers, U8, U9};

fn filled<T: PackedInt>(values: &[u32]) -> PackedIntegers<T> {
    let mut is = PackedIntegers::<T>::with_capacity(values.len());
    for &value in values {
        is.push(value).unwrap();
    }
    is
}

#[test]
fn buflen_has_span() {
    let mut v = PackedIntegers::<U9>::new();
    v.push(1).unwrap();
    v.push(2).unwrap();
    v.push(3).unwrap();
    assert_eq!(v.allocated_cells(), 1);

    v.push(4).unwrap();
    assert_eq!(v.allocated_cells(), 2);
}

#[test]
fn buflen_no_span() {
    let mut v = PackedIntegers::<U8>::new();
    v.push(1).unwrap();
    v.push(2).unwrap();
    v.push(3).unwrap();
    v.push(4).unwrap();
    assert_eq!(v.allocated_cells(), 1);

    v.push(5).unwrap();
    assert_eq!(v.allocated_cells(), 2);
}

#[test]
fn capacity() {
    let v1 = PackedIntegers::<U9>::with_capacity(7);
    assert_eq!(v1.allocated_cells(), 2);
    assert_eq!(v1.capacity(), 7);

    let v2 = PackedIntegers::<U9>::with_capacity(8);
    assert_eq!(v2.allocated_cells(), 3);
    assert_eq!(v2.capacity(), 10);
}

#[test]
fn reserve() {
    let mut v = filled::<U8>(&[100]);
    v.reserve(4);

    assert!(v.allocated_cells() >= 2);
}

#[test]
fn reserve_sufficient_capacity() {
    let mut v = filled::<U8>(&[100]);
    v.reserve(3);

    assert_eq!(v.allocated_cells(), 1);
}
