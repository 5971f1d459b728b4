use packed_integers::{PackedInt, PackedIntegers, U10, U31, U8, U9};
use std::cmp::Ordering;

fn packed<T: PackedInt>(values: &[u32]) -> PackedIntegers<T> {
    let mut is = PackedIntegers::<T>::with_capacity(values.len());
    for &value in values {
        is.push(value).unwrap();
    }
    is
}

#[test]
fn append() {
    let mut v1 = packed::<U9>(&[1, 2]);
    let mut v2 = packed::<U9>(&[3, 4, 5]);
    v1.append(&mut v2);

    assert_eq!(v1, packed::<U9>(&[1, 2, 3, 4, 5]));
}

#[test]
fn append_empty() {
    let mut v1 = packed::<U8>(&[1, 2]);
    let mut v2 = packed::<U8>(&[]);
    v1.append(&mut v2);

    assert_eq!(v1, packed::<U8>(&[1, 2]));
}

#[test]
fn clear() {
    let mut v = packed::<U8>(&[251, 252, 253, 254, 255]);
    v.clear();

    assert_eq!(v.len(), 0);
    assert_eq!(v, packed::<U8>(&[]));
}

#[test]
fn get_has_span() {
    let v = packed::<U9>(&[507, 508, 509, 510, 511]);

    assert_eq!(v.len(), 5);
    assert_eq!(v.get(0), Some(507));
    assert_eq!(v.get(1), Some(508));
    assert_eq!(v.get(2), Some(509));
    assert_eq!(v.get(3), Some(510));
    assert_eq!(v.get(4), Some(511));
    assert_eq!(v.get(5), None);
}

#[test]
fn get_no_span() {
    let v = packed::<U8>(&[251, 252, 253, 254, 255]);

    assert_eq!(v.len(), 5);
    assert_eq!(v.get(0), Some(251));
    assert_eq!(v.get(1), Some(252));
    assert_eq!(v.get(2), Some(253));
    assert_eq!(v.get(3), Some(254));
    assert_eq!(v.get(4), Some(255));
    assert_eq!(v.get(5), None);
}

#[test]
fn insert() {
    let mut v = packed::<U8>(&[1, 2, 3]);
    v.insert(0, 4).unwrap();

    assert_eq!(v.len(), 4);
    assert_eq!(v, packed::<U8>(&[4, 1, 2, 3]));

    v.insert(2, 5).unwrap();
    assert_eq!(v.len(), 5);
    assert_eq!(v, packed::<U8>(&[4, 1, 5, 2, 3]));
}

#[test]
fn insert_empty() {
    let mut v = packed::<U8>(&[]);
    v.insert(0, 4).unwrap();

    assert_eq!(v.len(), 1);
    assert_eq!(v, packed::<U8>(&[4]));
}

#[test]
fn insert_eq_len() {
    let mut v = packed::<U8>(&[1]);
    v.insert(1, 4).unwrap();

    assert_eq!(v.len(), 2);
    assert_eq!(v, packed::<U8>(&[1, 4]));
}

#[test]
#[should_panic]
fn insert_gt_len() {
    let mut v = packed::<U8>(&[1]);
    v.insert(2, 4).unwrap();
}

#[test]
fn into_iter_move() {
    let v = packed::<U8>(&[251, 252, 253, 254, 255]);

    let mut iter = v.into_iter();
    assert_eq!(iter.next(), Some(251));
    assert_eq!(iter.next(), Some(252));
    assert_eq!(iter.next(), Some(253));
    assert_eq!(iter.next(), Some(254));
    assert_eq!(iter.next(), Some(255));
    assert_eq!(iter.next(), None);
}

#[test]
fn into_iter_ref() {
    let v = packed::<U9>(&[507, 508, 509, 510, 511]);

    let mut iter = (&v).iter();
    assert_eq!(iter.next(), Some(507));
    assert_eq!(iter.next(), Some(508));
    assert_eq!(iter.next(), Some(509));
    assert_eq!(iter.next(), Some(510));
    assert_eq!(iter.next(), Some(511));
    assert_eq!(iter.next(), None);

    assert_eq!(v.len(), 5);
}

#[test]
fn is_empty() {
    let mut v = packed::<U31>(&[]);
    assert!(v.is_empty());

    v.push(12345).unwrap();
    assert!(!v.is_empty());
}

#[test]
fn iter() {
    let v = packed::<U9>(&[507, 508, 509, 510, 511]);

    let mut iter = v.iter();
    assert_eq!(iter.next(), Some(507));
    assert_eq!(iter.next(), Some(508));
    assert_eq!(iter.next(), Some(509));
    assert_eq!(iter.next(), Some(510));
    assert_eq!(iter.next(), Some(511));
    assert_eq!(iter.next(), None);
}

#[test]
fn ord_eq() {
    let v1 = packed::<U8>(&[]);
    let v2 = packed::<U8>(&[]);

    assert_eq!(v1.cmp(&v2), Ordering::Equal);

    let v3 = packed::<U8>(&[1, 2]);
    let v4 = packed::<U8>(&[1, 2]);

    assert_eq!(v3.cmp(&v4), Ordering::Equal);
}

#[test]
fn ord_gt() {
    let v1 = packed::<U8>(&[1, 4, 3]);
    let v2 = packed::<U8>(&[1, 2, 3]);

    assert_eq!(v1.cmp(&v2), Ordering::Greater);

    let v3 = packed::<U8>(&[1, 4]);
    let v4 = packed::<U8>(&[1, 2, 3]);

    assert_eq!(v3.cmp(&v4), Ordering::Greater);

    let v5 = packed::<U8>(&[1, 2, 3, 4]);
    let v6 = packed::<U8>(&[1, 2, 3]);

    assert_eq!(v5.cmp(&v6), Ordering::Greater);
}

#[test]
fn ord_lt() {
    let v1 = packed::<U8>(&[1, 2, 3]);
    let v2 = packed::<U8>(&[1, 4, 3]);

    assert_eq!(v1.cmp(&v2), Ordering::Less);

    let v3 = packed::<U8>(&[1, 2, 3]);
    let v4 = packed::<U8>(&[1, 4]);

    assert_eq!(v3.cmp(&v4), Ordering::Less);

    let v5 = packed::<U8>(&[1, 2, 3]);
    let v6 = packed::<U8>(&[1, 2, 3, 4]);

    assert_eq!(v5.cmp(&v6), Ordering::Less);
}

#[test]
fn pop() {
    let mut v = packed::<U10>(&[100, 200, 300, 400, 500]);

    assert_eq!(v.pop(), Some(500));
    assert_eq!(v.pop(), Some(400));
    assert_eq!(v, packed::<U10>(&[100, 200, 300]));

    v.push(600).unwrap();
    assert_eq!(v, packed::<U10>(&[100, 200, 300, 600]));
}

#[test]
fn pop_none() {
    let mut v = packed::<U10>(&[]);

    assert_eq!(v.pop(), None);
}

#[test]
fn pop_one() {
    let mut v = packed::<U10>(&[100]);

    assert_eq!(v.pop(), Some(100));
    assert_eq!(v.pop(), None);
}

#[test]
fn push_eq_max() {
    let mut v = PackedIntegers::<U10>::new();
    v.push(1023).unwrap();

    assert_eq!(v, packed::<U10>(&[1023]));
}

#[test]
#[should_panic]
fn push_gt_max() {
    let mut v = PackedIntegers::<U10>::new();
    v.push(1024).unwrap();
}

#[test]
fn remove() {
    let mut v = packed::<U8>(&[251, 252, 253, 254, 255]);
    v.remove(0).unwrap();

    assert_eq!(v.len(), 4);
    assert_eq!(v, packed::<U8>(&[252, 253, 254, 255]));

    v.remove(2).unwrap();
    assert_eq!(v.len(), 3);
    assert_eq!(v, packed::<U8>(&[252, 253, 255]));
}

#[test]
#[should_panic]
fn remove_eq_len() {
    let mut v = packed::<U8>(&[251, 252]);
    v.remove(2).unwrap();
}

#[test]
fn set() {
    let mut v = packed::<U8>(&[251, 252, 253, 254, 255]);
    v.set(0, 100).unwrap();
    v.set(2, 150).unwrap();
    v.set(4, 200).unwrap();

    assert_eq!(v, packed::<U8>(&[100, 252, 150, 254, 200]));
}

#[test]
#[should_panic]
fn set_oob() {
    let mut v = packed::<U8>(&[100]);
    v.set(1, 200).unwrap();
}

#[test]
fn truncate() {
    let mut v = packed::<U8>(&[251, 252, 253, 254, 255]);
    v.truncate(2);

    assert_eq!(v.len(), 2);
    assert_eq!(v, packed::<U8>(&[251, 252]));

    v.push(200).unwrap();
    assert_eq!(v.len(), 3);
    assert_eq!(v, packed::<U8>(&[251, 252, 200]));
}

#[test]
fn truncate_gt() {
    let mut v = packed::<U8>(&[251, 252, 253, 254, 255]);
    v.truncate(10);

    assert_eq!(v.len(), 5);
    assert_eq!(v, packed::<U8>(&[251, 252, 253, 254, 255]));
}
