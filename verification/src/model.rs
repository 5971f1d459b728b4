//! What each operation does to the sequence of elements.
//!
//! The contracts of the array's operations are stated through these
//! functions, so that what holds of them holds of the operations.

use vstd::prelude::*;
use crate::error::PackedError;
use crate::width::max_value;

verus! {

/// Whether `value` fits in `width` bits.
pub open spec fn in_range(width: nat, value: u32) -> bool {
    value <= max_value(width)
}

/// The element at `index`, if there is one.
pub open spec fn get_result(elements: Seq<u32>, index: nat) -> Option<u32> {
    if index < elements.len() {
        Some(elements[index as int])
    } else {
        None
    }
}

/// The elements after `value` is added at the end, or why it is not.
pub open spec fn push_result(width: nat, elements: Seq<u32>, value: u32) -> Result<
    Seq<u32>,
    PackedError,
> {
    if !in_range(width, value) {
        Err(PackedError::ValueOutOfRange)
    } else {
        Ok(elements.push(value))
    }
}

/// The elements after the one at `index` is replaced by `value`, or why it is
/// not. An index out of bounds is reported whatever the value.
pub open spec fn set_result(width: nat, elements: Seq<u32>, index: nat, value: u32) -> Result<
    Seq<u32>,
    PackedError,
> {
    if index >= elements.len() {
        Err(PackedError::IndexOutOfBounds)
    } else if !in_range(width, value) {
        Err(PackedError::ValueOutOfRange)
    } else {
        Ok(elements.update(index as int, value))
    }
}

/// The elements after `value` is put at `index` and those from `index` on move
/// one place up, or why it is not. An index out of bounds is reported whatever
/// the value.
pub open spec fn insert_result(width: nat, elements: Seq<u32>, index: nat, value: u32) -> Result<
    Seq<u32>,
    PackedError,
> {
    if index > elements.len() {
        Err(PackedError::IndexOutOfBounds)
    } else if !in_range(width, value) {
        Err(PackedError::ValueOutOfRange)
    } else {
        Ok(elements.insert(index as int, value))
    }
}

/// The elements after the one at `index` is taken out and those behind it move
/// one place down, together with the element taken out, or why none is.
pub open spec fn remove_result(elements: Seq<u32>, index: nat) -> Result<
    (Seq<u32>, u32),
    PackedError,
> {
    if index >= elements.len() {
        Err(PackedError::IndexOutOfBounds)
    } else {
        Ok((elements.remove(index as int), elements[index as int]))
    }
}

/// The elements after the last one is taken off, together with that element.
/// An empty sequence stays empty and gives none.
pub open spec fn pop_result(elements: Seq<u32>) -> (Seq<u32>, Option<u32>) {
    if elements.len() == 0 {
        (elements, None)
    } else {
        (elements.drop_last(), Some(elements.last()))
    }
}

/// The first `len` elements, or all of them where there are no more than `len`.
pub open spec fn truncate_result(elements: Seq<u32>, len: nat) -> Seq<u32> {
    if len < elements.len() {
        elements.take(len as int)
    } else {
        elements
    }
}

} // verus!
