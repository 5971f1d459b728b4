//! What holds of the operations taken together.
//!
//! Each statement is about the sequences that the operations' contracts speak
//! of, so it holds of every array and every call.

use vstd::prelude::*;
use crate::error::PackedError;
use crate::layout::{capacity_of, fits, lemma_capacity_monotonic, lemma_fits};
use crate::model::{
    get_result, in_range, insert_result, pop_result, push_result, remove_result, set_result,
    truncate_result,
};
use crate::width::{lemma_max_value_bounds, max_value, valid_width};

verus! {

/// A value that fits the width can be pushed, and is then the last element.
pub proof fn lemma_push_then_get(width: nat, elements: Seq<u32>, value: u32)
    requires
        valid_width(width),
        in_range(width, value),
    ensures
        push_result(width, elements, value) == Ok::<Seq<u32>, PackedError>(elements.push(value)),
        get_result(elements.push(value), elements.len()) == Some(value),
        elements.push(value).len() == elements.len() + 1,
{
}

/// A pushed value comes back from `pop`, which restores the elements.
pub proof fn lemma_push_then_pop(elements: Seq<u32>, value: u32)
    ensures
        pop_result(elements.push(value)) == (elements, Some(value)),
{
}

/// The first value past the range of a width, `2^width`, fits in a cell and is
/// rejected by `push` on every array and by `set` at every index in bounds.
pub proof fn lemma_first_value_out_of_range(width: nat, elements: Seq<u32>, index: nat)
    requires
        valid_width(width),
    ensures
        max_value(width) + 1 <= u32::MAX,
        push_result(width, elements, (max_value(width) + 1) as u32) == Err::<
            Seq<u32>,
            PackedError,
        >(PackedError::ValueOutOfRange),
        index < elements.len() ==> set_result(
            width,
            elements,
            index,
            (max_value(width) + 1) as u32,
        ) == Err::<Seq<u32>, PackedError>(PackedError::ValueOutOfRange),
{
    lemma_max_value_bounds(width);
}

/// Every value past the range of the width is rejected by `push`, by `set` at
/// an index in bounds and by `insert` at an index up to the length.
pub proof fn lemma_out_of_range_rejected(width: nat, elements: Seq<u32>, index: nat, value: u32)
    requires
        value > max_value(width),
    ensures
        push_result(width, elements, value) == Err::<Seq<u32>, PackedError>(
            PackedError::ValueOutOfRange,
        ),
        index < elements.len() ==> set_result(width, elements, index, value) == Err::<
            Seq<u32>,
            PackedError,
        >(PackedError::ValueOutOfRange),
        index <= elements.len() ==> insert_result(width, elements, index, value) == Err::<
            Seq<u32>,
            PackedError,
        >(PackedError::ValueOutOfRange),
{
}

/// Removing at the index at which a value was just inserted gives back the
/// value and the elements as they were.
pub proof fn lemma_insert_then_remove(width: nat, elements: Seq<u32>, index: nat, value: u32)
    requires
        index <= elements.len(),
        in_range(width, value),
    ensures
        insert_result(width, elements, index, value) == Ok::<Seq<u32>, PackedError>(
            elements.insert(index as int, value),
        ),
        remove_result(elements.insert(index as int, value), index) == Ok::<
            (Seq<u32>, u32),
            PackedError,
        >((elements, value)),
{
    assert(elements.insert(index as int, value).remove(index as int) =~= elements);
}

/// Inserting at the length is pushing.
pub proof fn lemma_insert_at_end_is_push(width: nat, elements: Seq<u32>, value: u32)
    ensures
        insert_result(width, elements, elements.len(), value) == push_result(
            width,
            elements,
            value,
        ),
{
    assert(elements.insert(elements.len() as int, value) =~= elements.push(value));
}

/// Truncating to the length or more changes nothing, truncating to zero leaves
/// no element, and truncating twice to the same length is truncating once.
pub proof fn lemma_truncate(elements: Seq<u32>, len: nat)
    ensures
        len >= elements.len() ==> truncate_result(elements, len) == elements,
        truncate_result(elements, 0).len() == 0,
        truncate_result(truncate_result(elements, len), len) == truncate_result(elements, len),
        truncate_result(elements, len).len() <= elements.len(),
{
}

/// An array with more cells holds at least as many elements, and elements that
/// lie within the cells are no more than the capacity.
pub proof fn lemma_capacity(width: nat, count: nat, cells: nat, more_cells: nat)
    requires
        valid_width(width),
        cells <= more_cells,
    ensures
        capacity_of(width, cells) <= capacity_of(width, more_cells),
        fits(width, count, cells) <==> count <= capacity_of(width, cells),
{
    lemma_capacity_monotonic(width, cells, more_cells);
    lemma_fits(width, count, cells);
}

} // verus!
