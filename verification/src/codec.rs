//! Reading and writing one element of a packed buffer.
//!
//! The buffer is a sequence of 32-bit cells, read as one long row of bits:
//! bit `k` of the row is bit `k % 32` of cell `k / 32`. Element `i` of width
//! `w` is the `w` bits of the row that start at bit `i * w`, so it lies within
//! one cell or across two neighbours.

use vstd::prelude::*;
use crate::bits::{
    bit_of, lemma_equal_by_bits, lemma_field_bit, lemma_max_value_is_low_mask,
    lemma_split_field_bit, lemma_store_high_bit, lemma_store_low_bit, lemma_value_bit,
};
use crate::layout::{
    cell_index, fits, lemma_element_cells, lemma_elements_disjoint, lemma_fits_fewer,
    spans_two_cells, start_bit,
};
use crate::width::{max_value, valid_width};

verus! {

/// Bit `k` of the row of bits that the cells of `buf` form.
pub open spec fn stream_bit(buf: Seq<u32>, k: nat) -> bool {
    bit_of(buf[(k / 32) as int], (k % 32) as u32)
}

/// The value of element `index`.
///
/// Within one cell it is the cell shifted down to the element's first bit and
/// masked to the width. Across two cells the second cell supplies the upper
/// bits, shifted up past those that the first cell supplies.
pub open spec fn decode(buf: Seq<u32>, width: nat, index: nat) -> u32 {
    let cell = cell_index(width, index) as int;
    let start = start_bit(width, index) as u32;
    let mask = max_value(width) as u32;
    if spans_two_cells(width, index) {
        ((buf[cell] >> start) | (buf[cell + 1] << ((32 - start) as u32))) & mask
    } else {
        (buf[cell] >> start) & mask
    }
}

/// The buffer after element `index` is given the value `value`.
///
/// Only the bits of that element change: in each cell that the element
/// touches, its bits are cleared and the matching bits of the value are put in
/// their place.
pub open spec fn encode(buf: Seq<u32>, width: nat, index: nat, value: u32) -> Seq<u32> {
    let cell = cell_index(width, index) as int;
    let start = start_bit(width, index) as u32;
    let mask = max_value(width) as u32;
    let low = (buf[cell] & !(mask << start)) | (value << start);
    if spans_two_cells(width, index) {
        let rest = (32 - start) as u32;
        let high = (buf[cell + 1] & !(mask >> rest)) | (value >> rest);
        buf.update(cell, low).update(cell + 1, high)
    } else {
        buf.update(cell, low)
    }
}

/// The first `count` elements of the buffer.
pub open spec fn decode_all(buf: Seq<u32>, width: nat, count: nat) -> Seq<u32> {
    Seq::new(count, |i: int| decode(buf, width, i as nat))
}

/// Bit `t` of an element is bit `index * width + t` of the row, and the bits
/// from the width up are clear.
pub proof fn lemma_decode_bit(buf: Seq<u32>, width: nat, index: nat, t: u32)
    requires
        valid_width(width),
        fits(width, index + 1, buf.len()),
        t < 32,
    ensures
        bit_of(decode(buf, width, index), t) == (t < width && stream_bit(
            buf,
            index * width + t as nat,
        )),
{
    lemma_max_value_is_low_mask(width);
    let cell = cell_index(width, index) as int;
    let start = start_bit(width, index) as u32;
    if spans_two_cells(width, index) {
        lemma_split_field_bit(buf[cell], buf[cell + 1], start, width as u32, t);
    } else {
        lemma_field_bit(buf[cell], start, width as u32, t);
    }
}

/// Writing an element sets the bits of that element to the bits of the value
/// and leaves every other bit of the row as it was.
pub proof fn lemma_encode_bit(buf: Seq<u32>, width: nat, index: nat, value: u32, k: nat)
    requires
        valid_width(width),
        fits(width, index + 1, buf.len()),
        value <= max_value(width),
        k < buf.len() * 32,
    ensures
        encode(buf, width, index, value).len() == buf.len(),
        stream_bit(encode(buf, width, index, value), k) == if index * width <= k < index * width
            + width {
            bit_of(value, (k - index * width) as u32)
        } else {
            stream_bit(buf, k)
        },
{
    lemma_element_cells(width, index, buf.len());
    lemma_max_value_is_low_mask(width);
    let cell = cell_index(width, index) as int;
    let start = start_bit(width, index) as u32;
    let b = (k % 32) as u32;
    if k / 32 == cell {
        lemma_store_low_bit(buf[cell], start, width as u32, value, b);
    } else if spans_two_cells(width, index) && k / 32 == cell + 1 {
        lemma_store_high_bit(buf[cell + 1], start, width as u32, value, b);
    }
}

/// An element never exceeds the largest value of its width.
pub proof fn lemma_decode_in_range(buf: Seq<u32>, width: nat, index: nat)
    requires
        valid_width(width),
    ensures
        decode(buf, width, index) <= max_value(width),
{
    let mask = max_value(width) as u32;
    let cell = cell_index(width, index) as int;
    let start = start_bit(width, index) as u32;
    let x = if spans_two_cells(width, index) {
        (buf[cell] >> start) | (buf[cell + 1] << ((32 - start) as u32))
    } else {
        buf[cell] >> start
    };
    assert(x & mask <= mask) by (bit_vector);
}

/// An element that was written reads back as the value written.
pub proof fn lemma_decode_written(buf: Seq<u32>, width: nat, index: nat, value: u32)
    requires
        valid_width(width),
        fits(width, index + 1, buf.len()),
        value <= max_value(width),
    ensures
        decode(encode(buf, width, index, value), width, index) == value,
{
    let after = encode(buf, width, index, value);
    lemma_element_cells(width, index, buf.len());
    lemma_max_value_is_low_mask(width);
    assert forall|t: u32| t < 32 implies #[trigger] bit_of(decode(after, width, index), t)
        == bit_of(value, t) by {
        lemma_value_bit(value, width as u32, t);
        if t < width {
            lemma_encode_bit(buf, width, index, value, index * width + t as nat);
        }
        lemma_decode_bit(after, width, index, t);
    }
    lemma_equal_by_bits(decode(after, width, index), value);
}

/// Writing one element leaves every other element as it was.
pub proof fn lemma_decode_untouched(
    buf: Seq<u32>,
    width: nat,
    index: nat,
    value: u32,
    other: nat,
)
    requires
        valid_width(width),
        fits(width, index + 1, buf.len()),
        fits(width, other + 1, buf.len()),
        value <= max_value(width),
        other != index,
    ensures
        decode(encode(buf, width, index, value), width, other) == decode(buf, width, other),
{
    let after = encode(buf, width, index, value);
    lemma_element_cells(width, other, buf.len());
    if other < index {
        lemma_elements_disjoint(width, other, index);
    } else {
        lemma_elements_disjoint(width, index, other);
    }
    assert forall|t: u32| t < 32 implies #[trigger] bit_of(decode(after, width, other), t)
        == bit_of(decode(buf, width, other), t) by {
        if t < width {
            lemma_encode_bit(buf, width, index, value, other * width + t as nat);
        } else {
            lemma_encode_bit(buf, width, index, value, 0);
        }
        lemma_decode_bit(after, width, other, t);
        lemma_decode_bit(buf, width, other, t);
    }
    lemma_equal_by_bits(decode(after, width, other), decode(buf, width, other));
}

/// Writing element `index` changes that element among the first `count` and
/// no other.
pub proof fn lemma_decode_all_written(
    buf: Seq<u32>,
    width: nat,
    index: nat,
    value: u32,
    count: nat,
)
    requires
        valid_width(width),
        fits(width, index + 1, buf.len()),
        fits(width, count, buf.len()),
        value <= max_value(width),
    ensures
        decode_all(encode(buf, width, index, value), width, count) == if index < count {
            decode_all(buf, width, count).update(index as int, value)
        } else {
            decode_all(buf, width, count)
        },
{
    let after = encode(buf, width, index, value);
    let expected = if index < count {
        decode_all(buf, width, count).update(index as int, value)
    } else {
        decode_all(buf, width, count)
    };
    assert forall|i: int| 0 <= i < count implies decode_all(after, width, count)[i]
        == expected[i] by {
        lemma_fits_fewer(width, (i + 1) as nat, count, buf.len());
        if i == index {
            lemma_decode_written(buf, width, index, value);
        } else {
            lemma_decode_untouched(buf, width, index, value, i as nat);
        }
    }
}

/// Cells added behind the elements do not change them.
pub proof fn lemma_decode_all_extended(buf: Seq<u32>, longer: Seq<u32>, width: nat, count: nat)
    requires
        valid_width(width),
        fits(width, count, buf.len()),
        buf.len() <= longer.len(),
        longer.subrange(0, buf.len() as int) == buf,
    ensures
        decode_all(longer, width, count) == decode_all(buf, width, count),
{
    assert forall|i: int| 0 <= i < count implies decode_all(longer, width, count)[i]
        == decode_all(buf, width, count)[i] by {
        lemma_fits_fewer(width, (i + 1) as nat, count, buf.len());
        lemma_element_cells(width, i as nat, buf.len());
    }
}

} // verus!
