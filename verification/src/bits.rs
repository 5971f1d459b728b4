//! Facts about single bits of 32-bit cells.

use vstd::prelude::*;
use crate::width::max_value;

verus! {

/// Bit `b` of `x`, counted from the least significant end.
pub open spec fn bit_of(x: u32, b: u32) -> bool {
    (x >> b) & 1 == 1
}

/// The cell whose `w` lowest bits are set and whose other bits are clear.
pub open spec fn low_mask(w: u32) -> u32 {
    !(0xffff_ffffu32 << w)
}

/// The mask of `w` bits is twice the mask of `w - 1` bits, plus one.
proof fn lemma_low_mask_step(w: u32)
    by (bit_vector)
    requires
        1 <= w <= 31,
    ensures
        low_mask(w) == 2 * low_mask((w - 1) as u32) + 1,
        low_mask(0) == 0,
{
}

/// For every supported width, `2^w - 1` is the mask of the `w` lowest bits.
pub proof fn lemma_max_value_is_low_mask(w: nat)
    requires
        w <= 31,
    ensures
        max_value(w) == low_mask(w as u32),
    decreases w,
{
    if w == 0 {
        lemma_low_mask_step(1);
    } else {
        lemma_max_value_is_low_mask((w - 1) as nat);
        lemma_low_mask_step(w as u32);
    }
}

/// Two cells that agree in each of their 32 bits are the same cell.
proof fn lemma_equal_by_each_bit(x: u32, y: u32)
    by (bit_vector)
    requires
        bit_of(x, 0) == bit_of(y, 0),
        bit_of(x, 1) == bit_of(y, 1),
        bit_of(x, 2) == bit_of(y, 2),
        bit_of(x, 3) == bit_of(y, 3),
        bit_of(x, 4) == bit_of(y, 4),
        bit_of(x, 5) == bit_of(y, 5),
        bit_of(x, 6) == bit_of(y, 6),
        bit_of(x, 7) == bit_of(y, 7),
        bit_of(x, 8) == bit_of(y, 8),
        bit_of(x, 9) == bit_of(y, 9),
        bit_of(x, 10) == bit_of(y, 10),
        bit_of(x, 11) == bit_of(y, 11),
        bit_of(x, 12) == bit_of(y, 12),
        bit_of(x, 13) == bit_of(y, 13),
        bit_of(x, 14) == bit_of(y, 14),
        bit_of(x, 15) == bit_of(y, 15),
        bit_of(x, 16) == bit_of(y, 16),
        bit_of(x, 17) == bit_of(y, 17),
        bit_of(x, 18) == bit_of(y, 18),
        bit_of(x, 19) == bit_of(y, 19),
        bit_of(x, 20) == bit_of(y, 20),
        bit_of(x, 21) == bit_of(y, 21),
        bit_of(x, 22) == bit_of(y, 22),
        bit_of(x, 23) == bit_of(y, 23),
        bit_of(x, 24) == bit_of(y, 24),
        bit_of(x, 25) == bit_of(y, 25),
        bit_of(x, 26) == bit_of(y, 26),
        bit_of(x, 27) == bit_of(y, 27),
        bit_of(x, 28) == bit_of(y, 28),
        bit_of(x, 29) == bit_of(y, 29),
        bit_of(x, 30) == bit_of(y, 30),
        bit_of(x, 31) == bit_of(y, 31),
    ensures
        x == y,
{
}

/// Two cells that agree in every bit are the same cell.
pub proof fn lemma_equal_by_bits(x: u32, y: u32)
    requires
        forall|b: u32| b < 32 ==> #[trigger] bit_of(x, b) == bit_of(y, b),
    ensures
        x == y,
{
    lemma_equal_by_each_bit(x, y);
}

/// Reading a field that lies within one cell: bit `t` of the result is bit
/// `s + t` of the cell while `t` is inside the field, and clear above it.
pub proof fn lemma_field_bit(c: u32, s: u32, w: u32, t: u32)
    by (bit_vector)
    requires
        1 <= w <= 31,
        s + w <= 32,
        t < 32,
    ensures
        bit_of((c >> s) & low_mask(w), t) == (t < w && bit_of(c, (s + t) as u32)),
{
}

/// Reading a field that starts in cell `c0` and ends in cell `c1`.
pub proof fn lemma_split_field_bit(c0: u32, c1: u32, s: u32, w: u32, t: u32)
    by (bit_vector)
    requires
        1 <= w <= 31,
        s < 32,
        s + w > 32,
        t < 32,
    ensures
        bit_of(((c0 >> s) | (c1 << ((32 - s) as u32))) & low_mask(w), t) == (t < w && if s + t
            < 32 {
            bit_of(c0, (s + t) as u32)
        } else {
            bit_of(c1, (s + t - 32) as u32)
        }),
{
}

/// A value within the range of a `w`-bit field has no bit set at or above `w`.
pub proof fn lemma_value_bit(v: u32, w: u32, t: u32)
    by (bit_vector)
    requires
        1 <= w <= 31,
        v <= low_mask(w),
        t < 32,
    ensures
        bit_of(v, t) == (t < w && bit_of(v, t)),
{
}

/// Storing a field into the cell in which it starts: the bits from `s` up to
/// the end of the field, or of the cell, take the value's bits; the others stay.
pub proof fn lemma_store_low_bit(c: u32, s: u32, w: u32, v: u32, b: u32)
    by (bit_vector)
    requires
        1 <= w <= 31,
        s < 32,
        v <= low_mask(w),
        b < 32,
    ensures
        bit_of((c & !(low_mask(w) << s)) | (v << s), b) == if s <= b && b < s + w {
            bit_of(v, (b - s) as u32)
        } else {
            bit_of(c, b)
        },
{
}

/// Storing the rest of a field into the cell that follows: the lowest
/// `s + w - 32` bits take the value's upper bits; the others stay.
pub proof fn lemma_store_high_bit(c: u32, s: u32, w: u32, v: u32, b: u32)
    by (bit_vector)
    requires
        1 <= w <= 31,
        s < 32,
        s + w > 32,
        v <= low_mask(w),
        b < 32,
    ensures
        bit_of((c & !(low_mask(w) >> ((32 - s) as u32))) | (v >> ((32 - s) as u32)), b) == if b
            + 32 < s + w {
            bit_of(v, (b + 32 - s) as u32)
        } else {
            bit_of(c, b)
        },
{
}

/// The branch-free merge of the two halves of a split field selects the same
/// bits as masking their union.
pub proof fn lemma_merge_is_masked_union(c0: u32, c1: u32, s: u32, w: u32)
    by (bit_vector)
    requires
        1 <= w <= 31,
        s < 32,
        s + w > 32,
    ensures
        ({
            let a = (32 - s) as u32;
            let lo = c0 >> s;
            let hi = c1 << a;
            lo ^ ((lo ^ hi) & ((low_mask(w) >> a) << a))
        }) == ((c0 >> s) | (c1 << ((32 - s) as u32))) & low_mask(w),
{
}

} // verus!
