//! Where an element lives: the arithmetic from an element's index to the cell
//! it starts in and the bit it starts at, and from cell counts to capacities.

use vstd::prelude::*;
use crate::width::valid_width;

verus! {

/// Bits in one storage cell.
pub const CELL_BITS: usize = 32;

/// The cell in which element `index` starts.
pub open spec fn cell_index(width: nat, index: nat) -> nat {
    index * width / 32
}

/// The bit of that cell at which element `index` starts.
pub open spec fn start_bit(width: nat, index: nat) -> nat {
    index * width % 32
}

/// The bits of a cell from `start_bit` to its end.
pub open spec fn available_bits(start_bit: nat) -> nat {
    (32 - start_bit) as nat
}

/// Whether element `index` ends in the cell after the one it starts in.
pub open spec fn spans_two_cells(width: nat, index: nat) -> bool {
    available_bits(start_bit(width, index)) < width
}

/// The fewest cells that hold `count` elements.
pub open spec fn cells_for(width: nat, count: nat) -> nat {
    (width * count + 31) / 32
}

/// The most elements that `cells` cells hold.
pub open spec fn capacity_of(width: nat, cells: nat) -> nat {
    cells * 32 / width
}

/// The most cells an array may own, so that its size in bits fits in `usize`.
pub open spec fn max_cells() -> nat {
    (usize::MAX / 32) as nat
}

/// Whether the first `count` elements lie within `cells` cells.
pub open spec fn fits(width: nat, count: nat, cells: nat) -> bool {
    count * width <= cells * 32
}

/// The three ways to say that `count` elements have room in `cells` cells agree.
pub proof fn lemma_fits(width: nat, count: nat, cells: nat)
    requires
        valid_width(width),
    ensures
        fits(width, count, cells) <==> count <= capacity_of(width, cells),
        fits(width, count, cells) <==> cells_for(width, count) <= cells,
{
    let bits = (cells * 32) as int;
    let w = width as int;
    assert(bits == w * (bits / w) + bits % w && 0 <= bits % w < w) by (nonlinear_arith)
        requires
            w > 0,
            bits >= 0,
    ;
    let q = bits / w;
    assert(count <= q ==> count * w <= q * w) by (nonlinear_arith)
        requires
            w > 0,
    ;
    assert(count > q ==> count * w >= (q + 1) * w) by (nonlinear_arith)
        requires
            w > 0,
    ;
    assert((q + 1) * w == w * q + w) by (nonlinear_arith);
}

/// Room for more elements is room for fewer.
pub proof fn lemma_fits_fewer(width: nat, fewer: nat, count: nat, cells: nat)
    requires
        fewer <= count,
        fits(width, count, cells),
    ensures
        fits(width, fewer, cells),
        fewer * width <= count * width,
{
    assert(fewer * width <= count * width) by (nonlinear_arith)
        requires
            fewer <= count,
    ;
}

/// An element that fits starts in an owned cell, and so does its second half
/// when it has one.
pub proof fn lemma_element_cells(width: nat, index: nat, cells: nat)
    requires
        valid_width(width),
        fits(width, index + 1, cells),
    ensures
        (index + 1) * width == index * width + width,
        cell_index(width, index) < cells,
        spans_two_cells(width, index) ==> cell_index(width, index) + 1 < cells,
        start_bit(width, index) < 32,
{
    assert((index + 1) * width == index * width + width) by (nonlinear_arith);
}

/// Elements do not overlap: a later one starts where an earlier one has ended.
pub proof fn lemma_elements_disjoint(width: nat, i: nat, j: nat)
    requires
        i < j,
    ensures
        i * width + width <= j * width,
{
    assert(i * width + width <= j * width) by (nonlinear_arith)
        requires
            i + 1 <= j,
    ;
}

/// More cells never hold fewer elements.
pub proof fn lemma_capacity_monotonic(width: nat, fewer: nat, cells: nat)
    requires
        valid_width(width),
        fewer <= cells,
    ensures
        capacity_of(width, fewer) <= capacity_of(width, cells),
{
    vstd::arithmetic::div_mod::lemma_div_is_ordered(
        (fewer * 32) as int,
        (cells * 32) as int,
        width as int,
    );
}

/// The last cell that element `index` touches.
pub open spec fn last_cell(width: nat, index: nat) -> nat {
    if spans_two_cells(width, index) {
        cell_index(width, index) + 1
    } else {
        cell_index(width, index)
    }
}

/// The elements up to and including `index` need exactly the cells up to and
/// including the last one that `index` touches.
pub proof fn lemma_last_cell(width: nat, index: nat, cells: nat)
    requires
        valid_width(width),
    ensures
        cells_for(width, index + 1) == last_cell(width, index) + 1,
        fits(width, index + 1, cells) <==> last_cell(width, index) < cells,
        fits(width, index, cells) ==> last_cell(width, index) <= cells,
{
    assert((index + 1) * width == index * width + width) by (nonlinear_arith);
    assert(width * (index + 1) == index * width + width) by (nonlinear_arith);
}

} // verus!
