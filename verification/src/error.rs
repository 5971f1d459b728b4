//! The ways in which an operation on a packed array can be rejected.

use vstd::prelude::*;

verus! {

/// Why an operation was rejected. A rejected operation leaves the array as it was.
#[derive(Clone, Copy, Debug, PartialEq, Eq, Structural)]
pub enum PackedError {
    /// The value does not fit in the element width of the array.
    ValueOutOfRange,
    /// The index lies outside the range that the operation accepts.
    IndexOutOfBounds,
}

} // verus!
