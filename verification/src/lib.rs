//! A growable array of unsigned integers of a fixed width between 1 and 31
//! bits, packed edge to edge into 32-bit cells.
//!
//! Storing 17-bit identifiers in a `Vec<u32>` wastes 15 bits per element.
//! [`PackedIntegers`] stores them back to back instead, so that an element may
//! start in the middle of one cell and end in the next. The interface follows
//! `Vec` where it can.

pub mod array;
pub mod bits;
pub mod codec;
pub mod error;
pub mod iter;
pub mod laws;
pub mod layout;
pub mod model;
pub mod order;
pub mod width;

pub use crate::array::PackedIntegers;
pub use crate::error::PackedError;
pub use crate::iter::{PackedIntegersIntoIterator, PackedIntegersIterator};
pub use crate::width::{
    PackedInt, U1, U10, U11, U12, U13, U14, U15, U16, U17, U18, U19, U2, U20, U21, U22, U23, U24,
    U25, U26, U27, U28, U29, U3, U30, U31, U4, U5, U6, U7, U8, U9,
};
