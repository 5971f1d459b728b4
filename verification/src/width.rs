//! Bit widths from one to thirty-one, each as a zero-sized marker type.
//!
//! A packed array is parameterised by one of these markers. The marker carries
//! no data: it only tells the array how many bits each element occupies and
//! what the largest storable value is.

use vstd::prelude::*;

verus! {

/// The largest value that fits in `width` bits, that is `2^width - 1`.
pub open spec fn max_value(width: nat) -> nat
    decreases width,
{
    if width == 0 {
        0
    } else {
        2 * max_value((width - 1) as nat) + 1
    }
}

/// Whether `width` is a bit width that a packed array supports.
pub open spec fn valid_width(width: nat) -> bool {
    1 <= width <= 31
}

/// Every supported width has a maximum between 1 and `2^31 - 1`.
pub proof fn lemma_max_value_bounds(width: nat)
    requires
        valid_width(width),
    ensures
        1 <= max_value(width) <= 0x7fff_ffff,
{
    reveal_with_fuel(max_value, 32);
}

/// A bit width for the elements of a packed array.
///
/// `NUM_BITS` is the number of bits per element and `MAX` the largest value
/// those bits can hold. Contracts speak of the two through `width` and
/// `largest`; an implementation proves that the constants are what these say,
/// that the width lies between 1 and 31, and that the largest value is
/// `2^width - 1`.
pub trait PackedInt {
    /// Bits used by one element.
    const NUM_BITS: usize;

    /// Largest value an element may take.
    const MAX: u32;

    /// `NUM_BITS`, as contracts see it.
    spec fn width() -> nat;

    /// `MAX`, as contracts see it.
    spec fn largest() -> u32;

    /// The width is supported, the largest value is `2^width - 1`, and the
    /// constants agree with both.
    proof fn width_is_valid()
        ensures
            valid_width(Self::width()),
            Self::largest() == max_value(Self::width()),
            Self::NUM_BITS == Self::width(),
            Self::MAX == Self::largest(),
    ;
}

/// Elements of 1 bit: values from 0 to 1.
#[derive(Clone, Copy, Debug)]
pub struct U1;

impl PackedInt for U1 {
    const NUM_BITS: usize = 1;

    const MAX: u32 = 1;

    open spec fn width() -> nat {
        1
    }

    open spec fn largest() -> u32 {
        1
    }

    proof fn width_is_valid() {
        reveal_with_fuel(max_value, 2);
    }
}

/// Elements of 2 bits: values from 0 to 3.
#[derive(Clone, Copy, Debug)]
pub struct U2;

impl PackedInt for U2 {
    const NUM_BITS: usize = 2;

    const MAX: u32 = 3;

    open spec fn width() -> nat {
        2
    }

    open spec fn largest() -> u32 {
        3
    }

    proof fn width_is_valid() {
        reveal_with_fuel(max_value, 3);
    }
}

/// Elements of 3 bits: values from 0 to 7.
#[derive(Clone, Copy, Debug)]
pub struct U3;

impl PackedInt for U3 {
    const NUM_BITS: usize = 3;

    const MAX: u32 = 7;

    open spec fn width() -> nat {
        3
    }

    open spec fn largest() -> u32 {
        7
    }

    proof fn width_is_valid() {
        reveal_with_fuel(max_value, 4);
    }
}

/// Elements of 4 bits: values from 0 to 15.
#[derive(Clone, Copy, Debug)]
pub struct U4;

impl PackedInt for U4 {
    const NUM_BITS: usize = 4;

    const MAX: u32 = 15;

    open spec fn width() -> nat {
        4
    }

    open spec fn largest() -> u32 {
        15
    }

    proof fn width_is_valid() {
        reveal_with_fuel(max_value, 5);
    }
}

/// Elements of 5 bits: values from 0 to 31.
#[derive(Clone, Copy, Debug)]
pub struct U5;

impl PackedInt for U5 {
    const NUM_BITS: usize = 5;

    const MAX: u32 = 31;

    open spec fn width() -> nat {
        5
    }

    open spec fn largest() -> u32 {
        31
    }

    proof fn width_is_valid() {
        reveal_with_fuel(max_value, 6);
    }
}

/// Elements of 6 bits: values from 0 to 63.
#[derive(Clone, Copy, Debug)]
pub struct U6;

impl PackedInt for U6 {
    const NUM_BITS: usize = 6;

    const MAX: u32 = 63;

    open spec fn width() -> nat {
        6
    }

    open spec fn largest() -> u32 {
        63
    }

    proof fn width_is_valid() {
        reveal_with_fuel(max_value, 7);
    }
}

/// Elements of 7 bits: values from 0 to 127.
#[derive(Clone, Copy, Debug)]
pub struct U7;

impl PackedInt for U7 {
    const NUM_BITS: usize = 7;

    const MAX: u32 = 127;

    open spec fn width() -> nat {
        7
    }

    open spec fn largest() -> u32 {
        127
    }

    proof fn width_is_valid() {
        reveal_with_fuel(max_value, 8);
    }
}

/// Elements of 8 bits: values from 0 to 255.
#[derive(Clone, Copy, Debug)]
pub struct U8;

impl PackedInt for U8 {
    const NUM_BITS: usize = 8;

    const MAX: u32 = 255;

    open spec fn width() -> nat {
        8
    }

    open spec fn largest() -> u32 {
        255
    }

    proof fn width_is_valid() {
        reveal_with_fuel(max_value, 9);
    }
}

/// Elements of 9 bits: values from 0 to 511.
#[derive(Clone, Copy, Debug)]
pub struct U9;

impl PackedInt for U9 {
    const NUM_BITS: usize = 9;

    const MAX: u32 = 511;

    open spec fn width() -> nat {
        9
    }

    open spec fn largest() -> u32 {
        511
    }

    proof fn width_is_valid() {
        reveal_with_fuel(max_value, 10);
    }
}

/// Elements of 10 bits: values from 0 to 1023.
#[derive(Clone, Copy, Debug)]
pub struct U10;

impl PackedInt for U10 {
    const NUM_BITS: usize = 10;

    const MAX: u32 = 1023;

    open spec fn width() -> nat {
        10
    }

    open spec fn largest() -> u32 {
        1023
    }

    proof fn width_is_valid() {
        reveal_with_fuel(max_value, 11);
    }
}

/// Elements of 11 bits: values from 0 to 2047.
#[derive(Clone, Copy, Debug)]
pub struct U11;

impl PackedInt for U11 {
    const NUM_BITS: usize = 11;

    const MAX: u32 = 2047;

    open spec fn width() -> nat {
        11
    }

    open spec fn largest() -> u32 {
        2047
    }

    proof fn width_is_valid() {
        reveal_with_fuel(max_value, 12);
    }
}

/// Elements of 12 bits: values from 0 to 4095.
#[derive(Clone, Copy, Debug)]
pub struct U12;

impl PackedInt for U12 {
    const NUM_BITS: usize = 12;

    const MAX: u32 = 4095;

    open spec fn width() -> nat {
        12
    }

    open spec fn largest() -> u32 {
        4095
    }

    proof fn width_is_valid() {
        reveal_with_fuel(max_value, 13);
    }
}

/// Elements of 13 bits: values from 0 to 8191.
#[derive(Clone, Copy, Debug)]
pub struct U13;

impl PackedInt for U13 {
    const NUM_BITS: usize = 13;

    const MAX: u32 = 8191;

    open spec fn width() -> nat {
        13
    }

    open spec fn largest() -> u32 {
        8191
    }

    proof fn width_is_valid() {
        reveal_with_fuel(max_value, 14);
    }
}

/// Elements of 14 bits: values from 0 to 16383.
#[derive(Clone, Copy, Debug)]
pub struct U14;

impl PackedInt for U14 {
    const NUM_BITS: usize = 14;

    const MAX: u32 = 16383;

    open spec fn width() -> nat {
        14
    }

    open spec fn largest() -> u32 {
        16383
    }

    proof fn width_is_valid() {
        reveal_with_fuel(max_value, 15);
    }
}

/// Elements of 15 bits: values from 0 to 32767.
#[derive(Clone, Copy, Debug)]
pub struct U15;

impl PackedInt for U15 {
    const NUM_BITS: usize = 15;

    const MAX: u32 = 32767;

    open spec fn width() -> nat {
        15
    }

    open spec fn largest() -> u32 {
        32767
    }

    proof fn width_is_valid() {
        reveal_with_fuel(max_value, 16);
    }
}

/// Elements of 16 bits: values from 0 to 65535.
#[derive(Clone, Copy, Debug)]
pub struct U16;

impl PackedInt for U16 {
    const NUM_BITS: usize = 16;

    const MAX: u32 = 65535;

    open spec fn width() -> nat {
        16
    }

    open spec fn largest() -> u32 {
        65535
    }

    proof fn width_is_valid() {
        reveal_with_fuel(max_value, 17);
    }
}

/// Elements of 17 bits: values from 0 to 131071.
#[derive(Clone, Copy, Debug)]
pub struct U17;

impl PackedInt for U17 {
    const NUM_BITS: usize = 17;

    const MAX: u32 = 0x1_ffff;

    open spec fn width() -> nat {
        17
    }

    open spec fn largest() -> u32 {
        0x1_ffff
    }

    proof fn width_is_valid() {
        reveal_with_fuel(max_value, 18);
    }
}

/// Elements of 18 bits: values from 0 to 262143.
#[derive(Clone, Copy, Debug)]
pub struct U18;

impl PackedInt for U18 {
    const NUM_BITS: usize = 18;

    const MAX: u32 = 0x3_ffff;

    open spec fn width() -> nat {
        18
    }

    open spec fn largest() -> u32 {
        0x3_ffff
    }

    proof fn width_is_valid() {
        reveal_with_fuel(max_value, 19);
    }
}

/// Elements of 19 bits: values from 0 to 524287.
#[derive(Clone, Copy, Debug)]
pub struct U19;

impl PackedInt for U19 {
    const NUM_BITS: usize = 19;

    const MAX: u32 = 0x7_ffff;

    open spec fn width() -> nat {
        19
    }

    open spec fn largest() -> u32 {
        0x7_ffff
    }

    proof fn width_is_valid() {
        reveal_with_fuel(max_value, 20);
    }
}

/// Elements of 20 bits: values from 0 to 1048575.
#[derive(Clone, Copy, Debug)]
pub struct U20;

impl PackedInt for U20 {
    const NUM_BITS: usize = 20;

    const MAX: u32 = 0xf_ffff;

    open spec fn width() -> nat {
        20
    }

    open spec fn largest() -> u32 {
        0xf_ffff
    }

    proof fn width_is_valid() {
        reveal_with_fuel(max_value, 21);
    }
}

/// Elements of 21 bits: values from 0 to 2097151.
#[derive(Clone, Copy, Debug)]
pub struct U21;

impl PackedInt for U21 {
    const NUM_BITS: usize = 21;

    const MAX: u32 = 0x1f_ffff;

    open spec fn width() -> nat {
        21
    }

    open spec fn largest() -> u32 {
        0x1f_ffff
    }

    proof fn width_is_valid() {
        reveal_with_fuel(max_value, 22);
    }
}

/// Elements of 22 bits: values from 0 to 4194303.
#[derive(Clone, Copy, Debug)]
pub struct U22;

impl PackedInt for U22 {
    const NUM_BITS: usize = 22;

    const MAX: u32 = 0x3f_ffff;

    open spec fn width() -> nat {
        22
    }

    open spec fn largest() -> u32 {
        0x3f_ffff
    }

    proof fn width_is_valid() {
        reveal_with_fuel(max_value, 23);
    }
}

/// Elements of 23 bits: values from 0 to 8388607.
#[derive(Clone, Copy, Debug)]
pub struct U23;

impl PackedInt for U23 {
    const NUM_BITS: usize = 23;

    const MAX: u32 = 0x7f_ffff;

    open spec fn width() -> nat {
        23
    }

    open spec fn largest() -> u32 {
        0x7f_ffff
    }

    proof fn width_is_valid() {
        reveal_with_fuel(max_value, 24);
    }
}

/// Elements of 24 bits: values from 0 to 16777215.
#[derive(Clone, Copy, Debug)]
pub struct U24;

impl PackedInt for U24 {
    const NUM_BITS: usize = 24;

    const MAX: u32 = 0xff_ffff;

    open spec fn width() -> nat {
        24
    }

    open spec fn largest() -> u32 {
        0xff_ffff
    }

    proof fn width_is_valid() {
        reveal_with_fuel(max_value, 25);
    }
}

/// Elements of 25 bits: values from 0 to 33554431.
#[derive(Clone, Copy, Debug)]
pub struct U25;

impl PackedInt for U25 {
    const NUM_BITS: usize = 25;

    const MAX: u32 = 0x1ff_ffff;

    open spec fn width() -> nat {
        25
    }

    open spec fn largest() -> u32 {
        0x1ff_ffff
    }

    proof fn width_is_valid() {
        reveal_with_fuel(max_value, 26);
    }
}

/// Elements of 26 bits: values from 0 to 67108863.
#[derive(Clone, Copy, Debug)]
pub struct U26;

impl PackedInt for U26 {
    const NUM_BITS: usize = 26;

    const MAX: u32 = 0x3ff_ffff;

    open spec fn width() -> nat {
        26
    }

    open spec fn largest() -> u32 {
        0x3ff_ffff
    }

    proof fn width_is_valid() {
        reveal_with_fuel(max_value, 27);
    }
}

/// Elements of 27 bits: values from 0 to 134217727.
#[derive(Clone, Copy, Debug)]
pub struct U27;

impl PackedInt for U27 {
    const NUM_BITS: usize = 27;

    const MAX: u32 = 0x7ff_ffff;

    open spec fn width() -> nat {
        27
    }

    open spec fn largest() -> u32 {
        0x7ff_ffff
    }

    proof fn width_is_valid() {
        reveal_with_fuel(max_value, 28);
    }
}

/// Elements of 28 bits: values from 0 to 268435455.
#[derive(Clone, Copy, Debug)]
pub struct U28;

impl PackedInt for U28 {
    const NUM_BITS: usize = 28;

    const MAX: u32 = 0xfff_ffff;

    open spec fn width() -> nat {
        28
    }

    open spec fn largest() -> u32 {
        0xfff_ffff
    }

    proof fn width_is_valid() {
        reveal_with_fuel(max_value, 29);
    }
}

/// Elements of 29 bits: values from 0 to 536870911.
#[derive(Clone, Copy, Debug)]
pub struct U29;

impl PackedInt for U29 {
    const NUM_BITS: usize = 29;

    const MAX: u32 = 0x1fff_ffff;

    open spec fn width() -> nat {
        29
    }

    open spec fn largest() -> u32 {
        0x1fff_ffff
    }

    proof fn width_is_valid() {
        reveal_with_fuel(max_value, 30);
    }
}

/// Elements of 30 bits: values from 0 to 1073741823.
#[derive(Clone, Copy, Debug)]
pub struct U30;

impl PackedInt for U30 {
    const NUM_BITS: usize = 30;

    const MAX: u32 = 0x3fff_ffff;

    open spec fn width() -> nat {
        30
    }

    open spec fn largest() -> u32 {
        0x3fff_ffff
    }

    proof fn width_is_valid() {
        reveal_with_fuel(max_value, 31);
    }
}

/// Elements of 31 bits: values from 0 to 2147483647.
#[derive(Clone, Copy, Debug)]
pub struct U31;

impl PackedInt for U31 {
    const NUM_BITS: usize = 31;

    const MAX: u32 = 0x7fff_ffff;

    open spec fn width() -> nat {
        31
    }

    open spec fn largest() -> u32 {
        0x7fff_ffff
    }

    proof fn width_is_valid() {
        reveal_with_fuel(max_value, 32);
    }
}

} // verus!
