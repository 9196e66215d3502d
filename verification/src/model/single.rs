//! Readings that CS2 reports as single-precision floating-point numbers.
//!
//! The library carries such a reading as its 32-bit IEEE 754 bit pattern
//! and compares two readings the way IEEE 754 compares the numbers: a
//! not-a-number reading equals nothing, and positive and negative zero are
//! equal.

use vstd::prelude::*;

verus! {

/// The bit pattern encodes a not-a-number value.
pub open spec fn is_nan_bits(a: u32) -> bool {
    (a & 0x7f80_0000) == 0x7f80_0000 && (a & 0x007f_ffff) != 0
}

/// IEEE 754 equality of the two numbers encoded by `a` and `b`.
pub open spec fn single_eq(a: u32, b: u32) -> bool {
    &&& !is_nan_bits(a)
    &&& !is_nan_bits(b)
    &&& (a == b || ((a | b) & 0x7fff_ffff) == 0)
}

/// IEEE 754 equality lifted to optional readings.
pub open spec fn opt_single_eq(a: Option<u32>, b: Option<u32>) -> bool {
    match (a, b) {
        (Some(x), Some(y)) => single_eq(x, y),
        (None, None) => true,
        _ => false,
    }
}

/// An optional reading that is not a not-a-number value.
pub open spec fn opt_no_nan(a: Option<u32>) -> bool {
    match a {
        Some(x) => !is_nan_bits(x),
        None => true,
    }
}

/// Compares two readings as IEEE 754 numbers.
pub fn same_single(a: u32, b: u32) -> (r: bool)
    ensures
        r == single_eq(a, b),
{
    let a_nan = (a & 0x7f80_0000) == 0x7f80_0000 && (a & 0x007f_ffff) != 0;
    let b_nan = (b & 0x7f80_0000) == 0x7f80_0000 && (b & 0x007f_ffff) != 0;
    !a_nan && !b_nan && (a == b || ((a | b) & 0x7fff_ffff) == 0)
}

/// Compares two optional readings as IEEE 754 numbers.
pub fn same_opt_single(a: Option<u32>, b: Option<u32>) -> (r: bool)
    ensures
        r == opt_single_eq(a, b),
{
    match (a, b) {
        (Some(x), Some(y)) => same_single(x, y),
        (None, None) => true,
        _ => false,
    }
}

} // verus!
