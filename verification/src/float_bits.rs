//! Comparisons of `f32` values that are carried as their IEEE-754 bit patterns.
//!
//! The library never computes with floating-point numbers; where a rule of the
//! game only compares two of them, the values travel through the library as
//! `u32` bit patterns (`f32::to_bits`), and the comparison is made here on the
//! bits, exactly as IEEE-754 orders binary32 values.
use vstd::prelude::*;

verus! {

/// Three `f32` coordinates, each by its bit pattern.
#[derive(Clone, Copy, Debug, PartialEq, Eq, Structural)]
pub struct Vec3Bits {
    pub x: u32,
    pub y: u32,
    pub z: u32,
}

/// Bit pattern of the `f32` value 0.0.
pub const F32_ZERO: u32 = 0x0000_0000;

/// Bit pattern of the `f32` value 0.5.
pub const F32_HALF: u32 = 0x3F00_0000;

/// Bit pattern of the `f32` value 1.0.
pub const F32_ONE: u32 = 0x3F80_0000;

/// Bit pattern of the `f32` value 5.0.
pub const F32_FIVE: u32 = 0x40A0_0000;

/// Bit pattern of the `f32` value 10.0.
pub const F32_TEN: u32 = 0x4120_0000;

/// Bit pattern of the `f32` value 50.0.
pub const F32_FIFTY: u32 = 0x4248_0000;

/// Bit pattern of the `f32` value 100.0.
pub const F32_HUNDRED: u32 = 0x42C8_0000;

/// The sign bit of a binary32 pattern.
pub open spec fn sign_bit() -> int {
    0x8000_0000
}

/// The magnitude part (exponent and mantissa) of a binary32 pattern.
pub open spec fn magnitude(bits: u32) -> int {
    (bits % 0x8000_0000) as int
}

/// A binary32 pattern is NaN when its exponent is all ones and its mantissa is not zero.
pub open spec fn is_nan(bits: u32) -> bool {
    magnitude(bits) > 0x7f80_0000
}

/// The position of a non-NaN binary32 value on the real line, up to a monotone
/// rescaling: positive values by their magnitude, negative values by its
/// negation, both zeros at 0, infinities at the two ends.
pub open spec fn order_key(bits: u32) -> int {
    if bits >= sign_bit() {
        -magnitude(bits)
    } else {
        magnitude(bits)
    }
}

/// `a < b` on the `f32` values that the patterns encode.
pub open spec fn spec_lt(a: u32, b: u32) -> bool {
    !is_nan(a) && !is_nan(b) && order_key(a) < order_key(b)
}

/// `a <= b` on the `f32` values that the patterns encode.
pub open spec fn spec_le(a: u32, b: u32) -> bool {
    !is_nan(a) && !is_nan(b) && order_key(a) <= order_key(b)
}

fn key_of(bits: u32) -> (k: i64)
    ensures
        k == order_key(bits),
{
    if bits >= 0x8000_0000 {
        -((bits - 0x8000_0000) as i64)
    } else {
        bits as i64
    }
}

fn nan_bits(bits: u32) -> (r: bool)
    ensures
        r == is_nan(bits),
{
    if bits >= 0x8000_0000 {
        bits - 0x8000_0000 > 0x7f80_0000
    } else {
        bits > 0x7f80_0000
    }
}

/// `a < b` for the `f32` values with bit patterns `a` and `b` (false when either is NaN).
pub fn f32_lt(a: u32, b: u32) -> (r: bool)
    ensures
        r == spec_lt(a, b),
{
    !nan_bits(a) && !nan_bits(b) && key_of(a) < key_of(b)
}

/// `a <= b` for the `f32` values with bit patterns `a` and `b` (false when either is NaN).
pub fn f32_le(a: u32, b: u32) -> (r: bool)
    ensures
        r == spec_le(a, b),
{
    !nan_bits(a) && !nan_bits(b) && key_of(a) <= key_of(b)
}

/// `a > b` for the `f32` values with bit patterns `a` and `b` (false when either is NaN).
pub fn f32_gt(a: u32, b: u32) -> (r: bool)
    ensures
        r == spec_lt(b, a),
{
    f32_lt(b, a)
}

/// `a >= b` for the `f32` values with bit patterns `a` and `b` (false when either is NaN).
pub fn f32_ge(a: u32, b: u32) -> (r: bool)
    ensures
        r == spec_le(b, a),
{
    f32_le(b, a)
}

} // verus!
