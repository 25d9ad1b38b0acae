//! Bit-level view of IEEE-754 binary32 scalars.
//!
//! The simulation stores every 32-bit float as its raw bit pattern in a
//! `u32`. Classification (NaN, sign) and the order on non-negative values
//! are plain integer logic on those patterns and are verified here.
//! Rounding arithmetic is not: it is named by uninterpreted functions and
//! performed by a software IEEE-754 implementation behind trusted wrappers.

use rustc_apfloat::Float;
use rustc_apfloat::Round;
use rustc_apfloat::ieee::Single;
use vstd::prelude::*;

verus! {

/// Bit pattern of `0.0`.
pub const F32_ZERO: u32 = 0x0000_0000;
/// Bit pattern of `1.0`.
pub const F32_ONE: u32 = 0x3F80_0000;
/// Bit pattern of `1.5`, the fixed stiffness multiplier of the stencil.
pub const F32_THREE_HALVES: u32 = 0x3FC0_0000;
/// Bit pattern of `4.0`, the fixed divisor of the neighbour sum.
pub const F32_FOUR: u32 = 0x4080_0000;
/// Bit pattern of `2.0`.
pub const F32_TWO: u32 = 0x4000_0000;
/// Bit pattern of `0.5`.
pub const F32_HALF: u32 = 0x3F00_0000;
/// Bit pattern of the square root of three, rounded to binary32.
pub const F32_SQRT_THREE: u32 = 0x3FDD_B3D7;
/// Bit pattern of `0.98`, the default damping factor.
pub const F32_DEFAULT_DAMPING: u32 = 0x3F7A_E148;

/// The pattern is one of the NaNs: exponent all ones, mantissa non-zero.
pub open spec fn is_nan_bits(b: u32) -> bool {
    b & 0x7F80_0000 == 0x7F80_0000 && b & 0x007F_FFFF != 0
}

/// The sign bit is set (negative numbers, negative zero, negative NaNs).
pub open spec fn sign_bits(b: u32) -> bool {
    b & 0x8000_0000 != 0
}

/// The binary32 comparison `b >= 0.0`: true for every non-NaN pattern
/// whose sign bit is clear, and for negative zero.
pub open spec fn is_nonneg_bits(b: u32) -> bool {
    !is_nan_bits(b) && (!sign_bits(b) || b == 0x8000_0000u32)
}

/// The clamp `max(b, 0.0)` used on neighbour reads: NaN and every pattern
/// with the sign bit set (negative zero included) collapse to `+0.0`;
/// other patterns pass through unchanged.
pub open spec fn nonneg_part_bits(b: u32) -> u32 {
    if is_nan_bits(b) || sign_bits(b) {
        F32_ZERO
    } else {
        b
    }
}

/// The clamp of a coordinate into `[0.0, 1.0]`: NaN and every pattern with
/// the sign bit set clamp to `+0.0`; patterns above `1.0` clamp to `1.0`.
/// On sign-clear non-NaN patterns the binary32 order is the `u32` order,
/// so the upper clamp is an integer comparison.
pub open spec fn clamp01_bits(b: u32) -> u32 {
    if is_nan_bits(b) || sign_bits(b) {
        F32_ZERO
    } else if b > F32_ONE {
        F32_ONE
    } else {
        b
    }
}

/// Decide `b >= 0.0` on the bit pattern.
pub fn is_nonneg(b: u32) -> (r: bool)
    ensures
        r == is_nonneg_bits(b),
{
    let nan = (b & 0x7F80_0000) == 0x7F80_0000 && (b & 0x007F_FFFF) != 0;
    !nan && ((b & 0x8000_0000) == 0 || b == 0x8000_0000)
}

/// Compute `max(b, 0.0)` on the bit pattern.
pub fn nonneg_part(b: u32) -> (r: u32)
    ensures
        r == nonneg_part_bits(b),
{
    let nan = (b & 0x7F80_0000) == 0x7F80_0000 && (b & 0x007F_FFFF) != 0;
    if nan || (b & 0x8000_0000) != 0 {
        F32_ZERO
    } else {
        b
    }
}

/// Clamp a coordinate pattern into `[0.0, 1.0]`.
pub fn clamp01(b: u32) -> (r: u32)
    ensures
        r == clamp01_bits(b),
{
    let nan = (b & 0x7F80_0000) == 0x7F80_0000 && (b & 0x007F_FFFF) != 0;
    if nan || (b & 0x8000_0000) != 0 {
        F32_ZERO
    } else if b > F32_ONE {
        F32_ONE
    } else {
        b
    }
}

/// The bit pattern of the binary32 sum of the two patterns,
/// rounded to nearest, ties to even.
pub uninterp spec fn add_bits(a: u32, b: u32) -> u32;

/// The bit pattern of the binary32 difference of the two patterns,
/// rounded to nearest, ties to even.
pub uninterp spec fn sub_bits(a: u32, b: u32) -> u32;

/// The bit pattern of the binary32 product of the two patterns,
/// rounded to nearest, ties to even.
pub uninterp spec fn mul_bits(a: u32, b: u32) -> u32;

/// The bit pattern of the binary32 quotient of the two patterns,
/// rounded to nearest, ties to even.
pub uninterp spec fn div_bits(a: u32, b: u32) -> u32;

/// The bit pattern of the binary32 value nearest to the integer `n`,
/// ties to even.
pub uninterp spec fn int_to_bits(n: int) -> u32;

/// The pattern's value truncated toward zero to an unsigned integer of
/// `width` bits: NaN and negative values give 0, values at or above
/// `2^width` give `2^width - 1`.
pub uninterp spec fn trunc_bits(b: u32, width: u32) -> u64;

/// Relies on rustc_apfloat's `Single::add_r`: IEEE binary32 addition of
/// the two bit patterns, rounded to nearest with ties to even.
#[verifier::external_body]
pub(crate) fn f32_add(a: u32, b: u32) -> (r: u32)
    ensures
        r == add_bits(a, b),
{
    let x = Single::from_bits(a as u128);
    let y = Single::from_bits(b as u128);
    x.add_r(y, Round::NearestTiesToEven).value.to_bits() as u32
}

/// Relies on rustc_apfloat's `Single::sub_r`: IEEE binary32 subtraction of
/// the two bit patterns, rounded to nearest with ties to even.
#[verifier::external_body]
pub(crate) fn f32_sub(a: u32, b: u32) -> (r: u32)
    ensures
        r == sub_bits(a, b),
{
    let x = Single::from_bits(a as u128);
    let y = Single::from_bits(b as u128);
    x.sub_r(y, Round::NearestTiesToEven).value.to_bits() as u32
}

/// Relies on rustc_apfloat's `Single::mul_r`: IEEE binary32 multiplication
/// of the two bit patterns, rounded to nearest with ties to even.
#[verifier::external_body]
pub(crate) fn f32_mul(a: u32, b: u32) -> (r: u32)
    ensures
        r == mul_bits(a, b),
{
    let x = Single::from_bits(a as u128);
    let y = Single::from_bits(b as u128);
    x.mul_r(y, Round::NearestTiesToEven).value.to_bits() as u32
}

/// Relies on rustc_apfloat's `Single::div_r`: IEEE binary32 division of
/// the two bit patterns, rounded to nearest with ties to even.
#[verifier::external_body]
pub(crate) fn f32_div(a: u32, b: u32) -> (r: u32)
    ensures
        r == div_bits(a, b),
{
    let x = Single::from_bits(a as u128);
    let y = Single::from_bits(b as u128);
    x.div_r(y, Round::NearestTiesToEven).value.to_bits() as u32
}

/// Relies on rustc_apfloat's `Single::from_i128`: conversion of an integer
/// to the nearest binary32 value, ties to even.
#[verifier::external_body]
pub(crate) fn f32_from_i64(n: i64) -> (r: u32)
    ensures
        r == int_to_bits(n as int),
{
    Single::from_i128(n as i128).value.to_bits() as u32
}

/// Relies on rustc_apfloat's `Single::to_u128_r` with rounding toward
/// zero. Its source documents that the result is deterministic on every
/// input: the fractional part is discarded, NaN and negative values give
/// 0, and values too large for `width` bits saturate to the largest
/// unsigned integer of that width — so the result never reaches
/// `2^width`.
#[verifier::external_body]
pub(crate) fn f32_trunc(b: u32, width: u32) -> (r: u64)
    requires
        1 <= width <= 64,
    ensures
        r == trunc_bits(b, width),
        width < 64 ==> r < (1u64 << width),
{
    let mut exact = false;
    let x = Single::from_bits(b as u128);
    x.to_u128_r(width as usize, Round::TowardZero, &mut exact).value as u64
}

} // verus!
