//! Primitive operations on IEEE 754 double-precision numbers.
//!
//! The whole engine carries every number as the 64-bit pattern of an IEEE
//! double.  Sign manipulation (negation, absolute value) is pure bit
//! arithmetic and is implemented and verified here directly.  Rounding
//! arithmetic and transcendental functions are delegated to outside
//! libraries through trusted wrappers; each wrapper names its result with
//! an uninterpreted spec function, and every contract above this module is
//! stated in terms of those names.

use rustc_apfloat::Float;
use vstd::prelude::*;

verus! {

/// Bit pattern of the double 0.0.
pub const ZERO_BITS: u64 = 0;

/// Bit pattern of the double 1.0.
pub const ONE_BITS: u64 = 0x3FF0_0000_0000_0000;

/// Bit pattern of the double -1.0.
pub const NEG_ONE_BITS: u64 = 0xBFF0_0000_0000_0000;

/// Bit pattern of the relative-error bound 1e-12 used by the tolerance
/// comparator.
pub const EPSILON_BITS: u64 = 0x3D71_9799_812D_EA11;

/// Bit pattern of the smallest positive normal double.
pub const MIN_POSITIVE_BITS: u64 = 0x0010_0000_0000_0000;

/// Mask of every bit but the sign bit.
pub const ABS_MASK: u64 = 0x7FFF_FFFF_FFFF_FFFF;

/// Mask of the sign bit.
pub const SIGN_MASK: u64 = 0x8000_0000_0000_0000;

/// The absolute value of a double clears the sign bit and leaves every
/// other bit unchanged.
pub open spec fn abs_of(a: u64) -> u64 {
    a & ABS_MASK
}

/// The negation of a double flips the sign bit and leaves every other bit
/// unchanged.
pub open spec fn neg_of(a: u64) -> u64 {
    a ^ SIGN_MASK
}

/// The sum of two doubles, rounded to nearest, ties to even.
pub uninterp spec fn add_of(a: u64, b: u64) -> u64;

/// The difference of two doubles, rounded to nearest, ties to even.
pub uninterp spec fn sub_of(a: u64, b: u64) -> u64;

/// The product of two doubles, rounded to nearest, ties to even.
pub uninterp spec fn mul_of(a: u64, b: u64) -> u64;

/// The quotient of two doubles, rounded to nearest, ties to even.
pub uninterp spec fn div_of(a: u64, b: u64) -> u64;

/// The IEEE comparison `a < b` (false whenever either operand is a NaN).
pub uninterp spec fn lt_of(a: u64, b: u64) -> bool;

/// The IEEE comparison `a == b` (false for NaNs, true for the two zeros).
pub uninterp spec fn eq_of(a: u64, b: u64) -> bool;

/// The square root of a double.
pub uninterp spec fn sqrt_of(a: u64) -> u64;

/// The sine of a double.
pub uninterp spec fn sin_of(a: u64) -> u64;

/// The cosine of a double.
pub uninterp spec fn cos_of(a: u64) -> u64;

/// The tangent of a double.
pub uninterp spec fn tan_of(a: u64) -> u64;

/// The natural logarithm of a double.
pub uninterp spec fn ln_of(a: u64) -> u64;

/// The double `a` raised to the double power `b`.
pub uninterp spec fn powf_of(a: u64, b: u64) -> u64;

/// The double `a` rounded toward zero to an integral double.
pub uninterp spec fn trunc_of(a: u64) -> u64;

/// The saturating conversion of a double to an unsigned 64-bit integer:
/// the value truncated toward zero, clamped to the range of `u64`, with 0
/// for a NaN.
pub uninterp spec fn to_u64_of(a: u64) -> u64;

/// The double nearest to the unsigned 64-bit integer `n`.
pub uninterp spec fn of_u64(n: u64) -> u64;

/// Absolute value, computed on the bit pattern.
pub fn fp_abs(a: u64) -> (r: u64)
    ensures
        r == abs_of(a),
{
    a & ABS_MASK
}

/// Negation, computed on the bit pattern.
pub fn fp_neg(a: u64) -> (r: u64)
    ensures
        r == neg_of(a),
{
    a ^ SIGN_MASK
}

/// Relies on rustc_apfloat's IEEE double addition, which rounds to
/// nearest, ties to even.
#[verifier::external_body]
pub(crate) fn fp_add(a: u64, b: u64) -> (r: u64)
    ensures
        r == add_of(a, b),
{
    let x = rustc_apfloat::ieee::Double::from_bits(a as u128);
    let y = rustc_apfloat::ieee::Double::from_bits(b as u128);
    (x + y).value.to_bits() as u64
}

/// Relies on rustc_apfloat's IEEE double subtraction, which rounds to
/// nearest, ties to even.
#[verifier::external_body]
pub(crate) fn fp_sub(a: u64, b: u64) -> (r: u64)
    ensures
        r == sub_of(a, b),
{
    let x = rustc_apfloat::ieee::Double::from_bits(a as u128);
    let y = rustc_apfloat::ieee::Double::from_bits(b as u128);
    (x - y).value.to_bits() as u64
}

/// Relies on rustc_apfloat's IEEE double multiplication, which rounds to
/// nearest, ties to even.
#[verifier::external_body]
pub(crate) fn fp_mul(a: u64, b: u64) -> (r: u64)
    ensures
        r == mul_of(a, b),
{
    let x = rustc_apfloat::ieee::Double::from_bits(a as u128);
    let y = rustc_apfloat::ieee::Double::from_bits(b as u128);
    (x * y).value.to_bits() as u64
}

/// Relies on rustc_apfloat's IEEE double division, which rounds to
/// nearest, ties to even.
#[verifier::external_body]
pub(crate) fn fp_div(a: u64, b: u64) -> (r: u64)
    ensures
        r == div_of(a, b),
{
    let x = rustc_apfloat::ieee::Double::from_bits(a as u128);
    let y = rustc_apfloat::ieee::Double::from_bits(b as u128);
    (x / y).value.to_bits() as u64
}

/// Relies on rustc_apfloat's IEEE double comparison: `<` is false
/// whenever either operand is a NaN.
#[verifier::external_body]
pub(crate) fn fp_lt(a: u64, b: u64) -> (r: bool)
    ensures
        r == lt_of(a, b),
{
    let x = rustc_apfloat::ieee::Double::from_bits(a as u128);
    let y = rustc_apfloat::ieee::Double::from_bits(b as u128);
    x < y
}

/// Relies on rustc_apfloat's IEEE double equality: false for NaNs, true
/// for the two zeros.
#[verifier::external_body]
pub(crate) fn fp_eq(a: u64, b: u64) -> (r: bool)
    ensures
        r == eq_of(a, b),
{
    let x = rustc_apfloat::ieee::Double::from_bits(a as u128);
    let y = rustc_apfloat::ieee::Double::from_bits(b as u128);
    x == y
}

/// Relies on libm::sqrt; bytemuck::cast reinterprets the bit pattern.
#[verifier::external_body]
pub(crate) fn fp_sqrt(a: u64) -> (r: u64)
    ensures
        r == sqrt_of(a),
{
    bytemuck::cast(libm::sqrt(bytemuck::cast(a)))
}

/// Relies on libm::sin; bytemuck::cast reinterprets the bit pattern.
#[verifier::external_body]
pub(crate) fn fp_sin(a: u64) -> (r: u64)
    ensures
        r == sin_of(a),
{
    bytemuck::cast(libm::sin(bytemuck::cast(a)))
}

/// Relies on libm::cos; bytemuck::cast reinterprets the bit pattern.
#[verifier::external_body]
pub(crate) fn fp_cos(a: u64) -> (r: u64)
    ensures
        r == cos_of(a),
{
    bytemuck::cast(libm::cos(bytemuck::cast(a)))
}

/// Relies on libm::tan; bytemuck::cast reinterprets the bit pattern.
#[verifier::external_body]
pub(crate) fn fp_tan(a: u64) -> (r: u64)
    ensures
        r == tan_of(a),
{
    bytemuck::cast(libm::tan(bytemuck::cast(a)))
}

/// Relies on libm::log, the natural logarithm; bytemuck::cast
/// reinterprets the bit pattern.
#[verifier::external_body]
pub(crate) fn fp_ln(a: u64) -> (r: u64)
    ensures
        r == ln_of(a),
{
    bytemuck::cast(libm::log(bytemuck::cast(a)))
}

/// Relies on libm::pow; bytemuck::cast reinterprets the bit patterns.
#[verifier::external_body]
pub(crate) fn fp_powf(a: u64, b: u64) -> (r: u64)
    ensures
        r == powf_of(a, b),
{
    bytemuck::cast(libm::pow(bytemuck::cast(a), bytemuck::cast(b)))
}

/// Relies on libm::trunc, which rounds toward zero to an integral double;
/// bytemuck::cast reinterprets the bit pattern.
#[verifier::external_body]
pub(crate) fn fp_trunc(a: u64) -> (r: u64)
    ensures
        r == trunc_of(a),
{
    bytemuck::cast(libm::trunc(bytemuck::cast(a)))
}

/// Relies on rustc_apfloat's conversion of a double to an unsigned
/// integer, truncating toward zero and saturating exactly as a primitive
/// cast does (0 for a NaN or a negative value, the maximum for a value
/// too large).
#[verifier::external_body]
pub(crate) fn fp_to_u64(a: u64) -> (r: u64)
    ensures
        r == to_u64_of(a),
{
    let x = rustc_apfloat::ieee::Double::from_bits(a as u128);
    x.to_u128(64).value as u64
}

/// Relies on rustc_apfloat's conversion of an unsigned integer to the
/// nearest double, rounding to nearest, ties to even.
#[verifier::external_body]
pub(crate) fn fp_of_u64(n: u64) -> (r: u64)
    ensures
        r == of_u64(n),
{
    rustc_apfloat::ieee::Double::from_u128(n as u128).value.to_bits() as u64
}

} // verus!
