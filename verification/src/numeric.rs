//! IEEE-754 binary64 arithmetic on bit patterns.
//!
//! The whole library carries numbers as the `u64` bit pattern of an
//! IEEE-754 binary64 value.  The arithmetic itself is done by outside
//! crates: `rustc_apfloat` for the correctly rounded basic operations
//! and for decimal-literal conversion, `libm` for the power, sine and
//! minimum functions.  Each operation's result is given a name
//! (an uninterpreted spec function of the operand bits alone), and the
//! wrappers below are trusted to return that named value.

use rustc_apfloat::Float;
use vstd::prelude::*;

verus! {

/// The bit pattern of the largest finite binary64 value; the minimum
/// fold over a function's arguments starts from it.
pub const MAX_FINITE_BITS: u64 = 0x7FEF_FFFF_FFFF_FFFF;

/// The bit pattern of the quiet NaN that `Default` values carry.
pub const NAN_BITS: u64 = 0x7FF8_0000_0000_0000;

/// The bits of the sum of two binary64 values, rounded to nearest-even.
pub uninterp spec fn add_bits(a: u64, b: u64) -> u64;

/// The bits of the difference of two binary64 values.
pub uninterp spec fn sub_bits(a: u64, b: u64) -> u64;

/// The bits of the product of two binary64 values.
pub uninterp spec fn mul_bits(a: u64, b: u64) -> u64;

/// The bits of the quotient of two binary64 values; a zero divisor
/// yields an infinity or NaN per IEEE-754, never an error.
pub uninterp spec fn div_bits(a: u64, b: u64) -> u64;

/// The bits of `a` raised to the power `b`, as `libm::pow` computes it.
pub uninterp spec fn pow_bits(a: u64, b: u64) -> u64;

/// The bits of the sine of `a`, as `libm::sin` computes it.
pub uninterp spec fn sin_bits(a: u64) -> u64;

/// The bits of the smaller of two binary64 values, as `libm::fmin`
/// computes it: a NaN operand yields the other operand.
pub uninterp spec fn min_bits(a: u64, b: u64) -> u64;

/// The bits of the binary64 value nearest to the decimal number the
/// characters spell, as `rustc_apfloat`'s string conversion computes it.
pub uninterp spec fn bits_of_decimal(s: Seq<char>) -> u64;

/// Whether a character is alphabetic, as std's `char::is_alphabetic`
/// classifies it.
pub uninterp spec fn is_alphabetic_char(c: char) -> bool;

/// The bits of the arccosine of `a`, as `libm::acos` computes it.
pub uninterp spec fn acos_bits(a: u64) -> u64;

/// The bits of the inverse hyperbolic cosine of `a`, as `libm::acosh` computes it.
pub uninterp spec fn acosh_bits(a: u64) -> u64;

/// The bits of the arcsine of `a`, as `libm::asin` computes it.
pub uninterp spec fn asin_bits(a: u64) -> u64;

/// The bits of the inverse hyperbolic sine of `a`, as `libm::asinh` computes it.
pub uninterp spec fn asinh_bits(a: u64) -> u64;

/// The bits of the arctangent of `a`, as `libm::atan` computes it.
pub uninterp spec fn atan_bits(a: u64) -> u64;

/// The bits of the inverse hyperbolic tangent of `a`, as `libm::atanh` computes it.
pub uninterp spec fn atanh_bits(a: u64) -> u64;

/// The bits of the cube root of `a`, as `libm::cbrt` computes it.
pub uninterp spec fn cbrt_bits(a: u64) -> u64;

/// The bits of the ceiling of `a`, as `libm::ceil` computes it.
pub uninterp spec fn ceil_bits(a: u64) -> u64;

/// The bits of the cosine of `a`, as `libm::cos` computes it.
pub uninterp spec fn cos_bits(a: u64) -> u64;

/// The bits of the hyperbolic cosine of `a`, as `libm::cosh` computes it.
pub uninterp spec fn cosh_bits(a: u64) -> u64;

/// The bits of the exponential of `a`, as `libm::exp` computes it.
pub uninterp spec fn exp_bits(a: u64) -> u64;

/// The bits of the floor of `a`, as `libm::floor` computes it.
pub uninterp spec fn floor_bits(a: u64) -> u64;

/// The bits of the hyperbolic sine of `a`, as `libm::sinh` computes it.
pub uninterp spec fn sinh_bits(a: u64) -> u64;

/// The bits of the square root of `a`, as `libm::sqrt` computes it.
pub uninterp spec fn sqrt_bits(a: u64) -> u64;

/// The bits of the tangent of `a`, as `libm::tan` computes it.
pub uninterp spec fn tan_bits(a: u64) -> u64;

/// The bits of the hyperbolic tangent of `a`, as `libm::tanh` computes it.
pub uninterp spec fn tanh_bits(a: u64) -> u64;

/// The bits of the natural logarithm of `a`, as `libm::log` computes it.
pub uninterp spec fn log_bits(a: u64) -> u64;

/// The bits of the error function of `a`, as `libm::erf` computes it.
pub uninterp spec fn erf_bits(a: u64) -> u64;

/// Relies on rustc_apfloat's `Double` addition: correctly rounded
/// IEEE-754 binary64 addition of the two operand bit patterns.
#[verifier::external_body]
pub(crate) fn compute_add(a: u64, b: u64) -> (r: u64)
    ensures
        r == add_bits(a, b),
{
    let x = rustc_apfloat::ieee::Double::from_bits(a as u128);
    let y = rustc_apfloat::ieee::Double::from_bits(b as u128);
    (x + y).value.to_bits() as u64
}

/// Relies on rustc_apfloat's `Double` subtraction.
#[verifier::external_body]
pub(crate) fn compute_sub(a: u64, b: u64) -> (r: u64)
    ensures
        r == sub_bits(a, b),
{
    let x = rustc_apfloat::ieee::Double::from_bits(a as u128);
    let y = rustc_apfloat::ieee::Double::from_bits(b as u128);
    (x - y).value.to_bits() as u64
}

/// Relies on rustc_apfloat's `Double` multiplication.
#[verifier::external_body]
pub(crate) fn compute_mul(a: u64, b: u64) -> (r: u64)
    ensures
        r == mul_bits(a, b),
{
    let x = rustc_apfloat::ieee::Double::from_bits(a as u128);
    let y = rustc_apfloat::ieee::Double::from_bits(b as u128);
    (x * y).value.to_bits() as u64
}

/// Relies on rustc_apfloat's `Double` division; division by zero gives
/// an infinity or NaN, it never panics.
#[verifier::external_body]
pub(crate) fn compute_div(a: u64, b: u64) -> (r: u64)
    ensures
        r == div_bits(a, b),
{
    let x = rustc_apfloat::ieee::Double::from_bits(a as u128);
    let y = rustc_apfloat::ieee::Double::from_bits(b as u128);
    (x / y).value.to_bits() as u64
}

/// Relies on `libm::pow`, and on `bytemuck::cast` for the value/bit
/// casts in both directions.
#[verifier::external_body]
pub(crate) fn compute_pow(a: u64, b: u64) -> (r: u64)
    ensures
        r == pow_bits(a, b),
{
    bytemuck::cast(libm::pow(bytemuck::cast(a), bytemuck::cast(b)))
}

/// Relies on `libm::sin`, and on `bytemuck::cast` for the value/bit
/// casts in both directions.
#[verifier::external_body]
pub(crate) fn compute_sin(a: u64) -> (r: u64)
    ensures
        r == sin_bits(a),
{
    bytemuck::cast(libm::sin(bytemuck::cast(a)))
}

/// Relies on `libm::fmin`, and on `bytemuck::cast` for the value/bit
/// casts in both directions.
#[verifier::external_body]
pub(crate) fn compute_min(a: u64, b: u64) -> (r: u64)
    ensures
        r == min_bits(a, b),
{
    bytemuck::cast(libm::fmin(bytemuck::cast(a), bytemuck::cast(b)))
}


/// Relies on `libm::acos`, and on `bytemuck::cast` for the value/bit
/// casts in both directions.
#[verifier::external_body]
pub(crate) fn compute_acos(a: u64) -> (r: u64)
    ensures
        r == acos_bits(a),
{
    bytemuck::cast(libm::acos(bytemuck::cast(a)))
}

/// Relies on `libm::acosh`, and on `bytemuck::cast` for the value/bit
/// casts in both directions.
#[verifier::external_body]
pub(crate) fn compute_acosh(a: u64) -> (r: u64)
    ensures
        r == acosh_bits(a),
{
    bytemuck::cast(libm::acosh(bytemuck::cast(a)))
}

/// Relies on `libm::asin`, and on `bytemuck::cast` for the value/bit
/// casts in both directions.
#[verifier::external_body]
pub(crate) fn compute_asin(a: u64) -> (r: u64)
    ensures
        r == asin_bits(a),
{
    bytemuck::cast(libm::asin(bytemuck::cast(a)))
}

/// Relies on `libm::asinh`, and on `bytemuck::cast` for the value/bit
/// casts in both directions.
#[verifier::external_body]
pub(crate) fn compute_asinh(a: u64) -> (r: u64)
    ensures
        r == asinh_bits(a),
{
    bytemuck::cast(libm::asinh(bytemuck::cast(a)))
}

/// Relies on `libm::atan`, and on `bytemuck::cast` for the value/bit
/// casts in both directions.
#[verifier::external_body]
pub(crate) fn compute_atan(a: u64) -> (r: u64)
    ensures
        r == atan_bits(a),
{
    bytemuck::cast(libm::atan(bytemuck::cast(a)))
}

/// Relies on `libm::atanh`, and on `bytemuck::cast` for the value/bit
/// casts in both directions.
#[verifier::external_body]
pub(crate) fn compute_atanh(a: u64) -> (r: u64)
    ensures
        r == atanh_bits(a),
{
    bytemuck::cast(libm::atanh(bytemuck::cast(a)))
}

/// Relies on `libm::cbrt`, and on `bytemuck::cast` for the value/bit
/// casts in both directions.
#[verifier::external_body]
pub(crate) fn compute_cbrt(a: u64) -> (r: u64)
    ensures
        r == cbrt_bits(a),
{
    bytemuck::cast(libm::cbrt(bytemuck::cast(a)))
}

/// Relies on `libm::ceil`, and on `bytemuck::cast` for the value/bit
/// casts in both directions.
#[verifier::external_body]
pub(crate) fn compute_ceil(a: u64) -> (r: u64)
    ensures
        r == ceil_bits(a),
{
    bytemuck::cast(libm::ceil(bytemuck::cast(a)))
}

/// Relies on `libm::cos`, and on `bytemuck::cast` for the value/bit
/// casts in both directions.
#[verifier::external_body]
pub(crate) fn compute_cos(a: u64) -> (r: u64)
    ensures
        r == cos_bits(a),
{
    bytemuck::cast(libm::cos(bytemuck::cast(a)))
}

/// Relies on `libm::cosh`, and on `bytemuck::cast` for the value/bit
/// casts in both directions.
#[verifier::external_body]
pub(crate) fn compute_cosh(a: u64) -> (r: u64)
    ensures
        r == cosh_bits(a),
{
    bytemuck::cast(libm::cosh(bytemuck::cast(a)))
}

/// Relies on `libm::exp`, and on `bytemuck::cast` for the value/bit
/// casts in both directions.
#[verifier::external_body]
pub(crate) fn compute_exp(a: u64) -> (r: u64)
    ensures
        r == exp_bits(a),
{
    bytemuck::cast(libm::exp(bytemuck::cast(a)))
}

/// Relies on `libm::floor`, and on `bytemuck::cast` for the value/bit
/// casts in both directions.
#[verifier::external_body]
pub(crate) fn compute_floor(a: u64) -> (r: u64)
    ensures
        r == floor_bits(a),
{
    bytemuck::cast(libm::floor(bytemuck::cast(a)))
}

/// Relies on `libm::sinh`, and on `bytemuck::cast` for the value/bit
/// casts in both directions.
#[verifier::external_body]
pub(crate) fn compute_sinh(a: u64) -> (r: u64)
    ensures
        r == sinh_bits(a),
{
    bytemuck::cast(libm::sinh(bytemuck::cast(a)))
}

/// Relies on `libm::sqrt`, and on `bytemuck::cast` for the value/bit
/// casts in both directions.
#[verifier::external_body]
pub(crate) fn compute_sqrt(a: u64) -> (r: u64)
    ensures
        r == sqrt_bits(a),
{
    bytemuck::cast(libm::sqrt(bytemuck::cast(a)))
}

/// Relies on `libm::tan`, and on `bytemuck::cast` for the value/bit
/// casts in both directions.
#[verifier::external_body]
pub(crate) fn compute_tan(a: u64) -> (r: u64)
    ensures
        r == tan_bits(a),
{
    bytemuck::cast(libm::tan(bytemuck::cast(a)))
}

/// Relies on `libm::tanh`, and on `bytemuck::cast` for the value/bit
/// casts in both directions.
#[verifier::external_body]
pub(crate) fn compute_tanh(a: u64) -> (r: u64)
    ensures
        r == tanh_bits(a),
{
    bytemuck::cast(libm::tanh(bytemuck::cast(a)))
}

/// Relies on `libm::log`, and on `bytemuck::cast` for the value/bit
/// casts in both directions.
#[verifier::external_body]
pub(crate) fn compute_log(a: u64) -> (r: u64)
    ensures
        r == log_bits(a),
{
    bytemuck::cast(libm::log(bytemuck::cast(a)))
}

/// Relies on `libm::erf`, and on `bytemuck::cast` for the value/bit
/// casts in both directions.
#[verifier::external_body]
pub(crate) fn compute_erf(a: u64) -> (r: u64)
    ensures
        r == erf_bits(a),
{
    bytemuck::cast(libm::erf(bytemuck::cast(a)))
}

/// Relies on std's `char::is_alphabetic`: the Unicode letter
/// classification of a character.
#[verifier::external_body]
pub(crate) fn compute_alphabetic(c: char) -> (r: bool)
    ensures
        r == is_alphabetic_char(c),
{
    c.is_alphabetic()
}

/// Relies on rustc_apfloat's `Double` string conversion, rounding to
/// nearest-even.  The lexer only hands over strings of an optional
/// leading minus sign, digits and at most one dot, which that
/// conversion always accepts; other strings name a fixed zero result.
#[verifier::external_body]
pub(crate) fn compute_decimal(s: &str) -> (r: u64)
    ensures
        r == bits_of_decimal(s@),
{
    match <rustc_apfloat::ieee::Double as core::str::FromStr>::from_str(s) {
        Ok(v) => v.to_bits() as u64,
        Err(_) => 0,
    }
}

} // verus!
