//! IEEE-754 binary64 arithmetic on bit patterns.
//!
//! The expression model carries float literals as their 64-bit IEEE-754 bit
//! pattern, so the evaluator never touches a native float. The operations
//! themselves are done by the software float implementation of
//! `rustc_apfloat`, which implements IEEE-754 arithmetic exactly, including
//! the division-by-zero cases (infinities and NaN) that the language treats
//! as ordinary values rather than errors.
//!
//! Each operation is a pure function of the two argument bit patterns alone,
//! so its result is given a name (`add_bits`, `mul_bits`, `div_bits`) that
//! the evaluator's contracts speak of.

use vstd::prelude::*;

verus! {

/// The bit pattern of the IEEE-754 binary64 sum (round to nearest, ties to
/// even) of the numbers with bit patterns `a` and `b`.
pub uninterp spec fn add_bits(a: u64, b: u64) -> u64;

/// The bit pattern of the IEEE-754 binary64 product (round to nearest, ties
/// to even) of the numbers with bit patterns `a` and `b`.
pub uninterp spec fn mul_bits(a: u64, b: u64) -> u64;

/// The bit pattern of the IEEE-754 binary64 quotient (round to nearest, ties
/// to even) of the numbers with bit patterns `a` and `b`.
pub uninterp spec fn div_bits(a: u64, b: u64) -> u64;

/// Relies on `rustc_apfloat::ieee::Double::add_r`: IEEE-754 binary64
/// addition, rounding to nearest with ties to even, a function of the two
/// bit patterns alone. It never panics and is total, producing infinities
/// and NaNs as IEEE-754 prescribes.
#[verifier::external_body]
pub(crate) fn ieee_add(a: u64, b: u64) -> (r: u64)
    ensures
        r == add_bits(a, b),
{
    let x = <rustc_apfloat::ieee::Double as rustc_apfloat::Float>::from_bits(a as u128);
    let y = <rustc_apfloat::ieee::Double as rustc_apfloat::Float>::from_bits(b as u128);
    let s = rustc_apfloat::Float::add_r(x, y, rustc_apfloat::Round::NearestTiesToEven);
    rustc_apfloat::Float::to_bits(s.value) as u64
}

/// Relies on `rustc_apfloat::ieee::Double::mul_r`: IEEE-754 binary64
/// multiplication, rounding to nearest with ties to even, a function of the
/// two bit patterns alone. It never panics and is total.
#[verifier::external_body]
pub(crate) fn ieee_mul(a: u64, b: u64) -> (r: u64)
    ensures
        r == mul_bits(a, b),
{
    let x = <rustc_apfloat::ieee::Double as rustc_apfloat::Float>::from_bits(a as u128);
    let y = <rustc_apfloat::ieee::Double as rustc_apfloat::Float>::from_bits(b as u128);
    let s = rustc_apfloat::Float::mul_r(x, y, rustc_apfloat::Round::NearestTiesToEven);
    rustc_apfloat::Float::to_bits(s.value) as u64
}

/// Relies on `rustc_apfloat::ieee::Double::div_r`: IEEE-754 binary64
/// division, rounding to nearest with ties to even, a function of the two
/// bit patterns alone. It never panics and is total: division by zero
/// yields an infinity or NaN value, not an error.
#[verifier::external_body]
pub(crate) fn ieee_div(a: u64, b: u64) -> (r: u64)
    ensures
        r == div_bits(a, b),
{
    let x = <rustc_apfloat::ieee::Double as rustc_apfloat::Float>::from_bits(a as u128);
    let y = <rustc_apfloat::ieee::Double as rustc_apfloat::Float>::from_bits(b as u128);
    let s = rustc_apfloat::Float::div_r(x, y, rustc_apfloat::Round::NearestTiesToEven);
    rustc_apfloat::Float::to_bits(s.value) as u64
}

} // verus!
