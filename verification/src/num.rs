//! Script numbers as IEEE-754 double-precision bit patterns.
//!
//! A number is carried as the 64 bits of a double (`u64`). Predicates that
//! IEEE 754 defines directly on the representation (sign, zero, NaN,
//! negation, the total order) are implemented here as verified bit logic.
//! Arithmetic, parsing, rendering and integer conversion are performed by
//! the `rustc_apfloat` soft-float library behind trusted wrappers whose
//! results are named by uninterpreted functions: two calls on the same bits
//! always return the same bits.
use vstd::prelude::*;

use rustc_apfloat::Float;
use rustc_apfloat::Round;
use rustc_apfloat::ieee::Double;

verus! {

/// The sign bit of a double.
pub const SIGN_BIT: u64 = 0x8000_0000_0000_0000;

/// Exponent all ones, significand zero: positive infinity.
pub const INF_BITS: u64 = 0x7ff0_0000_0000_0000;

/// The canonical quiet NaN this runtime produces.
pub const NAN_BITS: u64 = 0x7ff8_0000_0000_0000;

/// The double `1.0`.
pub const ONE_BITS: u64 = 0x3ff0_0000_0000_0000;

/// The double `0.0`.
pub const ZERO_BITS: u64 = 0;

/// The double nearest the mathematical constant pi.
pub const PI_BITS: u64 = 0x4009_21fb_5444_2d18;

/// The bits with the sign cleared (the magnitude).
pub open spec fn abs_bits(b: u64) -> u64 {
    b & 0x7fff_ffff_ffff_ffff
}

/// A NaN of either sign: exponent all ones and a nonzero significand.
pub open spec fn is_nan_bits(b: u64) -> bool {
    abs_bits(b) > INF_BITS
}

/// Zero of either sign.
pub open spec fn is_zero_bits(b: u64) -> bool {
    abs_bits(b) == 0
}

/// Neither an infinity nor a NaN.
pub open spec fn is_finite_bits(b: u64) -> bool {
    abs_bits(b) < INF_BITS
}

/// The sign bit is set (negative zero and negative NaN included).
pub open spec fn is_sign_neg_bits(b: u64) -> bool {
    b >= SIGN_BIT
}

/// IEEE-754 negation: the sign bit flipped.
pub open spec fn neg_bits(b: u64) -> u64 {
    b ^ SIGN_BIT
}

/// The key of the IEEE-754 `totalOrder` predicate: negative values are
/// complemented, positive ones get the high bit set, so that unsigned
/// comparison of keys orders doubles totally
/// (-NaN < -Inf < ... < -0 < +0 < ... < +Inf < +NaN).
pub open spec fn total_key(b: u64) -> u64 {
    if b >= SIGN_BIT {
        !b
    } else {
        b | SIGN_BIT
    }
}

pub fn num_abs_bits(b: u64) -> (r: u64)
    ensures
        r == abs_bits(b),
{
    b & 0x7fff_ffff_ffff_ffff
}

pub fn num_is_nan(b: u64) -> (r: bool)
    ensures
        r == is_nan_bits(b),
{
    num_abs_bits(b) > INF_BITS
}

pub fn num_is_zero(b: u64) -> (r: bool)
    ensures
        r == is_zero_bits(b),
{
    num_abs_bits(b) == 0
}

pub fn num_is_sign_neg(b: u64) -> (r: bool)
    ensures
        r == is_sign_neg_bits(b),
{
    b >= SIGN_BIT
}

pub fn num_is_finite(b: u64) -> (r: bool)
    ensures
        r == is_finite_bits(b),
{
    num_abs_bits(b) < INF_BITS
}

pub fn num_neg(b: u64) -> (r: u64)
    ensures
        r == neg_bits(b),
{
    b ^ SIGN_BIT
}

/// Total-order comparison of two doubles by their bits.
pub fn num_total_cmp(a: u64, b: u64) -> (r: core::cmp::Ordering)
    ensures
        r == core::cmp::Ordering::Less <==> total_key(a) < total_key(b),
        r == core::cmp::Ordering::Equal <==> total_key(a) == total_key(b),
        r == core::cmp::Ordering::Greater <==> total_key(a) > total_key(b),
{
    let ka = if a >= SIGN_BIT {
        !a
    } else {
        a | SIGN_BIT
    };
    let kb = if b >= SIGN_BIT {
        !b
    } else {
        b | SIGN_BIT
    };
    if ka < kb {
        core::cmp::Ordering::Less
    } else if ka == kb {
        core::cmp::Ordering::Equal
    } else {
        core::cmp::Ordering::Greater
    }
}

/// The double that IEEE-754 addition (round to nearest, ties to even)
/// gives for the operand bits.
pub uninterp spec fn add_of(a: u64, b: u64) -> u64;

/// The double of IEEE-754 subtraction of the operand bits.
pub uninterp spec fn sub_of(a: u64, b: u64) -> u64;

/// The double of IEEE-754 multiplication of the operand bits.
pub uninterp spec fn mul_of(a: u64, b: u64) -> u64;

/// The double of IEEE-754 division of the operand bits.
pub uninterp spec fn div_of(a: u64, b: u64) -> u64;

/// The double of the C `fmod` of the operand bits.
pub uninterp spec fn rem_of(a: u64, b: u64) -> u64;

/// The integer a double truncates to (rounding toward zero, saturating).
pub uninterp spec fn trunc_of(b: u64) -> i128;

/// The double nearest an integer (round to nearest, ties to even).
pub uninterp spec fn of_int(i: i128) -> u64;

/// The double a piece of text parses to, if it parses.
pub uninterp spec fn parse_of(s: Seq<char>) -> Option<u64>;

/// The decimal rendering of a double.
pub uninterp spec fn render_of(b: u64) -> Seq<char>;

/// The double rounded to an integral value toward negative infinity.
pub uninterp spec fn floor_of(b: u64) -> u64;

/// The double rounded to an integral value toward positive infinity.
pub uninterp spec fn ceil_of(b: u64) -> u64;

/// The double rounded to the nearest integral value, ties away from zero.
pub uninterp spec fn round_of(b: u64) -> u64;

/// Relies on `rustc_apfloat::ieee::Double`'s `Add`: IEEE addition with the
/// default rounding, a function of the operand bits alone. Its source
/// makes the result NaN whenever an operand is NaN.
#[verifier::external_body]
pub fn num_add(a: u64, b: u64) -> (r: u64)
    ensures
        r == add_of(a, b),
        is_nan_bits(a) || is_nan_bits(b) ==> is_nan_bits(r),
{
    (Double::from_bits(a as u128) + Double::from_bits(b as u128)).value.to_bits() as u64
}

/// Relies on `rustc_apfloat::ieee::Double`'s `Sub`: IEEE subtraction with
/// the default rounding; NaN operands give NaN.
#[verifier::external_body]
pub fn num_sub(a: u64, b: u64) -> (r: u64)
    ensures
        r == sub_of(a, b),
        is_nan_bits(a) || is_nan_bits(b) ==> is_nan_bits(r),
{
    (Double::from_bits(a as u128) - Double::from_bits(b as u128)).value.to_bits() as u64
}

/// Relies on `rustc_apfloat::ieee::Double`'s `Mul`: IEEE multiplication
/// with the default rounding; NaN operands give NaN.
#[verifier::external_body]
pub fn num_mul(a: u64, b: u64) -> (r: u64)
    ensures
        r == mul_of(a, b),
        is_nan_bits(a) || is_nan_bits(b) ==> is_nan_bits(r),
{
    (Double::from_bits(a as u128) * Double::from_bits(b as u128)).value.to_bits() as u64
}

/// Relies on `rustc_apfloat::ieee::Double`'s `Div`: IEEE division with the
/// default rounding; NaN operands give NaN.
#[verifier::external_body]
pub fn num_div(a: u64, b: u64) -> (r: u64)
    ensures
        r == div_of(a, b),
        is_nan_bits(a) || is_nan_bits(b) ==> is_nan_bits(r),
{
    (Double::from_bits(a as u128) / Double::from_bits(b as u128)).value.to_bits() as u64
}

/// Relies on `rustc_apfloat::ieee::Double`'s `Rem` (the C `fmod`); NaN
/// operands give NaN.
#[verifier::external_body]
pub fn num_rem(a: u64, b: u64) -> (r: u64)
    ensures
        r == rem_of(a, b),
        is_nan_bits(a) || is_nan_bits(b) ==> is_nan_bits(r),
{
    (Double::from_bits(a as u128) % Double::from_bits(b as u128)).value.to_bits() as u64
}

/// Relies on `rustc_apfloat::Float::to_i128`: conversion to a 128-bit
/// integer rounding toward zero, saturating at the range ends; its source
/// returns 0 for NaN.
#[verifier::external_body]
pub fn num_trunc(b: u64) -> (r: i128)
    ensures
        r == trunc_of(b),
        is_nan_bits(b) ==> r == 0,
{
    Double::from_bits(b as u128).to_i128(128).value
}

/// Relies on `rustc_apfloat::Float::from_i128`: the double nearest the
/// integer, with the default rounding.
#[verifier::external_body]
pub fn num_of_int(i: i128) -> (r: u64)
    ensures
        r == of_int(i),
{
    Double::from_i128(i).value.to_bits() as u64
}

/// Relies on `rustc_apfloat::ieee::Double`'s `FromStr`: correctly rounded
/// decimal (or hexadecimal) parsing, a function of the text alone.
#[verifier::external_body]
pub fn num_parse(s: &str) -> (r: Option<u64>)
    ensures
        r == parse_of(s@),
{
    match s.parse::<Double>() {
        Ok(d) => Some(d.to_bits() as u64),
        Err(_) => None,
    }
}

/// Relies on `rustc_apfloat::ieee::Double`'s `Display`: its source prints
/// enough digits that a finite value can be parsed back to the same bits
/// (Steele & White), so rendering then parsing a finite double is the
/// identity.
#[verifier::external_body]
pub fn num_render(b: u64) -> (r: String)
    ensures
        r@ == render_of(b),
        is_finite_bits(b) ==> parse_of(r@) == Some(b),
{
    format!("{}", Double::from_bits(b as u128))
}

/// Relies on `rustc_apfloat::Float::round_to_integral` with rounding
/// toward negative infinity.
#[verifier::external_body]
pub fn num_floor(b: u64) -> (r: u64)
    ensures
        r == floor_of(b),
{
    Double::from_bits(b as u128).round_to_integral(Round::TowardNegative).value.to_bits() as u64
}

/// Relies on `rustc_apfloat::Float::round_to_integral` with rounding
/// toward positive infinity.
#[verifier::external_body]
pub fn num_ceil(b: u64) -> (r: u64)
    ensures
        r == ceil_of(b),
{
    Double::from_bits(b as u128).round_to_integral(Round::TowardPositive).value.to_bits() as u64
}

/// Relies on `rustc_apfloat::Float::round_to_integral` with rounding to
/// the nearest integral value, ties away from zero.
#[verifier::external_body]
pub fn num_round(b: u64) -> (r: u64)
    ensures
        r == round_of(b),
{
    Double::from_bits(b as u128).round_to_integral(Round::NearestTiesToAway).value.to_bits() as u64
}

} // verus!
