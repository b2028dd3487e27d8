//! Numbers of the scripted language.
//!
//! A number is an IEEE-754 double, carried everywhere as its 64-bit encoding.
//! The operations that need rounding (addition, subtraction, multiplication,
//! division, parsing, printing) go through `rustc_apfloat`'s software
//! implementation of the format; each result is a pure function of the
//! operand encodings and is named by an uninterpreted spec function.
//! Truthiness, equality, ordering, negation and absolute value are defined
//! and verified here directly on the encodings.
use vstd::prelude::*;

use rustc_apfloat::Float;
use rustc_apfloat::Round;
use rustc_apfloat::ieee::Double;

verus! {

/// Bit pattern of the double `1.0`.
pub const NUM_ONE_BITS: u64 = 0x3FF0_0000_0000_0000;

/// Bit pattern of the double `-1.0`.
pub const NUM_NEG_ONE_BITS: u64 = 0xBFF0_0000_0000_0000;

/// Bit pattern of the double `+0.0`.
pub const NUM_ZERO_BITS: u64 = 0;

/// The sign bit of a double encoding.
pub const NUM_SIGN_BIT: u64 = 0x8000_0000_0000_0000;

/// The encoding of the sum of the doubles the two encodings stand for.
pub uninterp spec fn num_add_bits(a: u64, b: u64) -> u64;

/// The encoding of the difference of the doubles the two encodings stand for.
pub uninterp spec fn num_sub_bits(a: u64, b: u64) -> u64;

/// The encoding of the product of the doubles the two encodings stand for.
pub uninterp spec fn num_mul_bits(a: u64, b: u64) -> u64;

/// The encoding of the quotient of the doubles the two encodings stand for.
pub uninterp spec fn num_div_bits(a: u64, b: u64) -> u64;

/// The double encoding that decimal text parses to, or `None` where the text
/// is not a decimal number.
pub uninterp spec fn parsed_number(s: Seq<u8>) -> Option<u64>;

/// The decimal text of the double an encoding stands for.
pub uninterp spec fn number_text(bits: u64) -> Seq<u8>;

/// The double rounded to the nearest integer, ties away from zero, then
/// clamped into `usize` (negative values and NaN give zero).
pub uninterp spec fn rounded_count(bits: u64) -> usize;

/// The encoding of the double nearest to an unsigned integer.
pub uninterp spec fn number_of_u64(n: u64) -> u64;

/// Relies on `rustc_apfloat::ieee::Double::add_r` (round to nearest, ties to
/// even): IEEE-754 addition on the encodings.
#[verifier::external_body]
pub fn add_bits(a: u64, b: u64) -> (r: u64)
    ensures
        r == num_add_bits(a, b),
{
    let s = Double::from_bits(a as u128).add_r(Double::from_bits(b as u128), Round::NearestTiesToEven);
    s.value.to_bits() as u64
}

/// Relies on `rustc_apfloat::ieee::Double::sub_r` (round to nearest, ties to
/// even): IEEE-754 subtraction on the encodings.
#[verifier::external_body]
pub fn sub_bits(a: u64, b: u64) -> (r: u64)
    ensures
        r == num_sub_bits(a, b),
{
    let s = Double::from_bits(a as u128).sub_r(Double::from_bits(b as u128), Round::NearestTiesToEven);
    s.value.to_bits() as u64
}

/// Relies on `rustc_apfloat::ieee::Double::mul_r` (round to nearest, ties to
/// even): IEEE-754 multiplication on the encodings.
#[verifier::external_body]
pub fn mul_bits(a: u64, b: u64) -> (r: u64)
    ensures
        r == num_mul_bits(a, b),
{
    let s = Double::from_bits(a as u128).mul_r(Double::from_bits(b as u128), Round::NearestTiesToEven);
    s.value.to_bits() as u64
}

/// Relies on `rustc_apfloat::ieee::Double::div_r` (round to nearest, ties to
/// even): IEEE-754 division on the encodings.
#[verifier::external_body]
pub fn div_bits(a: u64, b: u64) -> (r: u64)
    ensures
        r == num_div_bits(a, b),
{
    let s = Double::from_bits(a as u128).div_r(Double::from_bits(b as u128), Round::NearestTiesToEven);
    s.value.to_bits() as u64
}

/// Relies on `rustc_apfloat::ieee::Double::from_str`: correctly rounded
/// decimal-to-double conversion; `Err` on text that is not a number.
#[verifier::external_body]
pub fn parse_number_bits(s: &[u8]) -> (r: Option<u64>)
    ensures
        r == parsed_number(s@),
{
    match core::str::from_utf8(s) {
        Ok(text) => match text.parse::<Double>() {
            Ok(v) => Some(v.to_bits() as u64),
            Err(_) => None,
        },
        Err(_) => None,
    }
}

/// Relies on `rustc_apfloat::ieee::Double`'s `Display`: a decimal form with
/// enough digits to read the same double back.
#[verifier::external_body]
pub fn number_text_bytes(bits: u64) -> (r: Vec<u8>)
    ensures
        r@ == number_text(bits),
{
    format!("{}", Double::from_bits(bits as u128)).into_bytes()
}

/// Relies on `rustc_apfloat::ieee::Double::round_to_integral` (ties away from
/// zero) and `to_u128`, which clamps NaN and out-of-range values.
#[verifier::external_body]
pub fn round_count(bits: u64) -> (r: usize)
    ensures
        r == rounded_count(bits),
{
    let rounded = Double::from_bits(bits as u128).round_to_integral(Round::NearestTiesToAway);
    rounded.value.to_u128(64).value as usize
}

/// Relies on `rustc_apfloat::ieee::Double::from_u128` (round to nearest, ties
/// to even): unsigned-integer-to-double conversion.
#[verifier::external_body]
pub fn u64_to_number_bits(n: u64) -> (r: u64)
    ensures
        r == number_of_u64(n),
{
    Double::from_u128(n as u128).value.to_bits() as u64
}

/// Relies on `std::time::SystemTime::now` and `duration_since`: whole seconds
/// since the Unix epoch, zero where the clock sits before the epoch. Nothing
/// is promised of the result.
#[verifier::external_body]
pub fn clock_seconds() -> u64 {
    match std::time::SystemTime::now().duration_since(std::time::SystemTime::UNIX_EPOCH) {
        Ok(d) => d.as_secs(),
        Err(_) => 0,
    }
}

/// The encoding with the sign bit cleared.
pub open spec fn spec_num_abs_bits(bits: u64) -> u64 {
    bits & 0x7FFF_FFFF_FFFF_FFFF
}

/// A number is truthy exactly when it is not a zero; both zero encodings are
/// falsy, every other encoding (NaN included) is truthy.
pub open spec fn spec_num_truthy(bits: u64) -> bool {
    spec_num_abs_bits(bits) != 0
}

/// NaN encodings: the magnitude bits lie above the infinity encoding.
pub open spec fn spec_num_is_nan(bits: u64) -> bool {
    spec_num_abs_bits(bits) > 0x7FF0_0000_0000_0000
}

/// IEEE-754 equality on the encodings: NaN equals nothing, the two zeros are
/// equal, and otherwise equal encodings alone are equal.
pub open spec fn spec_num_eq(a: u64, b: u64) -> bool {
    &&& !spec_num_is_nan(a)
    &&& !spec_num_is_nan(b)
    &&& (a == b || (spec_num_abs_bits(a) == 0 && spec_num_abs_bits(b) == 0))
}

/// A key that orders non-NaN encodings as the doubles they stand for:
/// negative encodings are complemented, the rest are offset past them.
pub open spec fn spec_num_order_key(bits: u64) -> u64 {
    let z = if spec_num_abs_bits(bits) == 0 {
        0u64
    } else {
        bits
    };
    if z & 0x8000_0000_0000_0000 != 0 {
        !z
    } else {
        z | 0x8000_0000_0000_0000
    }
}

/// IEEE-754 `<` on the encodings: false on any NaN, sign-magnitude order
/// otherwise, the two zeros equal.
pub open spec fn spec_num_lt(a: u64, b: u64) -> bool {
    &&& !spec_num_is_nan(a)
    &&& !spec_num_is_nan(b)
    &&& spec_num_order_key(a) < spec_num_order_key(b)
}

/// IEEE-754 `<=` on the encodings.
pub open spec fn spec_num_le(a: u64, b: u64) -> bool {
    &&& !spec_num_is_nan(a)
    &&& !spec_num_is_nan(b)
    &&& spec_num_order_key(a) <= spec_num_order_key(b)
}

/// The encoding of the negated double: the sign bit flipped.
pub open spec fn spec_num_neg(bits: u64) -> u64 {
    bits ^ 0x8000_0000_0000_0000
}

pub fn num_abs_bits(bits: u64) -> (r: u64)
    ensures
        r == spec_num_abs_bits(bits),
{
    bits & 0x7FFF_FFFF_FFFF_FFFF
}

pub fn num_truthy(bits: u64) -> (r: bool)
    ensures
        r == spec_num_truthy(bits),
{
    num_abs_bits(bits) != 0
}

pub fn num_is_nan(bits: u64) -> (r: bool)
    ensures
        r == spec_num_is_nan(bits),
{
    num_abs_bits(bits) > 0x7FF0_0000_0000_0000
}

pub fn num_eq(a: u64, b: u64) -> (r: bool)
    ensures
        r == spec_num_eq(a, b),
{
    !num_is_nan(a) && !num_is_nan(b) && (a == b || (num_abs_bits(a) == 0 && num_abs_bits(b) == 0))
}

pub fn num_order_key(bits: u64) -> (r: u64)
    ensures
        r == spec_num_order_key(bits),
{
    let z: u64 = if num_abs_bits(bits) == 0 {
        0
    } else {
        bits
    };
    if z & 0x8000_0000_0000_0000 != 0 {
        !z
    } else {
        z | 0x8000_0000_0000_0000
    }
}

pub fn num_lt(a: u64, b: u64) -> (r: bool)
    ensures
        r == spec_num_lt(a, b),
{
    !num_is_nan(a) && !num_is_nan(b) && num_order_key(a) < num_order_key(b)
}

pub fn num_le(a: u64, b: u64) -> (r: bool)
    ensures
        r == spec_num_le(a, b),
{
    !num_is_nan(a) && !num_is_nan(b) && num_order_key(a) <= num_order_key(b)
}

pub fn num_neg(bits: u64) -> (r: u64)
    ensures
        r == spec_num_neg(bits),
{
    bits ^ 0x8000_0000_0000_0000
}

} // verus!
