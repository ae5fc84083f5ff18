//! 64-bit IEEE-754 numbers held as their bit patterns.
//!
//! Sign flips, equality and ordering are stated and proved here over the bits;
//! rounding arithmetic and decimal conversion are done by `rustc_apfloat`.
use rustc_apfloat::ieee::Double;
use rustc_apfloat::Float;
use vstd::prelude::*;

verus! {

pub const SIGN_BIT: u64 = 0x8000_0000_0000_0000;

pub const MAGNITUDE_MASK: u64 = 0x7fff_ffff_ffff_ffff;

pub const EXPONENT_MASK: u64 = 0x7ff0_0000_0000_0000;

pub const FRACTION_MASK: u64 = 0x000f_ffff_ffff_ffff;

/// A NaN: every exponent bit set and a non-zero fraction.
pub open spec fn is_nan(b: u64) -> bool {
    b & EXPONENT_MASK == EXPONENT_MASK && b & FRACTION_MASK != 0
}

/// The position of a non-NaN number on the number line: the magnitude bits,
/// negated when the sign bit is set. Both zeros sit at 0.
pub open spec fn order_key(b: u64) -> int {
    let magnitude = (b & MAGNITUDE_MASK) as int;
    if b & SIGN_BIT != 0 {
        -magnitude
    } else {
        magnitude
    }
}

/// IEEE-754 equality: NaN equals nothing, `0.0 == -0.0`.
pub open spec fn float_eq(a: u64, b: u64) -> bool {
    !is_nan(a) && !is_nan(b) && order_key(a) == order_key(b)
}

/// IEEE-754 `a < b`: false whenever either side is NaN.
pub open spec fn float_lt(a: u64, b: u64) -> bool {
    !is_nan(a) && !is_nan(b) && order_key(a) < order_key(b)
}

/// IEEE-754 negation flips the sign bit and nothing else.
pub open spec fn float_neg(b: u64) -> u64 {
    b ^ SIGN_BIT
}

/// The bits of the correctly rounded sum `a + b`.
pub uninterp spec fn ieee_sum(a: u64, b: u64) -> u64;

/// The bits of the correctly rounded difference `a - b`.
pub uninterp spec fn ieee_difference(a: u64, b: u64) -> u64;

/// The bits of the correctly rounded product `a * b`.
pub uninterp spec fn ieee_product(a: u64, b: u64) -> u64;

/// The bits of the correctly rounded quotient `a / b`.
pub uninterp spec fn ieee_quotient(a: u64, b: u64) -> u64;

/// The bits of the number nearest to a decimal text, or `None` where the text
/// is not a decimal number.
pub uninterp spec fn decimal_bits(text: Seq<char>) -> Option<u64>;

pub fn is_nan_bits(b: u64) -> (r: bool)
    ensures
        r == is_nan(b),
{
    b & EXPONENT_MASK == EXPONENT_MASK && b & FRACTION_MASK != 0
}

pub fn negate_bits(b: u64) -> (r: u64)
    ensures
        r == float_neg(b),
{
    b ^ SIGN_BIT
}

/// The numeric equality of two numbers given by their bits.
pub fn eq_bits(a: u64, b: u64) -> (r: bool)
    ensures
        r == float_eq(a, b),
{
    if is_nan_bits(a) || is_nan_bits(b) {
        return false;
    }
    let ma = a & MAGNITUDE_MASK;
    let mb = b & MAGNITUDE_MASK;
    let na = a & SIGN_BIT != 0;
    let nb = b & SIGN_BIT != 0;
    if ma == 0 && mb == 0 {
        true
    } else {
        ma == mb && na == nb
    }
}

/// The numeric order `a < b` of two numbers given by their bits.
pub fn lt_bits(a: u64, b: u64) -> (r: bool)
    ensures
        r == float_lt(a, b),
{
    if is_nan_bits(a) || is_nan_bits(b) {
        return false;
    }
    let ma = a & MAGNITUDE_MASK;
    let mb = b & MAGNITUDE_MASK;
    let na = a & SIGN_BIT != 0;
    let nb = b & SIGN_BIT != 0;
    if na && nb {
        mb < ma
    } else if na {
        !(ma == 0 && mb == 0)
    } else if nb {
        false
    } else {
        ma < mb
    }
}

/// Relies on `rustc_apfloat`'s `Add` for `Double`: IEEE-754 addition, ties to even.
#[verifier::external_body]
pub(crate) fn add_bits(a: u64, b: u64) -> (r: u64)
    ensures
        r == ieee_sum(a, b),
{
    (Double::from_bits(a as u128) + Double::from_bits(b as u128)).value.to_bits() as u64
}

/// Relies on `rustc_apfloat`'s `Sub` for `Double`: IEEE-754 subtraction, ties to even.
#[verifier::external_body]
pub(crate) fn sub_bits(a: u64, b: u64) -> (r: u64)
    ensures
        r == ieee_difference(a, b),
{
    (Double::from_bits(a as u128) - Double::from_bits(b as u128)).value.to_bits() as u64
}

/// Relies on `rustc_apfloat`'s `Mul` for `Double`: IEEE-754 multiplication, ties to even.
#[verifier::external_body]
pub(crate) fn mul_bits(a: u64, b: u64) -> (r: u64)
    ensures
        r == ieee_product(a, b),
{
    (Double::from_bits(a as u128) * Double::from_bits(b as u128)).value.to_bits() as u64
}

/// Relies on `rustc_apfloat`'s `Div` for `Double`: IEEE-754 division, ties to even.
#[verifier::external_body]
pub(crate) fn div_bits(a: u64, b: u64) -> (r: u64)
    ensures
        r == ieee_quotient(a, b),
{
    (Double::from_bits(a as u128) / Double::from_bits(b as u128)).value.to_bits() as u64
}

/// Relies on `rustc_apfloat`'s `FromStr` for `Double`: a decimal text rounded to
/// the nearest double, or an error for text that is no number.
#[verifier::external_body]
pub(crate) fn parse_decimal(text: &str) -> (r: Option<u64>)
    ensures
        r == decimal_bits(text@),
{
    match text.parse::<Double>() {
        Ok(d) => Some(d.to_bits() as u64),
        Err(_) => None,
    }
}

} // verus!
