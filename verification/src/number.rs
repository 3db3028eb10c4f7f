//! Numbers of the language: IEEE 754 double-precision values, each held as
//! its 64-bit pattern. Arithmetic, reading and printing are done by the
//! `rustc_apfloat` software implementation.
//!
//! One implementation writes every number that the library shows, in a
//! printed tree and as a value alike, so that a number has one text
//! wherever it appears. It writes up to 17 significant digits, the number
//! it takes to tell a double from its neighbours, and drops zeros at the
//! end: `0.1` is written `0.10000000000000001` and `1.5` is written `1.5`.
//! Where more than three zeros would have to be put in, it writes an
//! exponent instead: `10000` is written `1.0E+4`. An infinity is written
//! `+Inf` or `-Inf`, a NaN `NaN`.

use vstd::prelude::*;
use vstd::string::*;
use rustc_apfloat::ieee::Double;
use rustc_apfloat::Float;
use crate::scanner::is_decimal;

verus! {

/// The bit that holds the sign of a double.
pub const SIGN_BIT: u64 = 0x8000_0000_0000_0000u64;

/// The pattern of `a + b`, rounded to nearest, ties to even.
pub uninterp spec fn double_sum(a: u64, b: u64) -> u64;

/// The pattern of `a - b`, rounded to nearest, ties to even.
pub uninterp spec fn double_difference(a: u64, b: u64) -> u64;

/// The pattern of `a * b`, rounded to nearest, ties to even.
pub uninterp spec fn double_product(a: u64, b: u64) -> u64;

/// The pattern of `a / b`, rounded to nearest, ties to even.
pub uninterp spec fn double_quotient(a: u64, b: u64) -> u64;

/// The pattern of the double that a text of digits with at most one dot
/// among them is read as: the double nearest to the number written, ties to
/// even.
pub uninterp spec fn double_of_text(text: Seq<char>) -> u64;

/// The text that `rustc_apfloat` writes for a double where neither width nor
/// precision is asked for.
pub uninterp spec fn text_of_double(bits: u64) -> Seq<char>;

/// The bits that hold everything but the sign.
pub const MAGNITUDE_BITS: u64 = 0x7FFF_FFFF_FFFF_FFFFu64;

/// The pattern of positive infinity: every exponent bit set, no other.
pub const INFINITY_BITS: u64 = 0x7FF0_0000_0000_0000u64;

/// Whether the pattern is that of zero, of either sign.
pub open spec fn is_zero_double(a: u64) -> bool {
    a & MAGNITUDE_BITS == 0
}

/// Whether the pattern is that of a number that is neither zero, nor an
/// infinity, nor a NaN.
pub open spec fn is_finite_nonzero_double(a: u64) -> bool {
    a & INFINITY_BITS != INFINITY_BITS && a & MAGNITUDE_BITS != 0
}

/// The pattern of the infinity whose sign is negative where exactly one of
/// `a` and `b` is.
pub open spec fn signed_infinity(a: u64, b: u64) -> u64 {
    ((a ^ b) & SIGN_BIT) | INFINITY_BITS
}

/// The pattern of `a / b`. Where a number that is neither zero, nor
/// infinite, nor a NaN is divided by a zero, it is the signed infinity;
/// everywhere else it is the quotient that `rustc_apfloat` gives.
pub open spec fn quotient_of_doubles(a: u64, b: u64) -> u64 {
    if is_finite_nonzero_double(a) && is_zero_double(b) {
        signed_infinity(a, b)
    } else {
        double_quotient(a, b)
    }
}

/// The pattern of `-a`: the same value with its sign turned.
pub open spec fn double_negation(a: u64) -> u64 {
    a ^ SIGN_BIT
}

/// Calls `rustc_apfloat`'s `Add` for `ieee::Double` on the two patterns and
/// gives the pattern of the value it returns; the status flags are dropped.
/// The contract only names that result.
#[verifier::external_body]
pub(crate) fn add_doubles(a: u64, b: u64) -> (r: u64)
    ensures
        r == double_sum(a, b),
{
    (Double::from_bits(u128::from(a)) + Double::from_bits(u128::from(b))).value.to_bits() as u64
}

/// Calls `rustc_apfloat`'s `Sub` for `ieee::Double` on the two patterns and
/// gives the pattern of the value it returns; the status flags are dropped.
/// The contract only names that result.
#[verifier::external_body]
pub(crate) fn subtract_doubles(a: u64, b: u64) -> (r: u64)
    ensures
        r == double_difference(a, b),
{
    (Double::from_bits(u128::from(a)) - Double::from_bits(u128::from(b))).value.to_bits() as u64
}

/// Calls `rustc_apfloat`'s `Mul` for `ieee::Double` on the two patterns and
/// gives the pattern of the value it returns; the status flags are dropped.
/// The contract only names that result.
#[verifier::external_body]
pub(crate) fn multiply_doubles(a: u64, b: u64) -> (r: u64)
    ensures
        r == double_product(a, b),
{
    (Double::from_bits(u128::from(a)) * Double::from_bits(u128::from(b))).value.to_bits() as u64
}

/// Calls `rustc_apfloat`'s `Div` for `ieee::Double` on the two patterns and
/// gives the pattern of the value it returns; the status flags are dropped,
/// so a zero divisor is no failure. The contract names that result, and
/// claims one thing of it: a number that is neither zero, nor infinite, nor
/// a NaN, divided by a zero, gives the infinity whose sign is the product of
/// the two signs.
#[verifier::external_body]
pub(crate) fn divide_doubles(a: u64, b: u64) -> (r: u64)
    ensures
        r == double_quotient(a, b),
        is_finite_nonzero_double(a) && is_zero_double(b) ==> r == signed_infinity(a, b),
{
    (Double::from_bits(u128::from(a)) / Double::from_bits(u128::from(b))).value.to_bits() as u64
}

/// Calls `rustc_apfloat`'s `FromStr` for `ieee::Double` on a text of digits
/// with at most one dot among them, and gives the pattern of the value
/// read. The contract names that value and claims that there is one: the
/// reader refuses an empty text, a text without digits, a second dot and a
/// character that is neither a digit, a dot nor an exponent mark, and such
/// a text has none of these.
#[verifier::external_body]
pub(crate) fn read_double(text: &str) -> (r: Option<u64>)
    requires
        is_decimal(text@),
    ensures
        r == Some(double_of_text(text@)),
{
    match text.parse::<Double>() {
        Ok(value) => Some(value.to_bits() as u64),
        Err(_) => None,
    }
}

/// Calls `rustc_apfloat`'s `Display` for `ieee::Double` on the pattern, with
/// no width or precision given. The contract only names the text.
#[verifier::external_body]
pub(crate) fn write_double(bits: u64) -> (r: String)
    ensures
        r@ == text_of_double(bits),
{
    format!("{}", Double::from_bits(u128::from(bits)))
}

/// The pattern with its sign turned, as negation of a double is.
pub fn negate_double(a: u64) -> (r: u64)
    ensures
        r == double_negation(a),
{
    a ^ SIGN_BIT
}

} // verus!
