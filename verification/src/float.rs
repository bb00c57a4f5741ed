//! IEEE-754 binary64 values, carried as their 64-bit encodings.
//!
//! The language's float values are held as raw bit patterns (`u64`).
//! Negation, equality and ordering are defined here directly over the
//! encoding (sign/magnitude comparison, NaN incomparable), which is the
//! standard bit-level characterisation of the IEEE-754 operations.  Rounding
//! arithmetic, integer promotion, decimal conversion and display cannot be
//! stated in a few lines; those results are named by uninterpreted
//! functions and computed by `rustc_apfloat`, a software implementation of
//! IEEE-754 binary64 whose results depend on the argument bits alone.
use rustc_apfloat::Float;
use vstd::prelude::*;

verus! {

/// An ASCII decimal digit.
pub open spec fn is_digit_char(c: char) -> bool {
    '0' <= c && c <= '9'
}

/// A decimal number lexeme: non-empty, only digits and at most one dot,
/// and at least one digit.  Every number token the scanner produces
/// satisfies this.
pub open spec fn decimal_lexeme(s: Seq<char>) -> bool {
    &&& s.len() > 0
    &&& forall|i: int| 0 <= i < s.len() ==> is_digit_char(#[trigger] s[i]) || s[i] == '.'
    &&& forall|i: int, j: int|
        0 <= i < s.len() && 0 <= j < s.len() && #[trigger] s[i] == '.' && #[trigger] s[j] == '.'
            ==> i == j
    &&& exists|i: int| 0 <= i < s.len() && is_digit_char(#[trigger] s[i])
}

/// True when the encoding is a NaN: exponent all ones, non-zero fraction.
pub open spec fn float_is_nan(b: u64) -> bool {
    (b >> 52) & 0x7ff == 0x7ff && b & 0x000f_ffff_ffff_ffff != 0
}

/// Magnitude of an encoding: the bits with the sign cleared.  Encodings of
/// non-negative floats order numerically exactly as their magnitudes order
/// as integers.
pub open spec fn float_mag(b: u64) -> u64 {
    b & 0x7fff_ffff_ffff_ffff
}

/// Sign of an encoding (true = negative).
pub open spec fn float_sign(b: u64) -> bool {
    b & 0x8000_0000_0000_0000 != 0
}

/// IEEE-754 equality on encodings: NaN equals nothing (itself included),
/// positive and negative zero are equal, everything else compares by bits.
pub open spec fn float_eq(a: u64, b: u64) -> bool {
    &&& !float_is_nan(a)
    &&& !float_is_nan(b)
    &&& (a == b || (float_mag(a) == 0 && float_mag(b) == 0))
}

/// IEEE-754 "less than" on encodings: false whenever either side is NaN,
/// otherwise sign/magnitude order with the two zeros equal.
pub open spec fn float_lt(a: u64, b: u64) -> bool {
    &&& !float_is_nan(a)
    &&& !float_is_nan(b)
    &&& if !float_sign(a) && !float_sign(b) {
        float_mag(a) < float_mag(b)
    } else if float_sign(a) && float_sign(b) {
        float_mag(b) < float_mag(a)
    } else if float_sign(a) {
        !(float_mag(a) == 0 && float_mag(b) == 0)
    } else {
        false
    }
}

/// IEEE-754 negation: flip the sign bit.
pub open spec fn float_neg(b: u64) -> u64 {
    b ^ 0x8000_0000_0000_0000
}

/// The binary64 sum of two encodings (round to nearest, ties to even).
pub uninterp spec fn float_add(a: u64, b: u64) -> u64;

/// The binary64 difference of two encodings.
pub uninterp spec fn float_sub(a: u64, b: u64) -> u64;

/// The binary64 product of two encodings.
pub uninterp spec fn float_mul(a: u64, b: u64) -> u64;

/// The binary64 quotient of two encodings.
pub uninterp spec fn float_div(a: u64, b: u64) -> u64;

/// The binary64 encoding nearest to a 64-bit integer.
pub uninterp spec fn float_of_int(i: i64) -> u64;

/// The binary64 encoding of a decimal literal (digits with at most one
/// dot), correctly rounded.
pub uninterp spec fn float_of_dec(s: Seq<char>) -> u64;

/// The decimal rendering of a binary64 encoding.
pub uninterp spec fn float_text(b: u64) -> Seq<char>;

/// True when the encoding is a NaN (executable form of [`float_is_nan`]).
pub fn f64_is_nan(b: u64) -> (r: bool)
    ensures
        r == float_is_nan(b),
{
    (b >> 52) & 0x7ff == 0x7ff && b & 0x000f_ffff_ffff_ffff != 0
}

/// IEEE-754 equality on encodings (executable form of [`float_eq`]).
pub fn f64_eq(a: u64, b: u64) -> (r: bool)
    ensures
        r == float_eq(a, b),
{
    if f64_is_nan(a) || f64_is_nan(b) {
        false
    } else {
        a == b || (a & 0x7fff_ffff_ffff_ffff == 0 && b & 0x7fff_ffff_ffff_ffff == 0)
    }
}

/// IEEE-754 "less than" on encodings (executable form of [`float_lt`]).
pub fn f64_lt(a: u64, b: u64) -> (r: bool)
    ensures
        r == float_lt(a, b),
{
    if f64_is_nan(a) || f64_is_nan(b) {
        false
    } else {
        let sa = a & 0x8000_0000_0000_0000 != 0;
        let sb = b & 0x8000_0000_0000_0000 != 0;
        let ma = a & 0x7fff_ffff_ffff_ffff;
        let mb = b & 0x7fff_ffff_ffff_ffff;
        if !sa && !sb {
            ma < mb
        } else if sa && sb {
            mb < ma
        } else if sa {
            !(ma == 0 && mb == 0)
        } else {
            false
        }
    }
}

/// IEEE-754 negation on encodings (executable form of [`float_neg`]).
pub fn f64_neg(b: u64) -> (r: u64)
    ensures
        r == float_neg(b),
{
    b ^ 0x8000_0000_0000_0000
}

/// Relies on `rustc_apfloat::ieee::Double`'s `Add`: IEEE-754 binary64
/// addition, round to nearest even, on bit patterns.
#[verifier::external_body]
pub(crate) fn f64_add(a: u64, b: u64) -> (r: u64)
    ensures
        r == float_add(a, b),
{
    let x = rustc_apfloat::ieee::Double::from_bits(a as u128);
    let y = rustc_apfloat::ieee::Double::from_bits(b as u128);
    (x + y).value.to_bits() as u64
}

/// Relies on `rustc_apfloat::ieee::Double`'s `Sub`: IEEE-754 binary64
/// subtraction, round to nearest even, on bit patterns.
#[verifier::external_body]
pub(crate) fn f64_sub(a: u64, b: u64) -> (r: u64)
    ensures
        r == float_sub(a, b),
{
    let x = rustc_apfloat::ieee::Double::from_bits(a as u128);
    let y = rustc_apfloat::ieee::Double::from_bits(b as u128);
    (x - y).value.to_bits() as u64
}

/// Relies on `rustc_apfloat::ieee::Double`'s `Mul`: IEEE-754 binary64
/// multiplication, round to nearest even, on bit patterns.
#[verifier::external_body]
pub(crate) fn f64_mul(a: u64, b: u64) -> (r: u64)
    ensures
        r == float_mul(a, b),
{
    let x = rustc_apfloat::ieee::Double::from_bits(a as u128);
    let y = rustc_apfloat::ieee::Double::from_bits(b as u128);
    (x * y).value.to_bits() as u64
}

/// Relies on `rustc_apfloat::ieee::Double`'s `Div`: IEEE-754 binary64
/// division, round to nearest even, on bit patterns.
#[verifier::external_body]
pub(crate) fn f64_div(a: u64, b: u64) -> (r: u64)
    ensures
        r == float_div(a, b),
{
    let x = rustc_apfloat::ieee::Double::from_bits(a as u128);
    let y = rustc_apfloat::ieee::Double::from_bits(b as u128);
    (x / y).value.to_bits() as u64
}

/// Relies on `rustc_apfloat::Float::from_i128`: conversion of an integer to
/// the nearest binary64 value (round to nearest even).
#[verifier::external_body]
pub(crate) fn f64_of_int(i: i64) -> (r: u64)
    ensures
        r == float_of_int(i),
{
    rustc_apfloat::ieee::Double::from_i128(i as i128).value.to_bits() as u64
}

/// Relies on `rustc_apfloat::Float::from_str_r` (via `FromStr`): correctly
/// rounded decimal-to-binary64 conversion.  Its decimal parser accepts any
/// non-empty string of ASCII digits containing at most one dot and at least
/// one digit, which covers every number lexeme the scanner produces.
#[verifier::external_body]
pub(crate) fn f64_of_dec(s: &str) -> (r: Option<u64>)
    ensures
        r matches Some(bits) ==> bits == float_of_dec(s@),
        decimal_lexeme(s@) ==> r is Some,
{
    match s.parse::<rustc_apfloat::ieee::Double>() {
        Ok(d) => Some(d.to_bits() as u64),
        Err(_) => None,
    }
}

/// Relies on `rustc_apfloat::ieee::Double`'s `Display`: a decimal rendering
/// of a binary64 value, a function of the bits alone.
#[verifier::external_body]
pub(crate) fn f64_text(b: u64) -> (r: String)
    ensures
        r@ == float_text(b),
{
    format!("{}", rustc_apfloat::ieee::Double::from_bits(b as u128))
}

} // verus!
