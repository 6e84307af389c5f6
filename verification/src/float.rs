//! IEEE 754 binary64 values, carried as their bit patterns.
//!
//! The language's numbers widen to double precision when arithmetic is
//! applied to them.  Verified code never holds a machine float: a double
//! travels through the core as the `u64` bit pattern of its IEEE 754
//! encoding, wrapped in [`FloatBits`].  Arithmetic and conversions are
//! computed by the `rustc_apfloat` software implementation of IEEE 754
//! behind trusted wrappers; sign tests, zero tests and ordering are bit
//! manipulations and are verified here.

use rustc_apfloat::Float;
use vstd::prelude::*;

verus! {

/// An IEEE 754 binary64 value, represented by its bit pattern.
#[derive(Debug, Clone, Copy, PartialEq, Eq, Structural)]
pub struct FloatBits(pub u64);

/// The bit pattern of the double that IEEE 754 addition, rounding to
/// nearest (ties to even), returns on the doubles encoded by `a` and `b`.
pub uninterp spec fn add_bits(a: u64, b: u64) -> u64;

/// The bit pattern of the double that IEEE 754 subtraction returns.
pub uninterp spec fn sub_bits(a: u64, b: u64) -> u64;

/// The bit pattern of the double that IEEE 754 multiplication returns.
pub uninterp spec fn mul_bits(a: u64, b: u64) -> u64;

/// The bit pattern of the double that IEEE 754 division returns.
pub uninterp spec fn div_bits(a: u64, b: u64) -> u64;

/// The bit pattern of the double nearest to the integer `i`
/// (rounding ties to even).
pub uninterp spec fn i64_to_bits(i: i64) -> u64;

/// The bit pattern of the double nearest to the value of the decimal
/// numeral `s` (rounding ties to even).
pub uninterp spec fn decimal_to_bits(s: Seq<char>) -> u64;

/// `c` is a decimal digit.
pub open spec fn is_digit_char(c: char) -> bool {
    '0' <= c && c <= '9'
}

/// `s` is a decimal numeral as the lexer delimits one: it starts with a
/// digit and consists of digits and at most one decimal point.
pub open spec fn decimal_numeral(s: Seq<char>) -> bool {
    &&& s.len() > 0
    &&& is_digit_char(s[0])
    &&& exists|d: int|
        0 <= d <= s.len() && (forall|k: int| 0 <= k < s.len() && k != d ==> is_digit_char(s[k]))
            && (d < s.len() ==> s[d] == '.')
}

/// Relies on `rustc_apfloat::ieee::Double::add_r` with rounding to nearest,
/// ties to even: IEEE 754 addition, determined by the operand bits.
#[verifier::external_body]
pub(crate) fn float_add(a: u64, b: u64) -> (r: u64)
    ensures
        r == add_bits(a, b),
{
    let x = rustc_apfloat::ieee::Double::from_bits(a as u128);
    let y = rustc_apfloat::ieee::Double::from_bits(b as u128);
    (x + y).value.to_bits() as u64
}

/// Relies on `rustc_apfloat::ieee::Double::sub_r` with rounding to nearest,
/// ties to even: IEEE 754 subtraction, determined by the operand bits.
#[verifier::external_body]
pub(crate) fn float_sub(a: u64, b: u64) -> (r: u64)
    ensures
        r == sub_bits(a, b),
{
    let x = rustc_apfloat::ieee::Double::from_bits(a as u128);
    let y = rustc_apfloat::ieee::Double::from_bits(b as u128);
    (x - y).value.to_bits() as u64
}

/// Relies on `rustc_apfloat::ieee::Double::mul_r` with rounding to nearest,
/// ties to even: IEEE 754 multiplication, determined by the operand bits.
#[verifier::external_body]
pub(crate) fn float_mul(a: u64, b: u64) -> (r: u64)
    ensures
        r == mul_bits(a, b),
{
    let x = rustc_apfloat::ieee::Double::from_bits(a as u128);
    let y = rustc_apfloat::ieee::Double::from_bits(b as u128);
    (x * y).value.to_bits() as u64
}

/// Relies on `rustc_apfloat::ieee::Double::div_r` with rounding to nearest,
/// ties to even: IEEE 754 division, determined by the operand bits.
#[verifier::external_body]
pub(crate) fn float_div(a: u64, b: u64) -> (r: u64)
    ensures
        r == div_bits(a, b),
{
    let x = rustc_apfloat::ieee::Double::from_bits(a as u128);
    let y = rustc_apfloat::ieee::Double::from_bits(b as u128);
    (x / y).value.to_bits() as u64
}

/// Relies on `rustc_apfloat::Float::from_i128`: the double nearest to the
/// integer, determined by it alone.  Zero converts to positive zero (bits 0),
/// and a nonzero integer, being at least one in magnitude, never rounds to
/// a zero.
#[verifier::external_body]
pub(crate) fn float_of_i64(i: i64) -> (r: u64)
    ensures
        r == i64_to_bits(i),
        i == 0 ==> r == 0,
        i != 0 ==> f64_abs_bits(r) != 0,
{
    rustc_apfloat::ieee::Double::from_i128(i as i128).value.to_bits() as u64
}

/// Relies on `rustc_apfloat::ieee::Double::from_str` (rounding to nearest,
/// ties to even): on a nonempty string of digits with at most one decimal
/// point its `from_decimal_string` always returns a value, the double
/// nearest to the numeral's value, determined by the numeral alone.
#[verifier::external_body]
pub(crate) fn float_of_decimal(s: &str) -> (r: u64)
    requires
        decimal_numeral(s@),
    ensures
        r == decimal_to_bits(s@),
{
    let v: rustc_apfloat::ieee::Double = s.parse().unwrap();
    v.to_bits() as u64
}

/// The bit pattern with the sign bit cleared: the encoding of `|x|`.
pub open spec fn f64_abs_bits(a: u64) -> u64 {
    if a >= 0x8000_0000_0000_0000 {
        (a - 0x8000_0000_0000_0000) as u64
    } else {
        a
    }
}

/// The sign bit is set: the double is negative (or a negative zero or NaN).
pub open spec fn f64_is_neg(a: u64) -> bool {
    a >= 0x8000_0000_0000_0000
}

/// The double encoded by `a` is a NaN.
pub open spec fn f64_is_nan(a: u64) -> bool {
    f64_abs_bits(a) > 0x7ff0_0000_0000_0000
}

/// The double encoded by `a` is a zero (positive or negative).
pub open spec fn f64_is_zero(a: u64) -> bool {
    f64_abs_bits(a) == 0
}

/// IEEE 754 equality of the doubles encoded by `a` and `b`: NaN equals
/// nothing, the two zeros are equal, and any other double is equal exactly
/// to its own bit pattern.
pub open spec fn f64_eq(a: u64, b: u64) -> bool {
    &&& !f64_is_nan(a)
    &&& !f64_is_nan(b)
    &&& (a == b || (f64_is_zero(a) && f64_is_zero(b)))
}

/// IEEE 754 `<` on the doubles encoded by `a` and `b`: false when either is
/// a NaN; otherwise numeric order, under which the two zeros are equal and
/// the encoding of the magnitude is monotonic.
pub open spec fn f64_lt(a: u64, b: u64) -> bool {
    &&& !f64_is_nan(a)
    &&& !f64_is_nan(b)
    &&& if f64_is_neg(a) && !f64_is_neg(b) {
        !(f64_is_zero(a) && f64_is_zero(b))
    } else if !f64_is_neg(a) && f64_is_neg(b) {
        false
    } else if !f64_is_neg(a) {
        f64_abs_bits(a) < f64_abs_bits(b)
    } else {
        f64_abs_bits(a) > f64_abs_bits(b)
    }
}

/// IEEE 754 `<=`: `<` or equal, NaN ordered with nothing.
pub open spec fn f64_le(a: u64, b: u64) -> bool {
    f64_lt(a, b) || f64_eq(a, b)
}

/// The sign bit cleared, computed.
pub(crate) fn abs_bits(a: u64) -> (r: u64)
    ensures
        r == f64_abs_bits(a),
{
    if a >= 0x8000_0000_0000_0000 {
        a - 0x8000_0000_0000_0000
    } else {
        a
    }
}

/// IEEE 754 negation: the bit pattern with the sign bit reversed and every
/// other bit kept.
pub open spec fn f64_neg(a: u64) -> u64 {
    if a >= 0x8000_0000_0000_0000 {
        (a - 0x8000_0000_0000_0000) as u64
    } else {
        (a + 0x8000_0000_0000_0000) as u64
    }
}

/// IEEE 754 negation: the sign bit is reversed, every other bit kept.
pub(crate) fn float_neg(a: u64) -> (r: u64)
    ensures
        r == f64_neg(a),
        f64_abs_bits(r) == f64_abs_bits(a),
        f64_is_neg(r) == !f64_is_neg(a),
{
    if a >= 0x8000_0000_0000_0000 {
        a - 0x8000_0000_0000_0000
    } else {
        a + 0x8000_0000_0000_0000
    }
}

/// Whether the double encoded by `a` is a zero, computed.
pub(crate) fn is_zero_bits(a: u64) -> (r: bool)
    ensures
        r == f64_is_zero(a),
{
    abs_bits(a) == 0
}

/// Whether the sign bit of `a` is set, computed.
pub(crate) fn is_neg_bits(a: u64) -> (r: bool)
    ensures
        r == f64_is_neg(a),
{
    a >= 0x8000_0000_0000_0000
}

/// IEEE 754 equality, computed from the bit patterns.
pub(crate) fn float_eq(a: u64, b: u64) -> (r: bool)
    ensures
        r == f64_eq(a, b),
{
    let na = abs_bits(a) > 0x7ff0_0000_0000_0000;
    let nb = abs_bits(b) > 0x7ff0_0000_0000_0000;
    !na && !nb && (a == b || (abs_bits(a) == 0 && abs_bits(b) == 0))
}

/// IEEE 754 `<`, computed from the bit patterns.
pub(crate) fn float_lt(a: u64, b: u64) -> (r: bool)
    ensures
        r == f64_lt(a, b),
{
    if abs_bits(a) > 0x7ff0_0000_0000_0000 || abs_bits(b) > 0x7ff0_0000_0000_0000 {
        false
    } else if a >= 0x8000_0000_0000_0000 && b < 0x8000_0000_0000_0000 {
        !(abs_bits(a) == 0 && abs_bits(b) == 0)
    } else if a < 0x8000_0000_0000_0000 && b >= 0x8000_0000_0000_0000 {
        false
    } else if a < 0x8000_0000_0000_0000 {
        abs_bits(a) < abs_bits(b)
    } else {
        abs_bits(a) > abs_bits(b)
    }
}

/// IEEE 754 `<=`, computed from the bit patterns.
pub(crate) fn float_le(a: u64, b: u64) -> (r: bool)
    ensures
        r == f64_le(a, b),
{
    float_lt(a, b) || float_eq(a, b)
}

} // verus!
