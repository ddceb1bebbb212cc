//! Trusted bridge to IEEE-754 binary64 arithmetic.
//!
//! The scalar values of the engine carry numbers as 64-bit interchange
//! encodings (see `numerics`). The operations that need rounding — addition,
//! subtraction, multiplication, the trigonometric functions, and the
//! conversions between numbers and text — cannot be decided by bit
//! inspection; they are performed by outside libraries through the wrappers
//! below, and each result is named by an uninterpreted function of the
//! operand bits, which is sound because every one of these operations is a
//! pure function of its operands.

use vstd::prelude::*;
use rustc_apfloat::Float;
use rustc_apfloat::ieee::Double;
use crate::numerics::{f64_as_nat, f64_of_nat, NUM_ONE};

verus! {

/// The IEEE-754 binary64 sum of the numbers encoded by `a` and `b`,
/// rounded to nearest, ties to even.
pub uninterp spec fn num_add(a: u64, b: u64) -> u64;

/// The IEEE-754 binary64 difference of two encodings in the general case,
/// where only the rounding rule is known of it.
pub uninterp spec fn num_sub_opaque(a: u64, b: u64) -> u64;

/// The IEEE-754 binary64 difference of the numbers encoded by `a` and `b`,
/// rounded to nearest, ties to even. Taking one from an exactly encoded
/// natural number up to 2^52 is exact — the IEEE rule that a representable
/// result is returned unrounded — and is spelled out here so that loop
/// counters can be reasoned about; everything else stays behind the
/// uninterpreted general case.
pub open spec fn num_sub(a: u64, b: u64) -> u64 {
    match f64_as_nat(a) {
        Some(n) => if b == NUM_ONE && 1 <= n <= 0x10_0000_0000_0000 {
            f64_of_nat((n - 1) as nat)
        } else {
            num_sub_opaque(a, b)
        },
        None => num_sub_opaque(a, b),
    }
}

/// The IEEE-754 binary64 product of the numbers encoded by `a` and `b`,
/// rounded to nearest, ties to even.
pub uninterp spec fn num_mul(a: u64, b: u64) -> u64;

/// The sine of the number encoded by `a` (radians).
pub uninterp spec fn num_sin(a: u64) -> u64;

/// The cosine of the number encoded by `a` (radians).
pub uninterp spec fn num_cos(a: u64) -> u64;

/// The number a piece of text parses to, if it parses at all.
pub uninterp spec fn text_to_num(s: Seq<char>) -> Option<u64>;

/// The decimal rendering of the number encoded by `b`.
pub uninterp spec fn num_to_text(b: u64) -> Seq<char>;

/// Relies on `rustc_apfloat`: `Double` is the IEEE-754 binary64 format, its
/// `+` rounds to nearest, ties to even, and the result depends on the
/// operand bits alone.
#[verifier::external_body]
pub fn add_bits(a: u64, b: u64) -> (r: u64)
    ensures
        r == num_add(a, b),
{
    (Double::from_bits(a as u128) + Double::from_bits(b as u128)).value.to_bits() as u64
}

/// Relies on `rustc_apfloat`: `Double`'s `-` rounds to nearest, ties to
/// even, and depends on the operand bits alone. That covers both sides of
/// `num_sub`: the spelled-out case because IEEE-754 subtraction returns a
/// representable exact difference unrounded, and the general case by the
/// name alone.
#[verifier::external_body]
pub fn sub_bits(a: u64, b: u64) -> (r: u64)
    ensures
        r == num_sub(a, b),
        f64_as_nat(a) is None ==> r == num_sub_opaque(a, b),
{
    (Double::from_bits(a as u128) - Double::from_bits(b as u128)).value.to_bits() as u64
}

/// Relies on `rustc_apfloat`: `Double`'s `*` rounds to nearest, ties to
/// even, and depends on the operand bits alone.
#[verifier::external_body]
pub fn mul_bits(a: u64, b: u64) -> (r: u64)
    ensures
        r == num_mul(a, b),
{
    (Double::from_bits(a as u128) * Double::from_bits(b as u128)).value.to_bits() as u64
}

/// Relies on `libm::sin`, a pure function of its operand, and on
/// `bytemuck::cast`, which moves the 8 bytes unchanged between the integer
/// and the floating encoding.
#[verifier::external_body]
pub fn sin_bits(a: u64) -> (r: u64)
    ensures
        r == num_sin(a),
{
    bytemuck::cast(libm::sin(bytemuck::cast(a)))
}

/// Relies on `libm::cos`, a pure function of its operand, and on
/// `bytemuck::cast`, which moves the 8 bytes unchanged between the integer
/// and the floating encoding.
#[verifier::external_body]
pub fn cos_bits(a: u64) -> (r: u64)
    ensures
        r == num_cos(a),
{
    bytemuck::cast(libm::cos(bytemuck::cast(a)))
}

/// Relies on `rustc_apfloat`: `Double::from_str` parses a numeral — a
/// decimal or hex-float form, or one of the infinity and NaN spellings —
/// with round to nearest, ties to even, errs on anything else, and
/// depends on the characters alone. The engine's number grammar is thus
/// rustc_apfloat's, a deliberate choice: the rules keep hardware floats
/// out of the verified code, and this library's behaviour is deterministic
/// and documented, at the price of edge spellings differing from a
/// standard-library parse.
#[verifier::external_body]
pub fn parse_num_bits(s: &str) -> (r: Option<u64>)
    ensures
        r == text_to_num(s@),
{
    match s.parse::<Double>() {
        Ok(d) => Some(d.to_bits() as u64),
        Err(_) => None,
    }
}

/// Relies on `rustc_apfloat`: `Double`'s display writes a decimal rendering
/// that depends on the bits alone. As with parsing, the engine's rendering
/// of numbers is deliberately rustc_apfloat's, not a standard-library
/// `Display`: deterministic, documented, and different in edge spellings
/// (scientific notation thresholds, the infinity form).
#[verifier::external_body]
pub fn format_num_bits(b: u64) -> (r: String)
    ensures
        r@ == num_to_text(b),
{
    format!("{}", Double::from_bits(b as u128))
}

} // verus!
