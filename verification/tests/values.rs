//! The scalar value model: coercions and comparisons on concrete values.

use std::cmp::Ordering;
use tabi::scalar_value::ScalarValue;
use tabi::numerics::{f64_to_nat_u64, NUM_NEG_ZERO, NUM_ONE, NUM_ZERO};

fn text(s: &str) -> ScalarValue {
    ScalarValue::Text(String::from(s))
}

fn num(x: f64) -> ScalarValue {
    ScalarValue::Num(x.to_bits())
}

#[test]
fn to_bool_of_text_cases() {
    assert_eq!(text("").to_bool(), false);
    assert_eq!(text("0").to_bool(), false);
    assert_eq!(text("-0").to_bool(), false);
    assert_eq!(text("false").to_bool(), false);
    assert_eq!(text("abc").to_bool(), true);
    assert_eq!(text("true").to_bool(), true);
    assert_eq!(text(" ").to_bool(), true);
}

#[test]
fn to_bool_of_numbers() {
    assert_eq!(num(0.0).to_bool(), false);
    assert_eq!(ScalarValue::Num(NUM_NEG_ZERO).to_bool(), false);
    assert_eq!(num(1.0).to_bool(), true);
    assert_eq!(num(-3.5).to_bool(), true);
    assert_eq!(num(f64::NAN).to_bool(), true);
}

#[test]
fn to_bool_idempotent_on_samples() {
    for v in [text(""), text("x"), num(0.0), num(2.0), ScalarValue::Bool(true)] {
        let once = v.to_bool();
        assert_eq!(ScalarValue::Bool(once).to_bool(), once);
    }
}

#[test]
fn to_num_round_trip_bits() {
    for x in [0.0f64, 1.0, -2.5, 1e300, 2.7] {
        assert_eq!(num(x).to_num(), x.to_bits());
    }
}

#[test]
fn to_num_of_bool_and_text() {
    assert_eq!(ScalarValue::Bool(true).to_num(), NUM_ONE);
    assert_eq!(ScalarValue::Bool(false).to_num(), NUM_ZERO);
    assert_eq!(text("2").to_num(), 2.0f64.to_bits());
    assert_eq!(text("2.5").to_num(), 2.5f64.to_bits());
    // Unparsable text counts as zero.
    assert_eq!(text("abc").to_num(), NUM_ZERO);
    assert_eq!(text("").to_num(), NUM_ZERO);
}

#[test]
fn to_text_of_bools() {
    assert_eq!(ScalarValue::Bool(true).to_text(), "true");
    assert_eq!(ScalarValue::Bool(false).to_text(), "false");
    assert_eq!(text("hi").to_text(), "hi");
}

#[test]
fn compare_numbers() {
    assert_eq!(num(1.0).compare(&num(2.0)), Ordering::Less);
    assert_eq!(num(2.0).compare(&num(1.0)), Ordering::Greater);
    assert_eq!(num(2.0).compare(&num(2.0)), Ordering::Equal);
    assert_eq!(num(-1.0).compare(&num(1.0)), Ordering::Less);
    assert_eq!(num(-2.0).compare(&num(-1.0)), Ordering::Less);
    // Both zeros compare equal.
    assert_eq!(num(0.0).compare(&ScalarValue::Num(NUM_NEG_ZERO)), Ordering::Equal);
}

#[test]
fn compare_empty_text_with_zero_text() {
    // "" is whitespace-only, so the comparison falls back to text:
    // "" < "0" lexicographically.
    assert_eq!(text("").compare(&text("0")), Ordering::Less);
    assert_eq!(text("0").compare(&text("")), Ordering::Greater);
}

#[test]
fn compare_unparsable_text_is_numeric_zero() {
    // "abc" parses to nothing and counts as 0.0, and it is not
    // whitespace-only, so the comparison stays numeric.
    assert_eq!(text("abc").compare(&num(0.0)), Ordering::Equal);
    assert_eq!(text("abc").compare(&num(1.0)), Ordering::Less);
}

#[test]
fn compare_nan_falls_back_to_text() {
    // NaN on either side makes the comparison textual; two NaN values
    // render alike and compare equal.
    assert_eq!(num(f64::NAN).compare(&num(f64::NAN)), Ordering::Equal);
}

#[test]
fn compare_symmetry_on_samples() {
    let samples = [
        num(0.0),
        num(1.5),
        num(-3.0),
        num(f64::NAN),
        text(""),
        text("0"),
        text("abc"),
        ScalarValue::Bool(true),
        ScalarValue::Bool(false),
    ];
    for v in &samples {
        for w in &samples {
            let vw = v.compare(w);
            let wv = w.compare(v);
            assert_eq!(vw == Ordering::Equal, wv == Ordering::Equal);
            assert_eq!(vw == Ordering::Less, wv == Ordering::Greater);
        }
    }
}

#[test]
fn exact_integer_decoding() {
    assert_eq!(f64_to_nat_u64(0.0f64.to_bits()), Some(0));
    assert_eq!(f64_to_nat_u64(1.0f64.to_bits()), Some(1));
    assert_eq!(f64_to_nat_u64(3.0f64.to_bits()), Some(3));
    assert_eq!(f64_to_nat_u64(4503599627370496.0f64.to_bits()), Some(1u64 << 52));
    assert_eq!(f64_to_nat_u64(2.7f64.to_bits()), None);
    assert_eq!(f64_to_nat_u64((-1.0f64).to_bits()), None);
    assert_eq!(f64_to_nat_u64(f64::NAN.to_bits()), None);
    assert_eq!(f64_to_nat_u64(f64::INFINITY.to_bits()), None);
}

#[test]
fn duplicate_preserves_values() {
    let v = text("hello");
    let w = v.duplicate();
    assert_eq!(v, w);
    let n = num(2.5);
    assert_eq!(n.duplicate(), n);
}
