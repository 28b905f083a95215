use kdl_test::{render_float, render_integer, parse_exponent, FloatRepr, RenderError};

fn sci(original: &str) -> Result<String, RenderError> {
    // The parsed double is irrelevant when the original text is scientific
    // notation; hand in a stand-in finite representation.
    let repr = FloatRepr::Finite { decimal: String::from("0"), fract_is_zero: false };
    render_float(&repr, Some(original))
}

#[test]
fn integer_roundtrip_simple() {
    assert_eq!(render_integer(1), "1.0");
    assert_eq!(render_integer(0), "0.0");
    assert_eq!(render_integer(-7), "-7.0");
    assert_eq!(render_integer(42), "42.0");
}

#[test]
fn integer_roundtrip_extremes() {
    assert_eq!(render_integer(i128::MAX), format!("{}.0", i128::MAX));
    assert_eq!(render_integer(i128::MIN), format!("{}.0", i128::MIN));
}

#[test]
fn sci_positive_exponent() {
    assert_eq!(sci("1.5e10").unwrap(), "15000000000.0");
    assert_eq!(sci("1.5E10").unwrap(), "15000000000.0");
    assert_eq!(sci("1e3").unwrap(), "1000.0");
    assert_eq!(sci("1.25e2").unwrap(), "125.0");
    assert_eq!(sci("1.25e1").unwrap(), "12.5");
}

#[test]
fn sci_negative_exponent() {
    assert_eq!(sci("1.5e-10").unwrap(), "0.00000000015");
    assert_eq!(sci("1.5e-1").unwrap(), "0.15");
    assert_eq!(sci("12.5e-1").unwrap(), "1.25");
}

#[test]
fn sci_zero_exponent() {
    assert_eq!(sci("1.5e0").unwrap(), "1.5");
    assert_eq!(sci("1e0").unwrap(), "1.0");
}

#[test]
fn sci_leading_zero_dropped() {
    assert_eq!(sci("0.5e1").unwrap(), "5.0");
}

#[test]
fn sci_nonzero_leading_digit_kept() {
    assert_eq!(sci("10.5e-1").unwrap(), "1.05");
}

#[test]
fn sci_trailing_zero_fraction_dropped() {
    assert_eq!(sci("1.0e-1").unwrap(), "0.1");
}

#[test]
fn sci_exponent_beyond_double_range() {
    let mut expected = String::from("15");
    for _ in 0..349 {
        expected.push('0');
    }
    expected.push_str(".0");
    assert_eq!(sci("1.5e350").unwrap(), expected);

    let mut expected_small = String::from("0.");
    for _ in 0..319 {
        expected_small.push('0');
    }
    expected_small.push_str("25");
    assert_eq!(sci("2.5e-320").unwrap(), expected_small);
}

#[test]
fn sci_exponent_separators_stripped() {
    assert_eq!(sci("1e1_0").unwrap(), "10000000000.0");
    assert_eq!(sci("1e_2").unwrap(), "100.0");
}

#[test]
fn sci_bad_exponent_fails() {
    assert_eq!(sci("1.5ex").unwrap_err(), RenderError::BadExponent);
    assert_eq!(sci("1.5e").unwrap_err(), RenderError::BadExponent);
    assert_eq!(sci("1.5e-").unwrap_err(), RenderError::BadExponent);
    assert_eq!(sci("1.5e_").unwrap_err(), RenderError::BadExponent);
    assert_eq!(sci("1e99999999999999999999").unwrap_err(), RenderError::BadExponent);
}

#[test]
fn special_floats() {
    let inf = FloatRepr::Infinite { negative: false };
    let ninf = FloatRepr::Infinite { negative: true };
    let nan = FloatRepr::NotANumber;
    assert_eq!(render_float(&inf, None).unwrap(), "inf");
    assert_eq!(render_float(&ninf, None).unwrap(), "-inf");
    assert_eq!(render_float(&nan, None).unwrap(), "nan");
}

#[test]
fn plain_float_rendering() {
    let whole = FloatRepr::Finite { decimal: String::from("3"), fract_is_zero: true };
    assert_eq!(render_float(&whole, None).unwrap(), "3.0");
    let frac = FloatRepr::Finite { decimal: String::from("3.25"), fract_is_zero: false };
    assert_eq!(render_float(&frac, None).unwrap(), "3.25");
    // Original text without an exponent marker is ignored.
    assert_eq!(render_float(&frac, Some("3.25")).unwrap(), "3.25");
}

#[test]
fn exponent_parsing() {
    assert_eq!(parse_exponent("10"), Some(10));
    assert_eq!(parse_exponent("-5"), Some(-5));
    assert_eq!(parse_exponent("+7"), Some(7));
    assert_eq!(parse_exponent("1_0"), Some(10));
    assert_eq!(parse_exponent("007"), Some(7));
    assert_eq!(parse_exponent("9223372036854775807"), Some(i64::MAX));
    assert_eq!(parse_exponent("-9223372036854775808"), Some(i64::MIN));
    assert_eq!(parse_exponent("9223372036854775808"), None);
    assert_eq!(parse_exponent(""), None);
    assert_eq!(parse_exponent("_"), None);
    assert_eq!(parse_exponent("-"), None);
    assert_eq!(parse_exponent("1x"), None);
}
