use bybit_trades::{format_i64, hex_lower, is_float_text, parse_i64};

#[test]
fn format_i64_writes_decimal() {
    assert_eq!(format_i64(0), "0");
    assert_eq!(format_i64(42), "42");
    assert_eq!(format_i64(-7), "-7");
    assert_eq!(format_i64(1700000000000), "1700000000000");
    assert_eq!(format_i64(i64::MAX), "9223372036854775807");
    assert_eq!(format_i64(i64::MIN), "-9223372036854775808");
}

#[test]
fn parse_i64_reads_signed_decimal() {
    assert_eq!(parse_i64("123"), Some(123));
    assert_eq!(parse_i64("-45"), Some(-45));
    assert_eq!(parse_i64("+7"), Some(7));
    assert_eq!(parse_i64("007"), Some(7));
    assert_eq!(parse_i64("1700000000123"), Some(1700000000123));
    assert_eq!(parse_i64("9223372036854775807"), Some(i64::MAX));
    assert_eq!(parse_i64("-9223372036854775808"), Some(i64::MIN));
}

#[test]
fn parse_i64_refuses_what_std_refuses() {
    for s in ["", "-", "+", "12a", " 1", "1 ", "1.0", "9223372036854775808", "-9223372036854775809", "--1"] {
        assert_eq!(parse_i64(s), None, "{s}");
        assert!(s.parse::<i64>().is_err(), "{s}");
    }
}

#[test]
fn parse_i64_agrees_with_std() {
    for s in ["0", "-0", "+0", "99", "-100000", "18446744073709551615", "12345678901234567890"] {
        assert_eq!(parse_i64(s), s.parse::<i64>().ok(), "{s}");
    }
}

#[test]
fn float_text_accepts_documented_forms() {
    for s in [
        "0.001", "65000.5", "1", "5.", ".5", "1e5", "1E-3", "+2.5e+10", "-0", "inf", "-Infinity", "NaN",
        "INF", "1.e5",
    ] {
        assert!(is_float_text(s), "{s}");
        assert!(s.parse::<f64>().is_ok(), "{s}");
    }
}

#[test]
fn float_text_refuses_non_numbers() {
    for s in ["abc", "", ".", "-", "1e", "1e+", "1.2.3", " 1", "1 ", "e5", "infinit", "0x10", "1,5"] {
        assert!(!is_float_text(s), "{s}");
        assert!(s.parse::<f64>().is_err(), "{s}");
    }
}

#[test]
fn hex_lower_two_digits_per_byte() {
    assert_eq!(hex_lower(&[0x00, 0xff, 0x1a, 0x09]), "00ff1a09");
    assert_eq!(hex_lower(&[]), "");
}
