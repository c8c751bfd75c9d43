use wohnen::numtext::{
    centi_to_string, nonneg_to_string, parse_decimal_centi, parse_i32, test_positive_and_zero_decimal,
    test_positive_and_zero_number, trim,
};

#[test]
fn renders_nonneg_numbers_in_decimal() {
    assert_eq!(nonneg_to_string(0), "0");
    assert_eq!(nonneg_to_string(7), "7");
    assert_eq!(nonneg_to_string(742), "742");
    assert_eq!(nonneg_to_string(90210), "90210");
    assert_eq!(nonneg_to_string(i32::MAX), "2147483647");
}

#[test]
fn renders_hundredths_in_shortest_form() {
    assert_eq!(centi_to_string(12050), "120.5");
    assert_eq!(centi_to_string(12000), "120");
    assert_eq!(centi_to_string(12345), "123.45");
    assert_eq!(centi_to_string(12010), "120.1");
    assert_eq!(centi_to_string(5), "0.05");
    assert_eq!(centi_to_string(0), "0");
}

#[test]
fn parses_signed_integers() {
    assert_eq!(parse_i32("42"), Some(42));
    assert_eq!(parse_i32("+5"), Some(5));
    assert_eq!(parse_i32("-7"), Some(-7));
    assert_eq!(parse_i32("0042"), Some(42));
    assert_eq!(parse_i32("2147483647"), Some(i32::MAX));
    assert_eq!(parse_i32("-2147483648"), Some(i32::MIN));
}

#[test]
fn rejects_malformed_or_out_of_range_integers() {
    assert_eq!(parse_i32(""), None);
    assert_eq!(parse_i32("-"), None);
    assert_eq!(parse_i32("+"), None);
    assert_eq!(parse_i32("abc"), None);
    assert_eq!(parse_i32("4 2"), None);
    assert_eq!(parse_i32("12.5"), None);
    assert_eq!(parse_i32("2147483648"), None);
    assert_eq!(parse_i32("-2147483649"), None);
    assert_eq!(parse_i32("99999999999999999999"), None);
}

#[test]
fn parses_decimals_into_hundredths() {
    assert_eq!(parse_decimal_centi("120.5"), Some(12050));
    assert_eq!(parse_decimal_centi("120"), Some(12000));
    assert_eq!(parse_decimal_centi("0.05"), Some(5));
    assert_eq!(parse_decimal_centi(".5"), Some(50));
    assert_eq!(parse_decimal_centi("5."), Some(500));
    assert_eq!(parse_decimal_centi("-0.5"), Some(-50));
    // digits past the second decimal place are dropped
    assert_eq!(parse_decimal_centi("3.14159"), Some(314));
}

#[test]
fn rejects_malformed_decimals() {
    assert_eq!(parse_decimal_centi(""), None);
    assert_eq!(parse_decimal_centi("."), None);
    assert_eq!(parse_decimal_centi("1.2.3"), None);
    assert_eq!(parse_decimal_centi("12a"), None);
    assert_eq!(parse_decimal_centi("1e3"), None);
    assert_eq!(parse_decimal_centi("100000000"), None);
}

#[test]
fn trims_surrounding_whitespace() {
    assert_eq!(trim("  42  "), "42");
    assert_eq!(trim("\t-7\n"), "-7");
    assert_eq!(trim("   "), "");
    assert_eq!(trim("a b"), "a b");
}

#[test]
fn test_positive_and_zero_number_accepts_nonneg_integers() {
    assert!(test_positive_and_zero_number("0"));
    assert!(test_positive_and_zero_number("742"));
    assert!(test_positive_and_zero_number(" 90210 "));
    assert!(!test_positive_and_zero_number("-1"));
    assert!(!test_positive_and_zero_number(""));
    assert!(!test_positive_and_zero_number("abc"));
    assert!(!test_positive_and_zero_number("12.5"));
}

#[test]
fn test_positive_and_zero_decimal_accepts_nonneg_decimals() {
    assert!(test_positive_and_zero_decimal("0"));
    assert!(test_positive_and_zero_decimal("120.5"));
    assert!(test_positive_and_zero_decimal(" 0.0 "));
    assert!(!test_positive_and_zero_decimal("-0.5"));
    assert!(!test_positive_and_zero_decimal(""));
    assert!(!test_positive_and_zero_decimal("x"));
}
