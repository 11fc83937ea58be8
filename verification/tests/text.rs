use tokenator::text::{decimal_string, format_number, str_eq};

#[test]
fn format_number_generates_expected_output_for_valid_input() {
    let number = 42;

    let outcome = format_number(number);

    assert_eq!(&outcome, "42");

    let number = 10_000_000_000;

    let outcome = format_number(number);

    assert_eq!(&outcome, "10,000,000,000");

    let number = 1_000_000;

    let outcome = format_number(number);

    assert_eq!(&outcome, "1,000,000");

    let number = 0;

    let outcome = format_number(number);

    assert_eq!(&outcome, "0");
}

#[test]
fn format_number_keeps_leading_zeros_inside_groups() {
    assert_eq!(format_number(1_000), "1,000");
    assert_eq!(format_number(1_002_003), "1,002,003");
    assert_eq!(format_number(999), "999");
}

#[test]
fn decimal_string_renders_exact_values() {
    assert_eq!(decimal_string(0), "0");
    assert_eq!(decimal_string(7), "7");
    assert_eq!(decimal_string(42), "42");
    assert_eq!(decimal_string(404), "404");
    assert_eq!(decimal_string(1_000_000), "1000000");
    assert_eq!(decimal_string(10_000_000_000), "10000000000");
}

#[test]
fn str_eq_compares_by_content() {
    assert!(str_eq("example-model", "example-model"));
    assert!(!str_eq("example-model", "example-modal"));
    assert!(!str_eq("abc", "ab"));
}
