use savings_rate::error::ReportError;
use savings_rate::text::{
    chars_of, liabilities_from_output, parse_decimal, remove_all, string_to_amount,
};

#[test]
fn amount_with_separator_and_suffix() {
    assert_eq!(string_to_amount("1,234.56 USD"), Ok(1_234_560_000));
}

#[test]
fn zero_with_suffix() {
    assert_eq!(string_to_amount("0 USD"), Ok(0));
}

#[test]
fn plain_numbers() {
    assert_eq!(string_to_amount("42"), Ok(42_000_000));
    assert_eq!(string_to_amount("0.000001"), Ok(1));
    assert_eq!(string_to_amount("007"), Ok(7_000_000));
}

#[test]
fn signs_are_read() {
    assert_eq!(string_to_amount("-1,000.5 USD"), Ok(-1_000_500_000));
    assert_eq!(string_to_amount("+3.25"), Ok(3_250_000));
    assert_eq!(string_to_amount("-0"), Ok(0));
}

#[test]
fn point_needs_a_digit_on_one_side_only() {
    assert_eq!(string_to_amount(".5"), Ok(500_000));
    assert_eq!(string_to_amount("5."), Ok(5_000_000));
    assert_eq!(string_to_amount("."), Err(ReportError::Parse));
    assert_eq!(string_to_amount("-."), Err(ReportError::Parse));
}

#[test]
fn digits_behind_the_sixth_are_left_out() {
    assert_eq!(string_to_amount("1.2345678"), Ok(1_234_567));
    assert_eq!(string_to_amount("-1.2345678"), Ok(-1_234_567));
    assert_eq!(string_to_amount("0.0000009"), Ok(0));
}

#[test]
fn several_separators_and_suffixes_go() {
    assert_eq!(string_to_amount("1,2,3 USD USD"), Ok(123_000_000));
    assert_eq!(string_to_amount("12,345,678.9 USD"), Ok(12_345_678_900_000));
}

#[test]
fn text_that_is_no_number_is_refused() {
    assert_eq!(string_to_amount(""), Err(ReportError::Parse));
    assert_eq!(string_to_amount(" USD"), Err(ReportError::Parse));
    assert_eq!(string_to_amount("abc"), Err(ReportError::Parse));
    assert_eq!(string_to_amount("12a"), Err(ReportError::Parse));
    assert_eq!(string_to_amount("1.2.3"), Err(ReportError::Parse));
    assert_eq!(string_to_amount("1 2"), Err(ReportError::Parse));
    assert_eq!(string_to_amount("--1"), Err(ReportError::Parse));
    assert_eq!(string_to_amount("1e3"), Err(ReportError::Parse));
    assert_eq!(string_to_amount("12 EUR"), Err(ReportError::Parse));
    assert_eq!(string_to_amount(" 12"), Err(ReportError::Parse));
}

#[test]
fn amounts_at_the_limits() {
    assert_eq!(string_to_amount("9223372036854.775807"), Ok(i64::MAX));
    assert_eq!(string_to_amount("-9223372036854.775808"), Ok(i64::MIN));
    assert_eq!(string_to_amount("9223372036854.775808"), Err(ReportError::Parse));
    assert_eq!(string_to_amount("-9223372036854.775809"), Err(ReportError::Parse));
    assert_eq!(string_to_amount("9223372036855"), Err(ReportError::Parse));
    assert_eq!(
        string_to_amount("100000000000000000000000000000000000000000000"),
        Err(ReportError::Parse)
    );
}

#[test]
fn suffix_is_taken_out_before_the_separators() {
    // The comma keeps " U,SD" from being a suffix, so the letters stay.
    assert_eq!(string_to_amount("5 U,SD"), Err(ReportError::Parse));
    // Taking the suffix out may bring digits together.
    assert_eq!(string_to_amount("1 USD2"), Ok(12_000_000));
}

#[test]
fn pattern_removal_goes_from_left_to_right() {
    let text = chars_of("aaa");
    let pattern = chars_of("aa");
    assert_eq!(remove_all(&text, &pattern), vec!['a']);
    let text = chars_of("abcabc");
    let pattern = chars_of("bc");
    assert_eq!(remove_all(&text, &pattern), vec!['a', 'a']);
    let nothing = chars_of("");
    assert_eq!(remove_all(&text, &nothing), text);
}

#[test]
fn decimal_reader_takes_no_suffix() {
    assert_eq!(parse_decimal(&chars_of("12.5")), Some(12_500_000));
    assert_eq!(parse_decimal(&chars_of("12.5 USD")), None);
    assert_eq!(parse_decimal(&chars_of("1,000")), None);
}

#[test]
fn liabilities_are_on_the_last_line() {
    assert_eq!(liabilities_from_output("-2,500.00 USD"), Ok(-2_500_000_000));
    assert_eq!(liabilities_from_output("first line\n1,234.56 USD"), Ok(1_234_560_000));
    assert_eq!(liabilities_from_output("10 USD\n20 USD\n30 USD"), Ok(30_000_000));
}

#[test]
fn output_that_ends_in_a_line_break_has_an_empty_last_line() {
    assert_eq!(liabilities_from_output("10 USD\n"), Err(ReportError::Parse));
    assert_eq!(liabilities_from_output(""), Err(ReportError::Parse));
}
