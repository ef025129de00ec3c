use fldigi_kissattach::numparse::{parse_i32, ParseIntError};

#[test]
fn parses_plain_decimal() {
    assert_eq!(parse_i32("120"), Ok(120));
}

#[test]
fn parses_zero() {
    assert_eq!(parse_i32("0"), Ok(0));
}

#[test]
fn parses_leading_zeros() {
    assert_eq!(parse_i32("0042"), Ok(42));
}

#[test]
fn parses_explicit_plus() {
    assert_eq!(parse_i32("+7"), Ok(7));
}

#[test]
fn parses_negative() {
    assert_eq!(parse_i32("-5"), Ok(-5));
}

#[test]
fn parses_largest_value() {
    assert_eq!(parse_i32("2147483647"), Ok(i32::MAX));
}

#[test]
fn parses_smallest_value() {
    assert_eq!(parse_i32("-2147483648"), Ok(i32::MIN));
}

#[test]
fn rejects_empty_string() {
    assert_eq!(parse_i32(""), Err(ParseIntError::Empty));
}

#[test]
fn rejects_letters() {
    assert_eq!(parse_i32("abc"), Err(ParseIntError::InvalidDigit));
}

#[test]
fn rejects_digit_then_letter() {
    assert_eq!(parse_i32("12x"), Err(ParseIntError::InvalidDigit));
}

#[test]
fn rejects_lone_sign() {
    assert_eq!(parse_i32("-"), Err(ParseIntError::InvalidDigit));
    assert_eq!(parse_i32("+"), Err(ParseIntError::InvalidDigit));
}

#[test]
fn rejects_inner_sign() {
    assert_eq!(parse_i32("1-2"), Err(ParseIntError::InvalidDigit));
}

#[test]
fn rejects_just_above_range() {
    assert_eq!(parse_i32("2147483648"), Err(ParseIntError::OutOfRange));
}

#[test]
fn rejects_just_below_range() {
    assert_eq!(parse_i32("-2147483649"), Err(ParseIntError::OutOfRange));
}

#[test]
fn rejects_far_out_of_range() {
    assert_eq!(
        parse_i32("99999999999999999999999999"),
        Err(ParseIntError::OutOfRange)
    );
}

#[test]
fn rejects_overflow_with_trailing_letter() {
    // The string is not a number at all, so the digit error wins over range.
    assert_eq!(parse_i32("99999999999x"), Err(ParseIntError::InvalidDigit));
}
