use roller::number::parse_number;
use roller::Error;

#[test]
fn parse_number_reads_digit_runs() {
    assert_eq!(parse_number("0"), Ok(0));
    assert_eq!(parse_number("7"), Ok(7));
    assert_eq!(parse_number("42"), Ok(42));
    assert_eq!(parse_number("1234567890"), Ok(1234567890));
    assert_eq!(parse_number("007"), Ok(7));
    assert_eq!(parse_number("0000000000000000000012"), Ok(12));
}

#[test]
fn parse_number_limit_is_i32_max() {
    assert_eq!(parse_number("2147483647"), Ok(i32::MAX));
    assert_eq!(parse_number("2147483648"), Err(Error::NumberParseFailure));
    assert_eq!(parse_number("2147483650"), Err(Error::NumberParseFailure));
    assert_eq!(parse_number("21474836470"), Err(Error::NumberParseFailure));
    assert_eq!(parse_number("99999999999999999999999999999999"), Err(Error::NumberParseFailure));
}

#[test]
fn parse_number_rejects_what_is_no_digit_run() {
    for text in ["", " ", "+", "-", "+5", "-5", "1 ", " 1", "1_000", "12a", "a12", "1.5", "0x10", "\u{663}", "1\u{663}"] {
        assert_eq!(parse_number(text), Err(Error::NumberParseFailure), "text {:?}", text);
    }
}

#[test]
fn parse_number_rejects_bad_character_after_overflow() {
    assert_eq!(parse_number("99999999999x"), Err(Error::NumberParseFailure));
}
