use factorial_wasi::count::{parse_count, parse_count_bytes, InvalidInput};

#[test]
fn plain_number_is_read() {
    assert_eq!(parse_count(Some("5")), Ok(5));
    assert_eq!(parse_count(Some("20")), Ok(20));
    assert_eq!(parse_count(Some("0")), Ok(0));
}

#[test]
fn non_numeric_is_refused() {
    assert_eq!(parse_count(Some("abc")), Err(InvalidInput));
    assert_eq!(parse_count(Some("12a")), Err(InvalidInput));
    assert_eq!(parse_count(Some(" 5")), Err(InvalidInput));
}

#[test]
fn missing_argument_is_refused() {
    assert_eq!(parse_count(None), Err(InvalidInput));
}

#[test]
fn empty_text_is_refused() {
    assert_eq!(parse_count(Some("")), Err(InvalidInput));
    assert_eq!(parse_count(Some("+")), Err(InvalidInput));
}

#[test]
fn sign_and_leading_zeros() {
    assert_eq!(parse_count(Some("+7")), Ok(7));
    assert_eq!(parse_count(Some("007")), Ok(7));
    assert_eq!(parse_count(Some("-1")), Err(InvalidInput));
    assert_eq!(parse_count(Some("-0")), Err(InvalidInput));
    assert_eq!(parse_count(Some("++1")), Err(InvalidInput));
}

#[test]
fn range_of_u32() {
    assert_eq!(parse_count(Some("4294967295")), Ok(u32::MAX));
    assert_eq!(parse_count(Some("4294967296")), Err(InvalidInput));
    assert_eq!(parse_count(Some("99999999999999999999999")), Err(InvalidInput));
}

#[test]
fn agrees_with_std_parsing() {
    let cases = [
        "0", "1", "42", "+42", "0042", "", "+", "-", "-3", "abc", "4294967295",
        "4294967296", "18446744073709551616", "1_000", "1.5", "\u{663}",
    ];
    for text in cases {
        assert_eq!(
            parse_count_bytes(text.as_bytes()).ok(),
            text.parse::<u32>().ok(),
            "{}",
            text
        );
    }
}
