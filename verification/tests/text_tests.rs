use easyvietsub::text::{parse_u64_str, trim_string, IntParseError};

#[test]
fn parse_follows_std() {
    for s in ["0", "42", "+7", "007", "18446744073709551615"] {
        assert_eq!(parse_u64_str(s), Ok(s.parse::<u64>().unwrap()));
    }
    assert_eq!(parse_u64_str(""), Err(IntParseError::Empty));
    assert_eq!(parse_u64_str("+"), Err(IntParseError::InvalidDigit));
    assert_eq!(parse_u64_str("-1"), Err(IntParseError::InvalidDigit));
    assert_eq!(parse_u64_str("1 "), Err(IntParseError::InvalidDigit));
    assert_eq!(parse_u64_str("18446744073709551616"), Err(IntParseError::PosOverflow));
    assert_eq!(parse_u64_str("99999999999999999999x"), Err(IntParseError::PosOverflow));
}

#[test]
fn trim_follows_std() {
    for s in ["  a b  ", "\t\n x \u{3000}", "", "   ", "\u{a0}y\u{85}"] {
        assert_eq!(trim_string(s), s.trim());
    }
}
