use scrobblist::text::{
    i64_to_string, is_blank, parse_i64, parse_u32, parse_u64, replace_first_exec, trim,
    u64_to_string, IntErrorKind,
};

#[test]
fn trim_removes_ascii_and_unicode_whitespace() {
    assert_eq!(trim("  a b \t\n"), "a b");
    assert_eq!(trim("\u{3000}x\u{a0}\u{2028}"), "x");
    assert_eq!(trim(""), "");
    assert_eq!(trim(" \t "), "");
    assert_eq!(trim("a"), "a");
}

#[test]
fn blank_text() {
    assert!(is_blank(""));
    assert!(is_blank(" \r\n\t\u{85}"));
    assert!(!is_blank(" x "));
}

#[test]
fn replace_first_replaces_only_the_first_occurrence() {
    assert_eq!(replace_first_exec("http://a/http://b", "http://", "https://"), "https://a/http://b");
    assert_eq!(replace_first_exec("x http://y", "http://", "https://"), "x https://y");
    assert_eq!(replace_first_exec("https://y", "http://", "https://"), "https://y");
    assert_eq!(replace_first_exec("abc", "", "-"), "-abc");
    assert_eq!(replace_first_exec("ab", "abc", "-"), "ab");
}

#[test]
fn decimal_rendering() {
    assert_eq!(u64_to_string(0), "0");
    assert_eq!(u64_to_string(1234567890), "1234567890");
    assert_eq!(u64_to_string(u64::MAX), "18446744073709551615");
    assert_eq!(i64_to_string(-42), "-42");
    assert_eq!(i64_to_string(i64::MIN), "-9223372036854775808");
    assert_eq!(i64_to_string(i64::MAX), "9223372036854775807");
}

#[test]
fn unsigned_parsing_follows_the_standard_parser() {
    assert_eq!(parse_u64("42"), Ok(42));
    assert_eq!(parse_u64("+42"), Ok(42));
    assert_eq!(parse_u64("007"), Ok(7));
    assert_eq!(parse_u64(""), Err(IntErrorKind::Empty));
    assert_eq!(parse_u64("+"), Err(IntErrorKind::InvalidDigit));
    assert_eq!(parse_u64("-"), Err(IntErrorKind::InvalidDigit));
    assert_eq!(parse_u64("-5"), Err(IntErrorKind::InvalidDigit));
    assert_eq!(parse_u64("12a"), Err(IntErrorKind::InvalidDigit));
    assert_eq!(parse_u64(" 1"), Err(IntErrorKind::InvalidDigit));
    assert_eq!(parse_u64("18446744073709551615"), Ok(u64::MAX));
    assert_eq!(parse_u64("18446744073709551616"), Err(IntErrorKind::PosOverflow));
    assert_eq!(parse_u64("99999999999999999999x"), Err(IntErrorKind::PosOverflow));
    assert_eq!(parse_u32("4294967295"), Ok(u32::MAX));
    assert_eq!(parse_u32("4294967296"), Err(IntErrorKind::PosOverflow));
    for s in ["", "+", "-5", "12a", "18446744073709551616", "99999999999999999999x", "0"] {
        let expected = s.parse::<u64>().map_err(|e| e.to_string());
        let got = parse_u64(s).map_err(|k| k.message());
        assert_eq!(got, expected, "input {:?}", s);
    }
}

#[test]
fn signed_parsing_follows_the_standard_parser() {
    assert_eq!(parse_i64("-9223372036854775808"), Ok(i64::MIN));
    assert_eq!(parse_i64("9223372036854775807"), Ok(i64::MAX));
    assert_eq!(parse_i64("+12"), Ok(12));
    assert_eq!(parse_i64("-9223372036854775809"), Err(IntErrorKind::NegOverflow));
    assert_eq!(parse_i64("9223372036854775808"), Err(IntErrorKind::PosOverflow));
    assert_eq!(parse_i64("-"), Err(IntErrorKind::InvalidDigit));
    assert_eq!(parse_i64("--1"), Err(IntErrorKind::InvalidDigit));
    for s in ["", "-", "+", "-12", "1e3", "-9223372036854775809", "9223372036854775808"] {
        let expected = s.parse::<i64>().map_err(|e| e.to_string());
        let got = parse_i64(s).map_err(|k| k.message());
        assert_eq!(got, expected, "input {:?}", s);
    }
}

#[test]
fn rendered_numbers_parse_back() {
    for n in [0u64, 9, 10, 99, 100, 65535, u32::MAX as u64, u64::MAX] {
        assert_eq!(parse_u64(&u64_to_string(n)), Ok(n));
    }
    for n in [0i64, -1, 1, i64::MIN, i64::MAX, -604800] {
        assert_eq!(parse_i64(&i64_to_string(n)), Ok(n));
    }
}
