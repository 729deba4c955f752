//! Tests for the verified text helpers.
use hltv::data::Decimal;
use hltv::strutil::{has_token, parse_decimal, parse_i64, parse_u32, split_nth, str_eq, u32_to_dec};

#[test]
pub fn parse_u32_basics() {
    assert_eq!(parse_u32("0"), Some(0));
    assert_eq!(parse_u32("2346065"), Some(2346065));
    assert_eq!(parse_u32("4294967295"), Some(u32::MAX));
    assert_eq!(parse_u32("4294967296"), None);
    assert_eq!(parse_u32(""), None);
    assert_eq!(parse_u32("12a"), None);
    assert_eq!(parse_u32("-1"), None);
}

#[test]
pub fn parse_i64_basics() {
    assert_eq!(parse_i64("1611415800000"), Some(1611415800000));
    assert_eq!(parse_i64("-42"), Some(-42));
    assert_eq!(parse_i64("-"), None);
    assert_eq!(parse_i64("x"), None);
}

#[test]
pub fn parse_decimal_basics() {
    assert_eq!(parse_decimal("87.3"), Some(Decimal { hundredths: 8730 }));
    assert_eq!(parse_decimal("1.25"), Some(Decimal { hundredths: 125 }));
    assert_eq!(parse_decimal("70"), Some(Decimal { hundredths: 7000 }));
    assert_eq!(parse_decimal("0.9"), Some(Decimal { hundredths: 90 }));
    assert_eq!(parse_decimal("12."), Some(Decimal { hundredths: 1200 }));
    assert_eq!(parse_decimal(".5"), None);
    assert_eq!(parse_decimal("a.5"), None);
    assert_eq!(parse_decimal("1.2.3"), None);
}

#[test]
pub fn split_segments() {
    assert_eq!(split_nth("/matches/2346065/xyz", '/', 2), Some("2346065".to_string()));
    assert_eq!(split_nth("/matches/2346065/xyz", '/', 0), Some("".to_string()));
    assert_eq!(split_nth("/matches/2346065/xyz", '/', 1), Some("matches".to_string()));
    assert_eq!(split_nth("/matches", '/', 2), None);
    assert_eq!(split_nth("67-53", '-', 0), Some("67".to_string()));
    assert_eq!(split_nth("67-53", '-', 1), Some("53".to_string()));
    assert_eq!(split_nth("71.4%", '%', 0), Some("71.4".to_string()));
}

#[test]
pub fn token_membership() {
    assert!(has_token("first second", "first"));
    assert!(has_token("first second", "second"));
    assert!(!has_token("first second", "third"));
    assert!(!has_token("first second", "firs"));
    assert!(has_token("  spaced\ttokens  here ", "tokens"));
    assert!(!has_token("", "x"));
}

#[test]
pub fn string_equality_and_rendering() {
    assert!(str_eq("LIVE", "LIVE"));
    assert!(!str_eq("LIVE", "Match over"));
    assert_eq!(u32_to_dec(0), "0");
    assert_eq!(u32_to_dec(42), "42");
    assert_eq!(u32_to_dec(2346065), "2346065");
    assert_eq!(u32_to_dec(u32::MAX), "4294967295");
}
