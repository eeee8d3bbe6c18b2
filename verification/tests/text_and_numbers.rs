use invoice_tool::numbers::{decimal_string, parse_u32, zero_padded_string};
use invoice_tool::text::{
    chars_of, contains_str, find_chars, non_white_prefix, remove_char, rfind_chars,
    starts_with_str, trim,
};

#[test]
fn trim_removes_unicode_white_space_at_both_ends() {
    assert_eq!(trim("  \u{3000}abc d\t\n"), "abc d");
    assert_eq!(trim(" \u{a0} "), "");
    assert_eq!(trim("x"), "x");
}

#[test]
fn trim_twice_equals_trim_once() {
    let once = trim("\u{2003} 名称 \r\n");
    assert_eq!(trim(&once), once);
}

#[test]
fn contains_and_starts_with_follow_str() {
    assert!(contains_str("铁路电子客票", "铁路"));
    assert!(!contains_str("普通发票", "专用"));
    assert!(contains_str("abc", ""));
    assert!(starts_with_str("售 名称", "售"));
    assert!(!starts_with_str("购", "购买"));
}

#[test]
fn find_and_rfind_give_character_positions() {
    let hay = chars_of("a_20b_20c");
    let needle = chars_of("_20");
    assert_eq!(find_chars(&hay, &needle), Some(1));
    assert_eq!(rfind_chars(&hay, &needle), Some(5));
    assert_eq!(rfind_chars(&hay, &chars_of("x")), None);
    assert_eq!(find_chars(&chars_of("统一社会信用代码"), &chars_of("社会")), Some(2));
}

#[test]
fn non_white_prefix_skips_white_space_and_stops_at_limit() {
    assert_eq!(non_white_prefix(" a b\tc d ", 3), "abc");
    assert_eq!(non_white_prefix("  ", 10), "");
    assert_eq!(non_white_prefix("发 票", 40), "发票");
}

#[test]
fn remove_char_drops_every_comma() {
    assert_eq!(remove_char("1,234,567.89", ','), "1234567.89");
}

#[test]
fn parse_u32_matches_str_parse() {
    for s in ["0", "7", "09", "+12", "4294967295"] {
        assert_eq!(parse_u32(s), s.parse::<u32>().ok());
    }
    for s in ["", "+", "-1", "1a", "4294967296", "٣", "１２"] {
        assert_eq!(parse_u32(s), None);
        assert!(s.parse::<u32>().is_err());
    }
}

#[test]
fn zero_padding_matches_format() {
    assert_eq!(zero_padded_string(3, 2), format!("{:02}", 3));
    assert_eq!(zero_padded_string(12, 2), "12");
    assert_eq!(zero_padded_string(7, 3), "007");
    assert_eq!(zero_padded_string(1234, 3), "1234");
    assert_eq!(decimal_string(2024), "2024");
    assert_eq!(decimal_string(0), "0");
}

#[test]
fn zero_padded_text_parses_back() {
    for n in [0u32, 1, 9, 10, 31, 99] {
        let s = zero_padded_string(n as u64, 2);
        assert_eq!(parse_u32(&s), Some(n));
    }
}
