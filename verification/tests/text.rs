use xray2surge::text::{
    decimal_string, parse_unsigned_text, split_trimmed_nonempty, text_contains, text_has_prefix,
    trim_str,
};

#[test]
fn trim_removes_unicode_white_space() {
    assert_eq!(trim_str("  a b \t\n"), "a b");
    assert_eq!(trim_str("\u{3000}名前\u{a0}"), "名前");
    assert_eq!(trim_str("   "), "");
    assert_eq!(trim_str(""), "");
}

#[test]
fn split_trims_and_drops_empty_pieces() {
    assert_eq!(split_trimmed_nonempty(" a , ,b,, ", ','), vec!["a".to_string(), "b".to_string()]);
    assert_eq!(split_trimmed_nonempty("", ','), Vec::<String>::new());
    assert_eq!(split_trimmed_nonempty("x\r\ny\n\n", '\n'), vec!["x".to_string(), "y".to_string()]);
}

#[test]
fn decimal_formatting() {
    assert_eq!(decimal_string(0), "0");
    assert_eq!(decimal_string(7), "7");
    assert_eq!(decimal_string(50001), "50001");
    assert_eq!(decimal_string(u64::MAX as u128), u64::MAX.to_string());
    assert_eq!(decimal_string(u128::MAX), u128::MAX.to_string());
}

#[test]
fn unsigned_parsing_follows_str_parse() {
    for s in ["0", "65535", "65536", "+12", "-1", "", "+", "1a", " 1", "007", "99999999999999999999"] {
        assert_eq!(parse_unsigned_text(s, 65535), s.parse::<u16>().ok().map(|v| v as u64), "{}", s);
        assert_eq!(parse_unsigned_text(s, u32::MAX as u64), s.parse::<u32>().ok().map(|v| v as u64), "{}", s);
    }
}

#[test]
fn contains_and_prefix() {
    assert!(text_contains("香港 01", "港"));
    assert!(text_contains("abc", ""));
    assert!(!text_contains("abc", "abcd"));
    assert!(text_has_prefix("vless://x", "vless://"));
    assert!(!text_has_prefix("vles", "vless://"));
}

#[test]
fn unsigned_parsing_up_to_u64() {
    assert_eq!(parse_unsigned_text("18446744073709551615", u64::MAX), Some(u64::MAX));
    assert_eq!(parse_unsigned_text("18446744073709551616", u64::MAX), None);
    assert_eq!(parse_unsigned_text("184467440737095516150", u64::MAX), None);
}
