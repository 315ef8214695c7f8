use repo_saver::text::{
    decimal_text, padded_decimal_text, parse_u64, same_text, text_less, text_starts_with, trim,
};

#[test]
fn text_order_is_lexicographic_by_code_point() {
    assert!(text_less("rolled-00001", "rolled-00002"));
    assert!(!text_less("rolled-00002", "rolled-00001"));
    assert!(text_less("abc", "abcd"));
    assert!(!text_less("abc", "abc"));
    assert!(text_less("", "a"));
    assert!(text_less("pre-restore-9", "rolled-0"));
    assert!(text_less("Z", "a"));
    assert!(text_less("a", "\u{e9}"));
}

#[test]
fn text_prefix_and_equality() {
    assert!(text_starts_with("rolled-00001_00_00_00", "rolled-"));
    assert!(!text_starts_with("roll", "rolled-"));
    assert!(text_starts_with("anything", ""));
    assert!(same_text("MetaSave.es3", "MetaSave.es3"));
    assert!(!same_text("MetaSave.es3", "MetaSave.es"));
}

#[test]
fn decimal_formatting() {
    assert_eq!(decimal_text(0), "0");
    assert_eq!(decimal_text(7), "7");
    assert_eq!(decimal_text(1234), "1234");
    assert_eq!(decimal_text(u64::MAX as u128), "18446744073709551615");
    assert_eq!(padded_decimal_text(3, 5), "00003");
    assert_eq!(padded_decimal_text(0, 2), "00");
    assert_eq!(padded_decimal_text(123456, 5), "123456");
    assert_eq!(padded_decimal_text(59, 2), "59");
}

#[test]
fn trimming_removes_unicode_white_space() {
    assert_eq!(trim("  a b \t\n"), "a b");
    assert_eq!(trim("\u{3000}x\u{a0}"), "x");
    assert_eq!(trim("   "), "");
    assert_eq!(trim(""), "");
    assert_eq!(trim("x"), "x");
}

#[test]
fn parsing_u64_like_str_parse() {
    assert_eq!(parse_u64("42"), Some(42));
    assert_eq!(parse_u64("+7"), Some(7));
    assert_eq!(parse_u64("0003000"), Some(3000));
    assert_eq!(parse_u64("+"), None);
    assert_eq!(parse_u64(""), None);
    assert_eq!(parse_u64("-1"), None);
    assert_eq!(parse_u64("12a"), None);
    assert_eq!(parse_u64(" 1"), None);
    assert_eq!(parse_u64("18446744073709551615"), Some(u64::MAX));
    assert_eq!(parse_u64("18446744073709551616"), None);
    assert_eq!(parse_u64("99999999999999999999x"), None);
    for s in ["0", "1", "+12", "3000", "-0", "1_000", "٣"] {
        assert_eq!(parse_u64(s), s.parse::<u64>().ok());
    }
}

#[test]
fn trim_and_order_agree_with_std() {
    let samples = [
        "", " ", "a", " a", "a ", "\u{2009}x\u{2028}", "\u{200b}x", "\u{85}y\u{1680}",
        "mid dle", "\t\r\n", "ab", "abc", "b", "\u{e9}", "\u{10000}",
    ];
    for s in samples {
        assert_eq!(trim(s), s.trim(), "{s:?}");
        for t in samples {
            assert_eq!(text_less(s, t), s < t, "{s:?} {t:?}");
            assert_eq!(text_starts_with(s, t), s.starts_with(t), "{s:?} {t:?}");
        }
    }
}
