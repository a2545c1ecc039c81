use kaforge::text::{contains_str, int_to_string, is_blank_str, parse_int, to_ascii_lowercase, trim_str};

#[test]
fn trimming_unicode_whitespace() {
    assert_eq!(trim_str("  a b \t\n"), "a b");
    assert_eq!(trim_str("\u{3000}x\u{a0}"), "x");
    assert_eq!(trim_str(""), "");
    assert!(is_blank_str(" \u{2003} "));
    assert!(!is_blank_str(" . "));
}

#[test]
fn integers_as_text() {
    assert_eq!(int_to_string(0), "0");
    assert_eq!(int_to_string(-45), "-45");
    assert_eq!(int_to_string(i64::MIN), i64::MIN.to_string());
    assert_eq!(int_to_string(i64::MAX), i64::MAX.to_string());
}

#[test]
fn integer_parsing_follows_from_str() {
    let samples = ["", "+", "-", "0", "+7", "-7", "65535", "65536", "007", "1a", " 1", "-0", "4294967296"];
    for s in samples {
        assert_eq!(parse_int(s, false, 0, 65535), s.parse::<u16>().ok().map(i64::from), "u16 {s:?}");
        assert_eq!(
            parse_int(s, true, i32::MIN as i64, i32::MAX as i64),
            s.parse::<i32>().ok().map(i64::from),
            "i32 {s:?}"
        );
    }
}

#[test]
fn lowercase_and_contains() {
    assert_eq!(to_ascii_lowercase("AbC-Ä"), "abc-Ä");
    assert!(contains_str("hello", "ll"));
    assert!(contains_str("hello", ""));
    assert!(!contains_str("he", "hello"));
}
