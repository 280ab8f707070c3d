use mybox::strings::{is_white_space_char, str_eq, str_trim, take_chars_string};

#[test]
fn trim_drops_ascii_and_unicode_whitespace() {
    assert_eq!(str_trim("  capture \t\n"), "capture");
    assert_eq!(str_trim("\u{3000}截图\u{2003}"), "截图");
    assert_eq!(str_trim("a b"), "a b");
}

#[test]
fn trim_of_blank_text_is_empty() {
    assert_eq!(str_trim(""), "");
    assert_eq!(str_trim(" \t\u{85}\u{a0} "), "");
}

#[test]
fn trim_agrees_with_std() {
    for s in ["", "x", "  x", "x  ", "\u{200b}x", "\u{feff} y ", "\r\n z\u{2029}"] {
        assert_eq!(str_trim(s), s.trim(), "input {s:?}");
    }
}

#[test]
fn whitespace_class_agrees_with_std() {
    for u in 0u32..0x3100 {
        if let Some(c) = char::from_u32(u) {
            assert_eq!(is_white_space_char(c), c.is_whitespace(), "code point {u:#x}");
        }
    }
}

#[test]
fn str_eq_compares_characters() {
    assert!(str_eq("capture.start", "capture.start"));
    assert!(!str_eq("capture.start", "capture.stop"));
    assert!(!str_eq("a", "ab"));
    assert!(str_eq("", ""));
    assert!(str_eq("截图", "截图"));
}

#[test]
fn take_chars_counts_characters_not_bytes() {
    assert_eq!(take_chars_string("截图工具", 2), "截图");
    assert_eq!(take_chars_string("ab", 5), "ab");
}
