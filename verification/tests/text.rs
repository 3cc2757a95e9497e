use voice_dictation::text::{blank, chars_of, str_eq, string_from, trim};

#[test]
fn trim_removes_unicode_white_space() {
    assert_eq!(trim("  hello world \n"), "hello world");
    assert_eq!(trim("\u{3000}你好\u{a0}"), "你好");
    assert_eq!(trim("   "), "");
    assert_eq!(trim("a"), "a");
}

#[test]
fn blank_detects_white_space_only() {
    assert!(blank(""));
    assert!(blank(" \t\n"));
    assert!(!blank(" key "));
}

#[test]
fn chars_round_trip() {
    let v = chars_of("héllo 世界");
    assert_eq!(v.len(), 8);
    assert_eq!(string_from(&v), "héllo 世界");
}

#[test]
fn str_eq_compares_contents() {
    assert!(str_eq("abc", "abc"));
    assert!(!str_eq("abc", "abd"));
    assert!(!str_eq("abc", "ab"));
}

#[test]
fn white_space_characters() {
    for c in [' ', '\t', '\n', '\u{b}', '\u{c}', '\r', '\u{85}', '\u{a0}', '\u{1680}', '\u{2000}', '\u{200a}', '\u{2028}', '\u{2029}', '\u{202f}', '\u{205f}', '\u{3000}'] {
        assert!(voice_dictation::text::is_whitespace(c), "{c:?}");
    }
    for c in ['a', '\u{200b}', '\u{feff}', '\u{1}', '中', '\u{200c}'] {
        assert!(!voice_dictation::text::is_whitespace(c), "{c:?}");
    }
}
