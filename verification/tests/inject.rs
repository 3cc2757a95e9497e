use voice_dictation::inject::{inject, InjectMethod, LONG_TEXT_THRESHOLD};

#[test]
fn empty_text_injects_nothing() {
    assert_eq!(inject("", "keystroke"), InjectMethod::Nothing);
    assert_eq!(inject("", "clipboard"), InjectMethod::Nothing);
}

#[test]
fn keystroke_only_when_asked() {
    assert_eq!(inject("hello", "keystroke"), InjectMethod::Keystroke);
    assert_eq!(inject("hello", "clipboard"), InjectMethod::Clipboard);
    assert_eq!(inject("hello", "anything"), InjectMethod::Clipboard);
    assert_eq!(inject("hello", ""), InjectMethod::Clipboard);
}

#[test]
fn long_text_always_uses_clipboard() {
    let exactly = "a".repeat(LONG_TEXT_THRESHOLD);
    assert_eq!(inject(&exactly, "keystroke"), InjectMethod::Keystroke);
    let longer = "a".repeat(LONG_TEXT_THRESHOLD + 1);
    assert_eq!(inject(&longer, "keystroke"), InjectMethod::Clipboard);
}

#[test]
fn threshold_counts_characters_not_bytes() {
    let chinese = "中".repeat(400);
    assert!(chinese.len() > LONG_TEXT_THRESHOLD);
    assert_eq!(inject(&chinese, "keystroke"), InjectMethod::Keystroke);
}
