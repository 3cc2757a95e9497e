//! How transcribed text reaches the focused window.
use vstd::prelude::*;

use crate::text::str_eq;

verus! {

/// Texts longer than this many characters always go through the clipboard.
pub const LONG_TEXT_THRESHOLD: usize = 500;

/// The way text is delivered.
#[derive(PartialEq, Eq, Structural, Clone, Copy, Debug)]
pub enum InjectMethod {
    /// Empty text: nothing is delivered and the clipboard is not touched.
    Nothing,
    /// Put the text on the clipboard, send Ctrl+V, restore the clipboard.
    Clipboard,
    /// Type the text key by key.
    Keystroke,
}

/// The method chosen for `text` under the configured `strategy`: nothing for
/// empty text; the clipboard for long text whatever the setting; keystrokes
/// only when the strategy is exactly "keystroke"; the clipboard otherwise.
pub open spec fn inject_method(text: Seq<char>, strategy: Seq<char>) -> InjectMethod {
    if text.len() == 0 {
        InjectMethod::Nothing
    } else if text.len() > LONG_TEXT_THRESHOLD || strategy != "keystroke"@ {
        InjectMethod::Clipboard
    } else {
        InjectMethod::Keystroke
    }
}

/// Nothing is injected exactly when the text is empty. Keystrokes are used
/// only when the strategy is exactly "keystroke" and the text is not longer
/// than `LONG_TEXT_THRESHOLD` characters, and then always. Every other
/// non-empty text, in particular every text longer than the threshold, goes
/// through the clipboard.
pub proof fn law_inject_method(text: Seq<char>, strategy: Seq<char>)
    ensures
        (inject_method(text, strategy) == InjectMethod::Nothing) <==> text.len() == 0,
        (inject_method(text, strategy) == InjectMethod::Keystroke)
            <==> (0 < text.len() <= LONG_TEXT_THRESHOLD && strategy == "keystroke"@),
        text.len() > LONG_TEXT_THRESHOLD ==> inject_method(text, strategy) == InjectMethod::Clipboard,
        (text.len() > 0 && strategy != "keystroke"@) ==> inject_method(text, strategy) == InjectMethod::Clipboard,
{
}

/// Decides how `text` is injected under `strategy`.
pub fn inject(text: &str, strategy: &str) -> (m: InjectMethod)
    ensures
        m == inject_method(text@, strategy@),
{
    if text.is_empty() {
        return InjectMethod::Nothing;
    }
    let force_clipboard = text.unicode_len() > LONG_TEXT_THRESHOLD;
    let use_clipboard = force_clipboard || !str_eq(strategy, "keystroke");
    if use_clipboard {
        InjectMethod::Clipboard
    } else {
        InjectMethod::Keystroke
    }
}

} // verus!
