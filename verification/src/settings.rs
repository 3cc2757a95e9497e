//! The persisted settings, their defaults, and the per-recording choices
//! derived from them.
use vstd::prelude::*;

use crate::dictionary::DictRule;
use crate::text::{owned, str_eq};

verus! {

/// The user's settings.
pub struct AppSettings {
    pub groq_api_key: String,
    pub mode: String,
    pub cloud_model: String,
    pub local_model: String,
    pub language: String,
    pub hotkey: String,
    pub inject_strategy: String,
    pub dictionary: Vec<DictRule>,
}

/// Transcription runs on the device unless configured otherwise.
pub fn default_mode() -> (s: String)
    ensures
        s@ == "local"@,
{
    owned("local")
}

/// The cloud model used unless configured otherwise.
pub fn default_cloud_model() -> (s: String)
    ensures
        s@ == "whisper-large-v3-turbo"@,
{
    owned("whisper-large-v3-turbo")
}

/// The local model used unless configured otherwise.
pub fn default_local_model() -> (s: String)
    ensures
        s@ == "large-v3-turbo-q5_0"@,
{
    owned("large-v3-turbo-q5_0")
}

/// The language is detected unless configured otherwise.
pub fn default_language() -> (s: String)
    ensures
        s@ == "auto"@,
{
    owned("auto")
}

/// The push-to-talk key unless configured otherwise.
pub fn default_hotkey() -> (s: String)
    ensures
        s@ == "Alt+Space"@,
{
    owned("Alt+Space")
}

/// Text is injected through the clipboard unless configured otherwise.
pub fn default_inject_strategy() -> (s: String)
    ensures
        s@ == "clipboard"@,
{
    owned("clipboard")
}

impl Default for AppSettings {
    /// No API key, the default of every field, and an empty dictionary.
    fn default() -> (s: AppSettings)
        ensures
            s.groq_api_key@ == Seq::<char>::empty(),
            s.mode@ == "local"@,
            s.cloud_model@ == "whisper-large-v3-turbo"@,
            s.local_model@ == "large-v3-turbo-q5_0"@,
            s.language@ == "auto"@,
            s.hotkey@ == "Alt+Space"@,
            s.inject_strategy@ == "clipboard"@,
            s.dictionary@.len() == 0,
    {
        AppSettings {
            groq_api_key: String::new(),
            mode: default_mode(),
            cloud_model: default_cloud_model(),
            local_model: default_local_model(),
            language: default_language(),
            hotkey: default_hotkey(),
            inject_strategy: default_inject_strategy(),
            dictionary: Vec::new(),
        }
    }
}

/// The language to request: none when it is to be detected ("auto" or empty).
pub open spec fn requested_language(language: Seq<char>) -> Option<Seq<char>> {
    if language == "auto"@ || language.len() == 0 {
        None
    } else {
        Some(language)
    }
}

/// The configured language as a request parameter.
pub fn language_option(language: &str) -> (r: Option<String>)
    ensures
        match r {
            Some(l) => requested_language(language@) == Some(l@),
            None => requested_language(language@) is None,
        },
{
    if str_eq(language, "auto") || language.is_empty() {
        None
    } else {
        Some(owned(language))
    }
}

/// The hint given to the recogniser that the speech is Mandarin.
pub open spec fn mandarin_prompt() -> Seq<char> {
    "以下是普通话的句子。"@
}

/// The initial prompt for a requested language: none for English, the
/// Mandarin hint for Chinese and for every other or undetected language.
pub open spec fn prompt_for(language: Option<Seq<char>>) -> Option<Seq<char>> {
    match language {
        Some(l) => if l == "en"@ {
            None
        } else {
            Some(mandarin_prompt())
        },
        None => Some(mandarin_prompt()),
    }
}

/// The Mandarin hint as an owned string.
fn mandarin_hint() -> (s: String)
    ensures
        s@ == mandarin_prompt(),
{
    owned("以下是普通话的句子。")
}

/// Chooses the initial prompt for a requested language.
pub fn initial_prompt(language: Option<&str>) -> (r: Option<String>)
    ensures
        match r {
            Some(p) => prompt_for(opt_view(language)) == Some(p@),
            None => prompt_for(opt_view(language)) is None,
        },
{
    match language {
        Some(l) => {
            if str_eq(l, "zh") {
                proof {
                    reveal_strlit("zh");
                    reveal_strlit("en");
                    assert("zh"@[0] != "en"@[0]);
                }
                Some(mandarin_hint())
            } else if str_eq(l, "en") {
                None
            } else {
                Some(mandarin_hint())
            }
        },
        None => Some(mandarin_hint()),
    }
}

/// The characters of an optional string slice.
pub open spec fn opt_view(s: Option<&str>) -> Option<Seq<char>> {
    match s {
        Some(x) => Some(x@),
        None => None,
    }
}

/// A language passed to a recogniser is kept only when it names a language:
/// "auto" and the empty string mean detection.
pub open spec fn language_param_spec(language: Option<Seq<char>>) -> Option<Seq<char>> {
    match language {
        Some(l) => if l != "auto"@ && l.len() > 0 {
            Some(l)
        } else {
            None
        },
        None => None,
    }
}

/// Filters the language handed to a recogniser.
pub fn language_param(language: Option<&str>) -> (r: Option<&str>)
    ensures
        opt_view(r) == language_param_spec(opt_view(language)),
{
    match language {
        Some(l) => {
            if !str_eq(l, "auto") && !l.is_empty() {
                Some(l)
            } else {
                None
            }
        },
        None => None,
    }
}

/// A prompt handed to a recogniser is kept only when it is not empty.
pub open spec fn prompt_param_spec(prompt: Option<Seq<char>>) -> Option<Seq<char>> {
    match prompt {
        Some(p) => if p.len() > 0 {
            Some(p)
        } else {
            None
        },
        None => None,
    }
}

/// Filters the prompt handed to a recogniser.
pub fn prompt_param(prompt: Option<&str>) -> (r: Option<&str>)
    ensures
        opt_view(r) == prompt_param_spec(opt_view(prompt)),
{
    match prompt {
        Some(p) => {
            if !p.is_empty() {
                Some(p)
            } else {
                None
            }
        },
        None => None,
    }
}

} // verus!
