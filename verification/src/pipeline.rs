//! One dictation: what happens between releasing the hotkey and the text
//! arriving in the focused window. The caller performs each step (running a
//! recogniser, writing history, injecting) and feeds the outcome back.
use vstd::prelude::*;

use crate::dictionary::{apply, apply_rules};
use crate::settings::{initial_prompt, language_option, prompt_for, requested_language, AppSettings};
use crate::text::{owned, str_eq};

verus! {

/// What traditional-to-simplified conversion gives for a text.
pub uninterp spec fn simplified(s: Seq<char>) -> Seq<char>;

/// Whether a character takes three bytes in UTF-8.
pub open spec fn utf8_three_bytes(c: char) -> bool {
    '\u{800}' <= c && c <= '\u{ffff}'
}

/// `fast2s::convert`: converts traditional Chinese characters to simplified
/// ones, one character for one; characters that do not take three bytes in
/// UTF-8 (ASCII among them) are kept as they are.
#[verifier::external_body]
fn to_simplified(s: &str) -> (r: String)
    ensures
        r@ == simplified(s@),
        r@.len() == s@.len(),
        forall|i: int| 0 <= i < s@.len() && !utf8_three_bytes(#[trigger] s@[i]) ==> r@[i] == s@[i],
{
    fast2s::convert(s)
}

/// The configured transcription mode.
#[derive(PartialEq, Eq, Structural, Clone, Copy, Debug)]
pub enum Mode {
    /// On-device only.
    Local,
    /// On-device first, the cloud when the local model fails.
    Auto,
    /// The cloud only.
    Cloud,
}

/// "local" and "auto" select those modes; anything else means the cloud.
pub open spec fn mode_spec(s: Seq<char>) -> Mode {
    if s == "local"@ {
        Mode::Local
    } else if s == "auto"@ {
        Mode::Auto
    } else {
        Mode::Cloud
    }
}

/// Reads the configured mode.
pub fn mode_of(s: &str) -> (m: Mode)
    ensures
        m == mode_spec(s@),
{
    if str_eq(s, "local") {
        Mode::Local
    } else if str_eq(s, "auto") {
        Mode::Auto
    } else {
        Mode::Cloud
    }
}

/// A recogniser.
#[derive(PartialEq, Eq, Structural, Clone, Copy, Debug)]
pub enum Engine {
    Cloud,
    Local,
}

/// The row written to the history for a delivered transcription.
pub struct HistoryRecord {
    pub mode: String,
    pub model: String,
    pub language: Option<String>,
    pub text: String,
}

/// What becomes of the final text.
pub struct Delivery {
    pub text: String,
    pub history: Option<HistoryRecord>,
    pub inject: bool,
}

/// The next thing to do.
pub enum SessionStep {
    /// Drop the recording, report `status`, and end with an empty text.
    Discard { status: String },
    /// Run `engine` with the session's language and prompt; `fallback` marks
    /// a switch to the cloud after the local model failed.
    Transcribe { engine: Engine, fallback: bool },
    /// End with this error.
    Fail { error: String },
    /// Record, announce and possibly inject the text, then end with it.
    Deliver(Delivery),
}

/// A dictation in progress.
pub struct Session {
    pub mode: Mode,
    pub engine: Engine,
    pub inject_text: bool,
    pub language: Option<String>,
    pub prompt: Option<String>,
}

/// The status reported when a recording is too short to transcribe.
pub open spec fn too_short_status() -> Seq<char> {
    "too short — discarded"@
}

/// The status reported when a recording holds only silence.
pub open spec fn silence_status() -> Seq<char> {
    "silence — discarded"@
}

/// The characters of an optional string.
pub open spec fn opt_string_view(s: Option<String>) -> Option<Seq<char>> {
    match s {
        Some(x) => Some(x@),
        None => None,
    }
}

/// The mode name stored in the history for an engine.
pub open spec fn engine_name(e: Engine) -> Seq<char> {
    match e {
        Engine::Cloud => "cloud"@,
        Engine::Local => "local"@,
    }
}

/// The final text for a raw transcription: traditional characters simplified,
/// then the dictionary applied.
pub open spec fn final_text(raw: Seq<char>, settings: AppSettings) -> Seq<char> {
    apply_rules(simplified(raw), settings.dictionary@)
}

impl Session {
    /// Starts a dictation for a recording. Recordings too short (checked
    /// first) or silent are discarded without transcription. Otherwise the
    /// cloud is used in cloud mode and the local model first in the other
    /// modes, with the configured language (none when it is to be detected)
    /// and the prompt that goes with it.
    pub fn begin(settings: &AppSettings, too_short: bool, silent: bool, inject_text: bool) -> (r: (Option<Session>, SessionStep))
        ensures
            too_short ==> r.0 is None && (r.1 matches SessionStep::Discard { status } && status@ == too_short_status()),
            !too_short && silent ==> r.0 is None && (r.1 matches SessionStep::Discard { status } && status@ == silence_status()),
            !too_short && !silent ==> (r.0 matches Some(s) && {
                &&& s.mode == mode_spec(settings.mode@)
                &&& s.engine == (if s.mode == Mode::Cloud { Engine::Cloud } else { Engine::Local })
                &&& s.inject_text == inject_text
                &&& opt_string_view(s.language) == requested_language(settings.language@)
                &&& opt_string_view(s.prompt) == prompt_for(requested_language(settings.language@))
                &&& r.1 matches SessionStep::Transcribe { engine, fallback } && engine == s.engine && !fallback
            }),
    {
        if too_short {
            return (None, SessionStep::Discard { status: owned("too short — discarded") });
        }
        if silent {
            return (None, SessionStep::Discard { status: owned("silence — discarded") });
        }
        let language = language_option(settings.language.as_str());
        let prompt = match &language {
            Some(l) => initial_prompt(Some(l.as_str())),
            None => initial_prompt(None),
        };
        let mode = mode_of(settings.mode.as_str());
        let engine = match mode {
            Mode::Cloud => Engine::Cloud,
            _ => Engine::Local,
        };
        let session = Session { mode, engine, inject_text, language, prompt };
        (Some(session), SessionStep::Transcribe { engine, fallback: false })
    }

    /// Takes the outcome of the recogniser. A local failure in auto mode
    /// switches to the cloud; any other failure ends the dictation. A
    /// transcription is simplified, rewritten by the dictionary, recorded in
    /// the history when not empty, and injected when asked and not empty.
    pub fn on_result(&mut self, settings: &AppSettings, result: Result<String, String>) -> (step: SessionStep)
        ensures
            match result {
                Err(e) => if old(self).mode == Mode::Auto && old(self).engine == Engine::Local {
                    final(self).engine == Engine::Cloud
                        && (step matches SessionStep::Transcribe { engine, fallback } && engine == Engine::Cloud && fallback)
                } else {
                    final(self).engine == old(self).engine && (step matches SessionStep::Fail { error } && error == e)
                },
                Ok(raw) => final(self).engine == old(self).engine && (step matches SessionStep::Deliver(d) && {
                    &&& d.text@ == final_text(raw@, *settings)
                    &&& ((forall|i: int| 0 <= i < raw@.len() ==> !utf8_three_bytes(#[trigger] raw@[i]))
                        ==> d.text@ == apply_rules(raw@, settings.dictionary@))
                    &&& d.inject == (old(self).inject_text && d.text@.len() > 0)
                    &&& (d.text@.len() == 0 ==> d.history is None)
                    &&& (d.text@.len() > 0 ==> (d.history matches Some(h) && {
                        &&& h.mode@ == engine_name(old(self).engine)
                        &&& h.model@ == (if old(self).engine == Engine::Cloud { settings.cloud_model@ } else { settings.local_model@ })
                        &&& opt_string_view(h.language) == opt_string_view(old(self).language)
                        &&& h.text@ == d.text@
                    }))
                }),
            },
            final(self).mode == old(self).mode,
            final(self).inject_text == old(self).inject_text,
            final(self).language == old(self).language,
            final(self).prompt == old(self).prompt,
    {
        match result {
            Err(e) => {
                if self.mode == Mode::Auto && self.engine == Engine::Local {
                    self.engine = Engine::Cloud;
                    SessionStep::Transcribe { engine: Engine::Cloud, fallback: true }
                } else {
                    SessionStep::Fail { error: e }
                }
            },
            Ok(raw) => {
                let normalized = to_simplified(raw.as_str());
                proof {
                    if forall|i: int| 0 <= i < raw@.len() ==> !utf8_three_bytes(#[trigger] raw@[i]) {
                        assert(normalized@ =~= raw@);
                    }
                }
                let text = apply(normalized.as_str(), settings.dictionary.as_slice());
                let nonempty = !text.as_str().is_empty();
                let history = if nonempty {
                    let (mode, model) = match self.engine {
                        Engine::Cloud => (owned("cloud"), settings.cloud_model.clone()),
                        Engine::Local => (owned("local"), settings.local_model.clone()),
                    };
                    let language = match &self.language {
                        Some(l) => Some(l.clone()),
                        None => None,
                    };
                    Some(HistoryRecord { mode, model, language, text: text.clone() })
                } else {
                    None
                };
                let inject = self.inject_text && nonempty;
                SessionStep::Deliver(Delivery { text, history, inject })
            },
        }
    }
}

} // verus!
