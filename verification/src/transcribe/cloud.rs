//! The request sent to the cloud recogniser and the policy applied to its
//! answers: a missing key is refused before sending, rate limiting is retried
//! with backoff a bounded number of times, and the returned text is trimmed.
use vstd::prelude::*;

use crate::settings::{language_param, language_param_spec, opt_view, prompt_param, prompt_param_spec};
use crate::text::{blank, is_blank, owned, trim, trimmed};

verus! {

/// The endpoint the audio is posted to.
pub open spec fn groq_url() -> Seq<char> {
    "https://api.groq.com/openai/v1/audio/transcriptions"@
}

/// The endpoint as a string.
pub fn groq_endpoint() -> (s: String)
    ensures
        s@ == groq_url(),
{
    owned("https://api.groq.com/openai/v1/audio/transcriptions")
}

/// A transcription request: credentials, model, optional language and prompt,
/// and the audio as a WAV file.
pub struct GroqRequest<'a> {
    pub api_key: &'a str,
    pub model: &'a str,
    pub language: Option<&'a str>,
    pub initial_prompt: Option<&'a str>,
    pub wav_bytes: Vec<u8>,
}

/// Why a cloud transcription failed.
pub enum CloudError {
    /// No API key is configured (or only white space).
    MissingApiKey,
    /// The service kept answering 429 after every retry.
    RateLimited,
    /// The service answered with this unsuccessful status.
    Http(u16),
}

/// Refuses a request without a usable API key.
pub fn check_api_key(api_key: &str) -> (r: Result<(), CloudError>)
    ensures
        r is Ok <==> !is_blank(api_key@),
        r matches Err(e) ==> e is MissingApiKey,
{
    if blank(api_key) {
        Err(CloudError::MissingApiKey)
    } else {
        Ok(())
    }
}

/// The text fields of the multipart form: model, temperature, response
/// format, then the language when one is requested and the prompt when it is
/// not empty. The audio file part is added beside them.
pub open spec fn form_fields_spec(
    model: Seq<char>,
    language: Option<Seq<char>>,
    prompt: Option<Seq<char>>,
) -> Seq<(Seq<char>, Seq<char>)> {
    let base = seq![("model"@, model), ("temperature"@, "0.0"@), ("response_format"@, "json"@)];
    let with_language = match language_param_spec(language) {
        Some(l) => base.push(("language"@, l)),
        None => base,
    };
    match prompt_param_spec(prompt) {
        Some(p) => with_language.push(("prompt"@, p)),
        None => with_language,
    }
}

/// The characters of a list of string pairs.
pub open spec fn pairs_view(v: Seq<(String, String)>) -> Seq<(Seq<char>, Seq<char>)> {
    v.map_values(|p: (String, String)| (p.0@, p.1@))
}

impl<'a> GroqRequest<'a> {
    /// The text fields of the form for this request.
    pub fn form_fields(&self) -> (out: Vec<(String, String)>)
        ensures
            pairs_view(out@) == form_fields_spec(self.model@, opt_view(self.language), opt_view(self.initial_prompt)),
    {
        let mut out: Vec<(String, String)> = Vec::new();
        out.push((owned("model"), owned(self.model)));
        out.push((owned("temperature"), owned("0.0")));
        out.push((owned("response_format"), owned("json")));
        let ghost base = out@;
        match language_param(self.language) {
            Some(l) => out.push((owned("language"), owned(l))),
            None => {},
        }
        let ghost with_language = out@;
        match prompt_param(self.initial_prompt) {
            Some(p) => out.push((owned("prompt"), owned(p))),
            None => {},
        }
        assert(pairs_view(out@) =~= form_fields_spec(self.model@, opt_view(self.language), opt_view(self.initial_prompt)));
        out
    }
}

/// Whether the list holds the field `key` with the value `value`.
pub open spec fn has_field(fields: Seq<(Seq<char>, Seq<char>)>, key: Seq<char>, value: Seq<char>) -> bool {
    exists|i: int| 0 <= i < fields.len() && fields[i] == (key, value)
}

/// The form starts with the model, a temperature of 0.0 and the JSON
/// response format. It holds a language field with value `l` exactly when
/// the requested language is `l` and `l` is neither "auto" nor empty,
/// whatever the prompt; it holds a prompt field with value `p` exactly when
/// the prompt is `p` and `p` is not empty, whatever the language.
pub proof fn law_form_fields(model: Seq<char>, language: Option<Seq<char>>, prompt: Option<Seq<char>>, v: Seq<char>)
    ensures
        form_fields_spec(model, language, prompt).len() >= 3,
        form_fields_spec(model, language, prompt)[0] == ("model"@, model),
        form_fields_spec(model, language, prompt)[1] == ("temperature"@, "0.0"@),
        form_fields_spec(model, language, prompt)[2] == ("response_format"@, "json"@),
        has_field(form_fields_spec(model, language, prompt), "language"@, v)
            <==> (language == Some(v) && v != "auto"@ && v.len() > 0),
        has_field(form_fields_spec(model, language, prompt), "prompt"@, v)
            <==> (prompt == Some(v) && v.len() > 0),
{
    reveal_strlit("model");
    reveal_strlit("temperature");
    reveal_strlit("response_format");
    reveal_strlit("language");
    reveal_strlit("prompt");
    assert("language"@[0] != "model"@[0]);
    assert("language"@[0] != "temperature"@[0]);
    assert("language"@[0] != "response_format"@[0]);
    assert("language"@[0] != "prompt"@[0]);
    assert("prompt"@[0] != "model"@[0]);
    assert("prompt"@[0] != "temperature"@[0]);
    assert("prompt"@[0] != "response_format"@[0]);
    let f = form_fields_spec(model, language, prompt);
    if language == Some(v) && v != "auto"@ && v.len() > 0 {
        assert(f[3] == ("language"@, v));
    }
    if prompt == Some(v) && v.len() > 0 {
        assert(f[f.len() - 1] == ("prompt"@, v));
    }
}

/// How many times a rate-limited request is retried.
pub const MAX_RETRIES: u32 = 3;

/// The wait before retry number `attempt` when the service gives none:
/// 500 ms, doubled for each earlier retry.
pub open spec fn backoff_spec(attempt: nat) -> nat
    decreases attempt,
{
    if attempt == 0 {
        500
    } else {
        2 * backoff_spec((attempt - 1) as nat)
    }
}

/// The backoff in milliseconds (500, 1000, 2000 for the three retries).
pub fn backoff_ms(attempt: u32) -> (ms: u64)
    requires
        attempt < MAX_RETRIES,
    ensures
        ms == backoff_spec(attempt as nat),
{
    let mut ms: u64 = 500;
    let mut k: u32 = 0;
    while k < attempt
        invariant
            k <= attempt < MAX_RETRIES,
            ms == backoff_spec(k as nat),
            k == 0 ==> ms == 500,
            k == 1 ==> ms == 1000,
            k == 2 ==> ms == 2000,
        decreases attempt - k,
    {
        ms = ms * 2;
        k += 1;
    }
    ms
}

/// What to do with a response.
#[derive(PartialEq, Eq, Structural, Clone, Copy, Debug)]
pub enum CloudStep {
    /// Rate limited: wait this long, then send again with `attempt + 1`.
    Retry { wait_ms: u64 },
    /// Rate limited and no retries left.
    GiveUp,
    /// An unsuccessful status other than 429.
    Reject { status: u16 },
    /// A successful status: read the JSON body.
    Accept,
}

/// The decision for a response with `status` on retry number `attempt`: 429
/// is retried, waiting as long as the service asked (when it said) or the
/// backoff, until `MAX_RETRIES` retries were made; other statuses outside
/// 200..=299 are rejected; the rest are accepted.
pub open spec fn step_spec(attempt: u32, status: u16, retry_after_ms: Option<u64>) -> CloudStep {
    if status == 429 {
        if attempt >= MAX_RETRIES {
            CloudStep::GiveUp
        } else {
            CloudStep::Retry {
                wait_ms: match retry_after_ms {
                    Some(w) => w,
                    None => backoff_spec(attempt as nat) as u64,
                },
            }
        }
    } else if status < 200 || status > 299 {
        CloudStep::Reject { status }
    } else {
        CloudStep::Accept
    }
}

/// Decides what a response leads to.
pub fn on_response(attempt: u32, status: u16, retry_after_ms: Option<u64>) -> (step: CloudStep)
    ensures
        step == step_spec(attempt, status, retry_after_ms),
{
    if status == 429 {
        if attempt >= MAX_RETRIES {
            CloudStep::GiveUp
        } else {
            let wait_ms = match retry_after_ms {
                Some(w) => w,
                None => backoff_ms(attempt),
            };
            CloudStep::Retry { wait_ms }
        }
    } else if status < 200 || status > 299 {
        CloudStep::Reject { status }
    } else {
        CloudStep::Accept
    }
}

/// The transcription the service returned, without surrounding white space.
pub fn finish_text(text: &str) -> (out: String)
    ensures
        out@ == trimmed(text@),
{
    trim(text)
}

/// Rate limiting is retried at most `MAX_RETRIES` times: from the attempt
/// that has used them all, a 429 gives up whatever the service asks.
pub proof fn law_retries_bounded(attempt: u32, retry_after_ms: Option<u64>)
    requires
        attempt >= MAX_RETRIES,
    ensures
        step_spec(attempt, 429, retry_after_ms) == CloudStep::GiveUp,
{
}

/// Without a wait from the service, each retry waits twice as long as the
/// one before.
pub proof fn law_backoff_doubles(attempt: nat)
    ensures
        backoff_spec(attempt + 1) == 2 * backoff_spec(attempt),
{
}

} // verus!
