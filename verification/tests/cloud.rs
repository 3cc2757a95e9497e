use voice_dictation::transcribe::cloud::{
    backoff_ms, check_api_key, finish_text, groq_endpoint, on_response, CloudError, CloudStep, GroqRequest,
    MAX_RETRIES,
};

fn request<'a>(language: Option<&'a str>, prompt: Option<&'a str>) -> GroqRequest<'a> {
    GroqRequest { api_key: "k", model: "whisper-large-v3-turbo", language, initial_prompt: prompt, wav_bytes: vec![] }
}

fn fields(r: &GroqRequest) -> Vec<(String, String)> {
    r.form_fields()
}

fn pair(a: &str, b: &str) -> (String, String) {
    (a.to_string(), b.to_string())
}

#[test]
fn missing_key_is_refused() {
    assert!(matches!(check_api_key(""), Err(CloudError::MissingApiKey)));
    assert!(matches!(check_api_key("  \t"), Err(CloudError::MissingApiKey)));
    assert!(check_api_key(" gsk_123 ").is_ok());
}

#[test]
fn form_fields_include_language_and_prompt_when_given() {
    let base = vec![
        pair("model", "whisper-large-v3-turbo"),
        pair("temperature", "0.0"),
        pair("response_format", "json"),
    ];
    assert_eq!(fields(&request(None, None)), base);
    assert_eq!(fields(&request(Some("auto"), Some(""))), base);
    let mut full = base.clone();
    full.push(pair("language", "zh"));
    full.push(pair("prompt", "hint"));
    assert_eq!(fields(&request(Some("zh"), Some("hint"))), full);
}

#[test]
fn backoff_doubles() {
    assert_eq!(backoff_ms(0), 500);
    assert_eq!(backoff_ms(1), 1000);
    assert_eq!(backoff_ms(2), 2000);
}

#[test]
fn rate_limit_is_retried_three_times() {
    assert_eq!(on_response(0, 429, None), CloudStep::Retry { wait_ms: 500 });
    assert_eq!(on_response(1, 429, Some(3000)), CloudStep::Retry { wait_ms: 3000 });
    assert_eq!(on_response(2, 429, None), CloudStep::Retry { wait_ms: 2000 });
    assert_eq!(on_response(MAX_RETRIES, 429, None), CloudStep::GiveUp);
}

#[test]
fn statuses() {
    assert_eq!(on_response(0, 200, None), CloudStep::Accept);
    assert_eq!(on_response(0, 204, None), CloudStep::Accept);
    assert_eq!(on_response(0, 401, None), CloudStep::Reject { status: 401 });
    assert_eq!(on_response(0, 500, Some(1)), CloudStep::Reject { status: 500 });
    assert_eq!(on_response(0, 302, None), CloudStep::Reject { status: 302 });
}

#[test]
fn returned_text_is_trimmed() {
    assert_eq!(finish_text(" 你好，世界 \n"), "你好，世界");
    assert_eq!(groq_endpoint(), "https://api.groq.com/openai/v1/audio/transcriptions");
}
