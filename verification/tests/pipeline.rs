use voice_dictation::dictionary::DictRule;
use voice_dictation::pipeline::{mode_of, Engine, Mode, Session, SessionStep};
use voice_dictation::settings::AppSettings;

fn settings(mode: &str, language: &str) -> AppSettings {
    let mut s = AppSettings::default();
    s.mode = mode.to_string();
    s.language = language.to_string();
    s.dictionary = vec![DictRule {
        from: "type script".to_string(),
        to: "TypeScript".to_string(),
        case_insensitive: false,
        enabled: true,
    }];
    s
}

#[test]
fn modes() {
    assert_eq!(mode_of("local"), Mode::Local);
    assert_eq!(mode_of("auto"), Mode::Auto);
    assert_eq!(mode_of("cloud"), Mode::Cloud);
    assert_eq!(mode_of("whatever"), Mode::Cloud);
}

#[test]
fn short_or_silent_recordings_are_discarded() {
    let s = settings("cloud", "auto");
    match Session::begin(&s, true, true, true) {
        (None, SessionStep::Discard { status }) => assert_eq!(status, "too short — discarded"),
        _ => panic!("expected a discard"),
    }
    match Session::begin(&s, false, true, true) {
        (None, SessionStep::Discard { status }) => assert_eq!(status, "silence — discarded"),
        _ => panic!("expected a discard"),
    }
}

#[test]
fn local_mode_starts_local() {
    let s = settings("local", "en");
    let (session, step) = Session::begin(&s, false, false, true);
    let session = session.unwrap();
    assert!(matches!(step, SessionStep::Transcribe { engine: Engine::Local, fallback: false }));
    assert_eq!(session.language, Some("en".to_string()));
    assert_eq!(session.prompt, None);
}

#[test]
fn auto_mode_falls_back_to_cloud_once() {
    let s = settings("auto", "auto");
    let (session, step) = Session::begin(&s, false, false, true);
    let mut session = session.unwrap();
    assert!(matches!(step, SessionStep::Transcribe { engine: Engine::Local, fallback: false }));
    assert_eq!(session.language, None);
    assert_eq!(session.prompt, Some("以下是普通话的句子。".to_string()));
    let step = session.on_result(&s, Err("model missing".to_string()));
    assert!(matches!(step, SessionStep::Transcribe { engine: Engine::Cloud, fallback: true }));
    match session.on_result(&s, Err("network down".to_string())) {
        SessionStep::Fail { error } => assert_eq!(error, "network down"),
        _ => panic!("a cloud failure after the fallback ends the dictation"),
    }
}

#[test]
fn auto_mode_delivers_from_the_cloud_after_fallback() {
    let s = settings("auto", "en");
    let (session, _) = Session::begin(&s, false, false, false);
    let mut session = session.unwrap();
    let _ = session.on_result(&s, Err("model missing".to_string()));
    match session.on_result(&s, Ok("hello".to_string())) {
        SessionStep::Deliver(d) => {
            let h = d.history.unwrap();
            assert_eq!(h.mode, "cloud");
            assert_eq!(h.model, "whisper-large-v3-turbo");
        }
        _ => panic!("expected delivery"),
    }
}

#[test]
fn cloud_mode_does_not_fall_back() {
    let s = settings("cloud", "zh");
    let (session, _) = Session::begin(&s, false, false, false);
    let mut session = session.unwrap();
    match session.on_result(&s, Err("HTTP 500".to_string())) {
        SessionStep::Fail { error } => assert_eq!(error, "HTTP 500"),
        _ => panic!("expected failure"),
    }
}

#[test]
fn text_is_simplified_then_rewritten() {
    let s = settings("cloud", "zh");
    let (session, _) = Session::begin(&s, false, false, true);
    let mut session = session.unwrap();
    match session.on_result(&s, Ok("這個 type script 檔案".to_string())) {
        SessionStep::Deliver(d) => {
            assert_eq!(d.text, "这个 TypeScript 档案");
            assert!(d.inject);
            let h = d.history.unwrap();
            assert_eq!(h.mode, "cloud");
            assert_eq!(h.model, "whisper-large-v3-turbo");
            assert_eq!(h.language, Some("zh".to_string()));
            assert_eq!(h.text, "这个 TypeScript 档案");
        },
        _ => panic!("expected a delivery"),
    }
}

#[test]
fn empty_text_is_neither_recorded_nor_injected() {
    let s = settings("local", "auto");
    let (session, _) = Session::begin(&s, false, false, true);
    let mut session = session.unwrap();
    match session.on_result(&s, Ok(String::new())) {
        SessionStep::Deliver(d) => {
            assert_eq!(d.text, "");
            assert!(!d.inject);
            assert!(d.history.is_none());
        },
        _ => panic!("expected a delivery"),
    }
}

#[test]
fn local_results_name_the_local_model() {
    let s = settings("local", "auto");
    let (session, _) = Session::begin(&s, false, false, false);
    let mut session = session.unwrap();
    match session.on_result(&s, Ok("hello".to_string())) {
        SessionStep::Deliver(d) => {
            assert!(!d.inject);
            let h = d.history.unwrap();
            assert_eq!(h.mode, "local");
            assert_eq!(h.model, "large-v3-turbo-q5_0");
            assert_eq!(h.language, None);
        },
        _ => panic!("expected a delivery"),
    }
}
