use voice_dictation::settings::{
    default_cloud_model, default_hotkey, default_inject_strategy, default_language, default_local_model,
    default_mode, initial_prompt, language_option, language_param, prompt_param, AppSettings,
};

#[test]
fn defaults() {
    let s = AppSettings::default();
    assert_eq!(s.groq_api_key, "");
    assert_eq!(s.mode, "local");
    assert_eq!(s.cloud_model, "whisper-large-v3-turbo");
    assert_eq!(s.local_model, "large-v3-turbo-q5_0");
    assert_eq!(s.language, "auto");
    assert_eq!(s.hotkey, "Alt+Space");
    assert_eq!(s.inject_strategy, "clipboard");
    assert!(s.dictionary.is_empty());
    assert_eq!(default_mode(), "local");
    assert_eq!(default_cloud_model(), "whisper-large-v3-turbo");
    assert_eq!(default_local_model(), "large-v3-turbo-q5_0");
    assert_eq!(default_language(), "auto");
    assert_eq!(default_hotkey(), "Alt+Space");
    assert_eq!(default_inject_strategy(), "clipboard");
}

#[test]
fn auto_or_empty_language_means_detection() {
    assert_eq!(language_option("auto"), None);
    assert_eq!(language_option(""), None);
    assert_eq!(language_option("zh"), Some("zh".to_string()));
}

#[test]
fn prompt_depends_on_language() {
    let hint = Some("以下是普通话的句子。".to_string());
    assert_eq!(initial_prompt(Some("zh")), hint);
    assert_eq!(initial_prompt(Some("en")), None);
    assert_eq!(initial_prompt(Some("ja")), hint);
    assert_eq!(initial_prompt(None), hint);
}

#[test]
fn recogniser_parameters_filter_placeholders() {
    assert_eq!(language_param(Some("auto")), None);
    assert_eq!(language_param(Some("")), None);
    assert_eq!(language_param(Some("en")), Some("en"));
    assert_eq!(language_param(None), None);
    assert_eq!(prompt_param(Some("")), None);
    assert_eq!(prompt_param(Some("p")), Some("p"));
    assert_eq!(prompt_param(None), None);
}
