use voice_dictation::transcribe::local::{join_segments, thread_count, LocalRequest, ModelCache, TARGET_RATE};

#[test]
fn cache_reloads_only_when_needed() {
    let mut c: ModelCache<u32> = ModelCache::new();
    assert!(c.needs_reload("small", "/m/ggml-small.bin"));
    assert!(c.context().is_none());
    c.store("small", "/m/ggml-small.bin", 7);
    assert!(!c.needs_reload("small", "/m/ggml-small.bin"));
    assert!(c.needs_reload("base", "/m/ggml-small.bin"));
    assert!(c.needs_reload("small", "/other/ggml-small.bin"));
    assert_eq!(c.context(), Some(&7));
    c.unload();
    assert!(c.needs_reload("small", "/m/ggml-small.bin"));
    assert!(c.context().is_none());
}

#[test]
fn threads_are_clamped() {
    assert_eq!(thread_count(None), 4);
    assert_eq!(thread_count(Some(0)), 1);
    assert_eq!(thread_count(Some(6)), 6);
    assert_eq!(thread_count(Some(32)), 8);
}

#[test]
fn segments_are_joined_and_trimmed() {
    let segs = vec![" 我等下要".to_string(), " commit ".to_string(), "然后 deploy ".to_string()];
    assert_eq!(join_segments(&segs), "我等下要 commit 然后 deploy");
    assert_eq!(join_segments(&vec![]), "");
}

#[test]
fn request_holds_its_fields() {
    let samples = [1i16, 2, 3];
    let r = LocalRequest {
        model_name: "tiny",
        model_path: "/m/ggml-tiny.bin",
        samples: &samples,
        sample_rate: TARGET_RATE,
        language: None,
        initial_prompt: Some("p"),
    };
    assert_eq!(r.samples.len(), 3);
    assert_eq!(r.sample_rate, 16000);
}

#[test]
fn cache_compares_paths_by_component() {
    let mut c: ModelCache<u32> = ModelCache::new();
    c.store("small", "/m/ggml-small.bin", 7);
    assert!(!c.needs_reload("small", "/m//ggml-small.bin"));
    assert!(!c.needs_reload("small", "/m/./ggml-small.bin"));
    assert!(c.needs_reload("small", "/m/ggml-base.bin"));
}

#[test]
fn storing_a_new_model_replaces_the_context() {
    let mut c: ModelCache<u32> = ModelCache::new();
    c.store("small", "/m/ggml-small.bin", 7);
    c.store("base", "/m/ggml-base.bin", 9);
    assert_eq!(c.context(), Some(&9));
    assert!(c.needs_reload("small", "/m/ggml-small.bin"));
}
