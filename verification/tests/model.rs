use voice_dictation::transcribe::model::{
    begin_download, download_outcome, download_url, find, known_models, list_local, partial_filename,
    DownloadError, DownloadOutcome, DownloadProgress, DownloadRegistry, FileMeta, LocalModelStatus,
    PROGRESS_STEP,
};

#[test]
fn catalogue_and_lookup() {
    let models = known_models();
    assert_eq!(models.len(), 5);
    assert_eq!(models.iter().filter(|m| m.recommended).count(), 1);
    let m = find("small").unwrap();
    assert_eq!(m.filename, "ggml-small.bin");
    assert_eq!(m.size_mb, 466);
    assert!(find("large-v3-turbo-q5_0").unwrap().recommended);
    assert!(find("huge").is_none());
    assert!(find("").is_none());
}

#[test]
fn file_names_and_urls() {
    let m = find("tiny").unwrap();
    assert_eq!(
        download_url(&m),
        "https://huggingface.co/ggerganov/whisper.cpp/resolve/main/ggml-tiny.bin"
    );
    assert_eq!(partial_filename(&m), "ggml-tiny.bin.part");
}

#[test]
fn installation_status() {
    let m = find("base").unwrap();
    let s = LocalModelStatus::from_metadata(&m, Some(FileMeta { is_file: true, len: 10 }));
    assert!(s.installed);
    assert_eq!(s.size_on_disk, 10);
    let empty = LocalModelStatus::from_metadata(&m, Some(FileMeta { is_file: true, len: 0 }));
    assert!(!empty.installed);
    let dir = LocalModelStatus::from_metadata(&m, Some(FileMeta { is_file: false, len: 4096 }));
    assert!(!dir.installed);
    assert_eq!(dir.size_on_disk, 4096);
    let missing = LocalModelStatus::from_metadata(&m, None);
    assert!(!missing.installed);
    assert_eq!(missing.size_on_disk, 0);
    let all = list_local(&vec![None, Some(FileMeta { is_file: true, len: 5 }), None, None, None]);
    assert_eq!(all.len(), 5);
    assert_eq!(all[1].name, "base");
    assert!(all[1].installed);
    assert!(!all[0].installed);
}

#[test]
fn registry_allows_one_download_per_model() {
    let mut r = DownloadRegistry::new();
    assert!(!r.is_active("tiny"));
    assert!(r.start("tiny").is_ok());
    assert!(r.is_active("tiny"));
    assert!(matches!(r.start("tiny"), Err(DownloadError::AlreadyInProgress)));
    assert!(r.start("base").is_ok());
    assert!(!r.finish("tiny"));
    assert!(!r.is_active("tiny"));
    assert!(r.is_active("base"));
    assert!(r.start("tiny").is_ok());
}

#[test]
fn registry_cancellation() {
    let mut r = DownloadRegistry::new();
    assert!(!r.cancel("small"));
    assert!(r.start("small").is_ok());
    assert!(!r.is_canceled("small"));
    assert!(r.cancel("small"));
    assert!(r.is_canceled("small"));
    assert!(r.is_active("small"));
    assert!(r.finish("small"));
    assert!(!r.is_active("small"));
    assert!(!r.is_canceled("small"));
    assert!(!r.finish("small"));
}

#[test]
fn begin_download_checks_the_catalogue() {
    let mut r = DownloadRegistry::new();
    assert!(matches!(begin_download(&mut r, "nope"), Err(DownloadError::UnknownModel)));
    assert!(!r.is_active("nope"));
    let m = begin_download(&mut r, "medium-q5_0").ok().unwrap();
    assert_eq!(m.filename, "ggml-medium-q5_0.bin");
    assert!(matches!(begin_download(&mut r, "medium-q5_0"), Err(DownloadError::AlreadyInProgress)));
}

#[test]
fn progress_is_reported_in_steps() {
    let mut p = DownloadProgress::new();
    assert_eq!(p.record_chunk(1000), None);
    assert_eq!(p.record_chunk(PROGRESS_STEP - 1000), None);
    assert_eq!(p.record_chunk(1), Some(PROGRESS_STEP + 1));
    assert_eq!(p.last_emit, PROGRESS_STEP + 1);
    assert_eq!(p.record_chunk(PROGRESS_STEP), None);
    assert_eq!(p.record_chunk(1), Some(2 * PROGRESS_STEP + 2));
    assert_eq!(p.downloaded, 2 * PROGRESS_STEP + 2);
}

#[test]
fn download_outcomes() {
    assert_eq!(download_outcome(true, true), DownloadOutcome::Done);
    assert_eq!(download_outcome(false, true), DownloadOutcome::Canceled);
    assert_eq!(download_outcome(false, false), DownloadOutcome::Failed);
}

#[test]
fn unknown_name_is_refused_even_when_registered() {
    let mut r = DownloadRegistry::new();
    assert!(r.start("nope").is_ok());
    assert!(matches!(begin_download(&mut r, "nope"), Err(DownloadError::UnknownModel)));
    assert!(r.is_active("nope"));
}

#[test]
fn cancels_do_not_change_what_is_active() {
    let mut r = DownloadRegistry::new();
    assert!(r.start("tiny").is_ok());
    assert!(r.cancel("tiny"));
    assert!(!r.cancel("base"));
    assert!(r.is_active("tiny"));
    assert!(!r.is_active("base"));
    assert!(r.finish("tiny"));
    assert!(!r.cancel("tiny"));
    assert!(!r.is_active("tiny"));
}
