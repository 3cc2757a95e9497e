use voice_dictation::history::{page_limit, page_offset, page_request, search_pattern};

#[test]
fn page_defaults() {
    assert_eq!(page_request(None, None), (50, 0));
    assert_eq!(page_request(Some(10), Some(20)), (10, 20));
}

#[test]
fn limit_is_clamped() {
    assert_eq!(page_limit(0), 1);
    assert_eq!(page_limit(50), 50);
    assert_eq!(page_limit(1000), 200);
    assert_eq!(page_offset(30), 30);
}

#[test]
fn search_patterns() {
    assert_eq!(search_pattern(None), None);
    assert_eq!(search_pattern(Some("")), None);
    assert_eq!(search_pattern(Some("react")), Some("%react%".to_string()));
}
