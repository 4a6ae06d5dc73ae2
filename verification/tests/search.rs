use a_fast_clipboard::search::{escape_like, exceeds_pattern_limit, search_pattern};

#[test]
fn special_characters_are_escaped() {
    assert_eq!(escape_like("50%_a\\b"), "50\\%\\_a\\\\b");
    assert_eq!(escape_like("plain"), "plain");
    assert_eq!(search_pattern("a%"), "%a\\%%");
}

#[test]
fn pattern_limit_is_in_bytes() {
    assert!(!exceeds_pattern_limit(&"a".repeat(49_998)));
    assert!(exceeds_pattern_limit(&"a".repeat(49_999)));
    assert!(exceeds_pattern_limit(&"é".repeat(25_000)));
    assert!(exceeds_pattern_limit(&"%".repeat(25_000)));
}
