use bobby::pattern::{extract_params, uri_matches_path};

fn lookup(params: &[(String, String)], key: &str) -> Option<String> {
    params.iter().find(|e| e.0 == key).map(|e| e.1.clone())
}

#[test]
fn matching_is_deterministic() {
    let a = uri_matches_path("/users/42", "/users/{id}");
    let b = uri_matches_path("/users/42", "/users/{id}");
    assert_eq!(a, b);
    let c = uri_matches_path("/users/42/x", "/users/{id}");
    let d = uri_matches_path("/users/42/x", "/users/{id}");
    assert_eq!(c, d);
}

#[test]
fn required_param_matches_and_extracts() {
    assert!(uri_matches_path("/users/42", "/users/{id}"));
    let params = extract_params("/users/42", "/users/{id}");
    assert_eq!(lookup(&params, "id"), Some(String::from("42")));
}

#[test]
fn required_param_missing_segment_does_not_match() {
    assert!(!uri_matches_path("/users", "/users/{id}"));
}

#[test]
fn required_param_extra_segment_does_not_match() {
    assert!(!uri_matches_path("/users/42/extra", "/users/{id}"));
}

#[test]
fn optional_param_matches_presence_and_absence() {
    assert!(uri_matches_path("/users", "/users/{id?}"));
    let none = extract_params("/users", "/users/{id?}");
    assert_eq!(lookup(&none, "id"), None);

    assert!(uri_matches_path("/users/42", "/users/{id?}"));
    let some = extract_params("/users/42", "/users/{id?}");
    assert_eq!(lookup(&some, "id"), Some(String::from("42")));
}

#[test]
fn literal_pattern_rejects_longer_and_shorter_uris() {
    assert!(uri_matches_path("/a/b", "/a/b"));
    assert!(!uri_matches_path("/a/b/c", "/a/b"));
    assert!(!uri_matches_path("/a", "/a/b"));
}

#[test]
fn literal_segments_compare_exactly() {
    assert!(!uri_matches_path("/a/B", "/a/b"));
    assert!(!uri_matches_path("/ab", "/a"));
}

#[test]
fn slashes_are_normalized_away() {
    assert!(uri_matches_path("a/b", "/a/b"));
    assert!(uri_matches_path("/a/b/", "/a/b"));
    assert!(uri_matches_path("//a//b//", "/a/b"));
    assert!(uri_matches_path("", ""));
    assert!(uri_matches_path("/", ""));
    assert!(uri_matches_path("", "/"));
}

#[test]
fn empty_pattern_rejects_nonempty_uri() {
    assert!(!uri_matches_path("/a", "/"));
    assert!(!uri_matches_path("/a", ""));
}

#[test]
fn segments_after_a_trailing_optional_are_not_reached() {
    // The walk stops at the first shortfall: a URI that ends where an
    // optional parameter stands is accepted even if required segments
    // follow in the pattern.
    assert!(uri_matches_path("/a", "/a/{x?}/b"));
    assert!(uri_matches_path("/a/q/b", "/a/{x?}/b"));
    assert!(!uri_matches_path("/a/q", "/a/{x?}/b"));
}

#[test]
fn extraction_without_params_is_empty() {
    let params = extract_params("/a/b", "/a/b");
    assert!(params.is_empty());
}

#[test]
fn extraction_takes_last_value_for_repeated_name() {
    let params = extract_params("/x/y", "/{id}/{id}");
    assert_eq!(params.len(), 1);
    assert_eq!(lookup(&params, "id"), Some(String::from("y")));
}

#[test]
fn extraction_strips_optional_marker_from_name() {
    let params = extract_params("/v", "/{name?}");
    assert_eq!(lookup(&params, "name"), Some(String::from("v")));
}
