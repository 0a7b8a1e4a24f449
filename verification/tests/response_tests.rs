use bobby::response::{Response, ResponseError};

fn header_value(headers: &[(String, String)], key: &str) -> Option<String> {
    headers.iter().find(|e| e.0 == key).map(|e| e.1.clone())
}

#[test]
fn html_sets_body_status_and_content_type() {
    let r = Response::html("hello");
    assert_eq!(r.body, "hello");
    assert_eq!(r.status, 200);
    assert_eq!(r.headers.len(), 1);
    assert_eq!(r.headers[0].0, "Content-Type");
    assert_eq!(r.headers[0].1, "text/html");
}

#[test]
fn build_renders_status_headers_and_content_length() {
    let rendered = Response::html("hello").build().unwrap();
    assert_eq!(rendered.status, 200);
    assert_eq!(rendered.body, "hello");
    assert_eq!(header_value(&rendered.headers, "content-type"), Some(String::from("text/html")));
    assert_eq!(header_value(&rendered.headers, "content-length"), Some(String::from("5")));
}

#[test]
fn build_lowercases_header_names() {
    let rendered = Response::html("x").with_header("X-Custom-Header", "v").build().unwrap();
    assert_eq!(header_value(&rendered.headers, "x-custom-header"), Some(String::from("v")));
    assert_eq!(header_value(&rendered.headers, "X-Custom-Header"), None);
    assert_eq!(header_value(&rendered.headers, "Content-Type"), None);
    assert_eq!(header_value(&rendered.headers, "content-type"), Some(String::from("text/html")));
}

#[test]
fn content_length_is_authoritative() {
    let rendered = Response::html("hello").with_header("Content-Length", "999").build().unwrap();
    assert_eq!(header_value(&rendered.headers, "content-length"), Some(String::from("5")));
}

#[test]
fn content_length_of_empty_body_is_zero() {
    let rendered = Response::html("").build().unwrap();
    assert_eq!(header_value(&rendered.headers, "content-length"), Some(String::from("0")));
}

#[test]
fn content_length_counts_bytes_not_characters() {
    // two characters, four bytes in UTF-8
    let rendered = Response::html("\u{e9}\u{20ac}").build().unwrap();
    assert_eq!(header_value(&rendered.headers, "content-length"), Some(String::from("5")));
}

#[test]
fn with_status_and_with_header_leave_the_base_unchanged() {
    let base = Response::html("x");
    let derived = base.with_status(500).with_header("X-A", "b");
    assert_eq!(base.status, 200);
    assert_eq!(base.headers.len(), 1);
    assert_eq!(base.headers[0].0, "Content-Type");
    assert_eq!(derived.status, 500);
    assert_eq!(derived.headers.len(), 2);
}

#[test]
fn with_header_replaces_an_existing_key() {
    let r = Response::html("x").with_header("X-A", "1").with_header("X-A", "2");
    assert_eq!(r.headers.len(), 2);
    assert_eq!(header_value(&r.headers, "X-A"), Some(String::from("2")));
}

#[test]
fn with_header_overrides_default_content_type() {
    let rendered = Response::html("x").with_header("Content-Type", "text/plain").build().unwrap();
    assert_eq!(header_value(&rendered.headers, "content-type"), Some(String::from("text/plain")));
}

#[test]
fn round_trip_keeps_status_and_custom_header() {
    let rendered = Response::html("body").with_status(201).with_header("X-Test", "v").build().unwrap();
    assert_eq!(rendered.status, 201);
    assert_eq!(header_value(&rendered.headers, "x-test"), Some(String::from("v")));
    assert_eq!(header_value(&rendered.headers, "content-type"), Some(String::from("text/html")));
    assert_eq!(header_value(&rendered.headers, "content-length"), Some(String::from("4")));
}

#[test]
fn invalid_status_fails_with_cannot_get_headers() {
    let res = Response::html("x").with_status(99).build();
    assert_eq!(res.err(), Some(ResponseError::CannotGetHeaders));
    let res = Response::html("x").with_status(1000).build();
    assert_eq!(res.err(), Some(ResponseError::CannotGetHeaders));
    assert!(Response::html("x").with_status(100).build().is_ok());
    assert!(Response::html("x").with_status(999).build().is_ok());
}

#[test]
fn invalid_header_name_is_reported() {
    let res = Response::html("x").with_header("Bad Name", "v").build();
    assert_eq!(res.err(), Some(ResponseError::InvalidHeaderName));
    let res = Response::html("x").with_header("", "v").build();
    assert_eq!(res.err(), Some(ResponseError::InvalidHeaderName));
}

#[test]
fn invalid_header_value_is_reported() {
    let res = Response::html("x").with_header("X-A", "a\nb").build();
    assert_eq!(res.err(), Some(ResponseError::InvalidHeaderValue));
}

#[test]
fn invalid_name_takes_precedence_over_invalid_value_of_earlier_entry() {
    let res = Response::html("x").with_header("Bad Name", "a\nb").build();
    assert_eq!(res.err(), Some(ResponseError::InvalidHeaderName));
}

#[test]
fn tab_is_a_legal_header_value_character() {
    let res = Response::html("x").with_header("X-A", "a\tb").build();
    assert!(res.is_ok());
}
