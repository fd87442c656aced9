use asp_dot_rust::http_context::AspDotRustHttpHeader;
use http::{HeaderMap, HeaderValue};

#[test]
fn content_length_reads_back() {
    let mut h: HeaderMap<HeaderValue> = HeaderMap::new();
    assert_eq!(h.content_length(), None);
    h.set_content_length(1234);
    assert_eq!(h.content_length(), Some(1234));
    assert_eq!(h.get("content-length").unwrap(), "1234");
    h.set_content_length(0);
    assert_eq!(h.content_length(), Some(0));
    assert_eq!(h.len(), 1);
}

#[test]
fn content_length_that_is_not_a_number() {
    let mut h: HeaderMap<HeaderValue> = HeaderMap::new();
    h.insert_str("Content-Length", "12a");
    assert_eq!(h.content_length(), None);
    h.insert_str("Content-Length", "+12");
    assert_eq!(h.content_length(), Some(12));
    h.insert_str("Content-Length", "18446744073709551616");
    assert_eq!(h.content_length(), None);
}

#[test]
fn content_type_and_origin() {
    let mut h: HeaderMap<HeaderValue> = HeaderMap::new();
    assert_eq!(h.content_type(), None);
    h.set_content_type("text/plain");
    assert_eq!(h.content_type(), Some("text/plain".to_string()));
    h.insert_string("Origin", "https://a.com".to_string());
    assert_eq!(h.origin(), Some("https://a.com".to_string()));
    assert_eq!(h.authorization(), None);
    h.insert_str("Authorization", "Bearer x");
    assert_eq!(h.authorization(), Some("Bearer x".to_string()));
}

#[test]
fn non_visible_value_is_not_text() {
    let mut h: HeaderMap<HeaderValue> = HeaderMap::new();
    h.insert("origin", HeaderValue::from_bytes(b"caf\xc3\xa9").unwrap());
    assert_eq!(h.origin(), None);
}
