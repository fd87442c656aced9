use asp_dot_rust::http_context::http_response::{HttpResponse, WritenPhase};
use asp_dot_rust::http_context::AspDotRustHttpHeader;

#[test]
fn new_in_memory_response() {
    let r = HttpResponse::new_in_memory();
    assert_eq!(r.status_code, 200);
    assert!(r.headers().is_empty());
    assert!(r.body().is_empty());
    assert_eq!(r.written_phase, WritenPhase::NONE);
    assert!(!r.keep_alive);
}

#[test]
fn write_response_sends_body_with_length() {
    let mut r = HttpResponse::new_in_memory();
    r.body_mut().extend_from_slice(b"hello");
    r.write_response_async();
    assert_eq!(r.written_phase, WritenPhase::END);
    assert!(r.body().is_empty());
    assert_eq!(r.headers().content_length(), Some(5));
    assert_eq!(r.headers().get("connection").unwrap(), "close");
    assert_eq!(r.headers().get("keep-alive").unwrap(), "timeout=30, max=1000");
    assert_eq!(r.in_memory_output(), Some(&b"hello".to_vec()));
}

#[test]
fn keep_alive_connection_header() {
    let mut r = HttpResponse::new_in_memory();
    r.keep_alive = true;
    r.write_headers_async();
    assert_eq!(r.headers().get("connection").unwrap(), "keep-alive");
    assert_eq!(r.headers().content_length(), Some(0));
    assert_eq!(r.written_phase, WritenPhase::HTTP_HEADERS);
    r.body_mut().push(1);
    r.write_headers_async();
    assert_eq!(r.headers().content_length(), Some(0));
}

#[test]
fn write_raises_content_length() {
    let mut r = HttpResponse::new_in_memory();
    r.headers_mut().set_content_length(2);
    r.write_async(b"abcd");
    assert_eq!(r.headers().content_length(), Some(4));
    r.write_async(b"x");
    assert_eq!(r.headers().content_length(), Some(4));
    assert_eq!(r.in_memory_output(), Some(&b"abcdx".to_vec()));
}

#[test]
fn status_and_phase_values() {
    let mut r = HttpResponse::new_in_memory();
    *r.status_mut() = 404;
    assert_eq!(r.status_code, 404);
    assert_eq!(WritenPhase::NONE.value(), 0);
    assert_eq!(WritenPhase::HTTP_HEADERS.value(), 1);
    assert_eq!(WritenPhase::HTTP_BODY.value(), 2);
    assert_eq!(WritenPhase::END.value(), 255);
    r.write_body_async();
    assert_eq!(r.written_phase, WritenPhase::HTTP_BODY);
}

#[test]
fn writing_the_body_after_the_end_marks_the_body_phase() {
    let mut r = HttpResponse::new_in_memory();
    r.write_response_async();
    assert_eq!(r.written_phase, WritenPhase::END);
    r.write_body_async();
    assert_eq!(r.written_phase, WritenPhase::HTTP_BODY);
}
