use asp_dot_rust::application::{IpAddress, SocketAddress};
use asp_dot_rust::controller::ActionResult;
use asp_dot_rust::http_context::http_request::HttpRequest;
use asp_dot_rust::http_context::http_response::HttpResponse;
use asp_dot_rust::http_context::http_version::HttpVersion;
use asp_dot_rust::http_context::{AspDotRustHttpHeader, HttpContext};
use http::HeaderMap;

fn context() -> HttpContext {
    let request = HttpRequest::from_parts("GET".to_string(), "/".to_string(), HttpVersion::Http11,
        HeaderMap::new(),
        SocketAddress { ip: IpAddress::V4(10, 0, 0, 2), port: 50000 },
        SocketAddress { ip: IpAddress::V4(127, 0, 0, 1), port: 8080 },
    );
    HttpContext::new(request, HttpResponse::new_in_memory())
}

#[test]
fn str_result_sets_body_and_headers() {
    let mut ctx = context();
    "hi there".write_to_http_context_async(&mut ctx);
    assert_eq!(ctx.response.body(), &b"hi there".to_vec());
    assert_eq!(ctx.response.headers().content_length(), Some(8));
    assert_eq!(ctx.response.headers().content_type(), Some(String::new()));
    assert_eq!(ctx.response.status_code, 200);
    assert_eq!(ctx.response.in_memory_output(), Some(&Vec::new()));
}

#[test]
fn string_result_is_written_through() {
    let mut ctx = context();
    "héllo".to_string().write_to_http_context_async(&mut ctx);
    assert_eq!(ctx.response.in_memory_output(), Some(&"héllo".as_bytes().to_vec()));
    assert_eq!(ctx.response.headers().content_length(), Some(6));
    assert!(ctx.response.headers().get("connection").is_some());
}

#[test]
fn bytes_result_is_written_through() {
    let mut ctx = context();
    vec![1u8, 2, 3].write_to_http_context_async(&mut ctx);
    assert_eq!(ctx.response.in_memory_output(), Some(&vec![1u8, 2, 3]));
    assert_eq!(ctx.response.headers().content_length(), Some(3));
}

#[test]
fn result_accessors() {
    assert_eq!("abc".status_code(), 200);
    assert_eq!("abc".content_length(), 3);
    assert_eq!("abc".get_body_async(), b"abc".to_vec());
    assert_eq!(String::from("é").content_length(), 2);
    assert_eq!(vec![9u8].get_body_async(), vec![9u8]);
    assert_eq!(vec![9u8].content_type(), "");
}

#[test]
fn set_headers_keeps_body() {
    let mut ctx = context();
    ctx.response.body_mut().push(7);
    "abcd".set_headers(&mut ctx);
    assert_eq!(ctx.response.body(), &vec![7u8]);
    assert_eq!(ctx.response.headers().content_length(), Some(4));
}

#[test]
fn set_headers_sets_the_result_status() {
    let mut ctx = context();
    *ctx.response.status_mut() = 404;
    "ok".set_headers(&mut ctx);
    assert_eq!(ctx.response.status_code, 200);
}
