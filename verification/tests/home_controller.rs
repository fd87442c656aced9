use asp_dot_rust::application::{IpAddress, SocketAddress};
use asp_dot_rust::controller::{Routing, WithHttpContext};
use asp_dot_rust::controllers::HomeController;
use asp_dot_rust::http_context::http_request::HttpRequest;
use asp_dot_rust::http_context::http_response::HttpResponse;
use asp_dot_rust::http_context::http_version::HttpVersion;
use asp_dot_rust::http_context::{AspDotRustHttpHeader, HttpContext};
use http::HeaderMap;

fn context(path: &str) -> HttpContext {
    let request = HttpRequest::from_parts("GET".to_string(), path.to_string(), HttpVersion::Http11,
        HeaderMap::new(),
        SocketAddress { ip: IpAddress::V4(10, 0, 0, 2), port: 50000 },
        SocketAddress { ip: IpAddress::V4(127, 0, 0, 1), port: 8080 },
    );
    HttpContext::new(request, HttpResponse::new_in_memory())
}

#[test]
fn index_answers_html() {
    let mut c = HomeController::new(context("/"));
    c.routing("index");
    let ctx = c.into_http_context();
    let body = b"<html><body><h1>Hello, World!</h1></body></html>";
    assert_eq!(ctx.response.status_code, 200);
    assert_eq!(ctx.response.body(), &body.to_vec());
    assert_eq!(ctx.response.headers().content_type(), Some("text/html".to_string()));
    assert_eq!(ctx.response.headers().content_length(), Some(body.len() as u64));
}

#[test]
fn update_answers_service_text() {
    let mut c = HomeController::with_service(context("/update"), "injected".to_string());
    c.routing("update");
    let ctx = c.into_http_context();
    assert_eq!(ctx.response.status_code, 200);
    assert_eq!(ctx.response.body(), &b"injected".to_vec());
    assert_eq!(ctx.response.headers().content_length(), Some(8));
    assert_eq!(ctx.response.headers().content_type(), None);
}

#[test]
fn replace_without_service_answers_empty() {
    let mut c = HomeController::new(context("/replace"));
    c.routing("replace");
    let ctx = c.into_http_context();
    assert!(ctx.response.body().is_empty());
    assert_eq!(ctx.response.headers().content_length(), Some(0));
}

#[test]
fn health_answers_ok() {
    let mut c = HomeController::new(context("/health"));
    c.routing("health");
    let ctx = c.into_http_context();
    assert_eq!(ctx.response.body(), &b"ok".to_vec());
    assert_eq!(ctx.response.headers().content_length(), Some(2));
}

#[test]
fn unknown_action_is_not_found() {
    let mut c = HomeController::new(context("/nope"));
    c.routing("nope");
    let ctx = c.into_http_context();
    assert_eq!(ctx.response.status_code, 404);
    assert_eq!(ctx.response.body(), &b"Not Found".to_vec());
    assert_eq!(ctx.response.headers().content_length(), Some(9));
}

#[test]
fn controller_name_and_actions() {
    assert_eq!(HomeController::str_name(), "Home");
    let mut c = HomeController::with_service(context("/"), "t".to_string());
    assert_eq!(c.update(), "t");
    assert_eq!(c.replace(), "t");
    assert_eq!(c.health(), "ok");
    assert_eq!(c.index(), "<html><body><h1>Hello, World!</h1></body></html>");
}

#[test]
fn request_keeps_addresses() {
    let ctx = context("/");
    assert_eq!(ctx.request.client_addr.port, 50000);
    assert_eq!(ctx.request.local_addr.ip, IpAddress::V4(127, 0, 0, 1));
}
