use asp_dot_rust::extensions::str::join_texts;
use asp_dot_rust::configuration::{
    GetClientIpConfiguration, HyperConfig, JwtAuthConfiguration, RateLimitConfiguration,
    RequestTimeoutConfiguration, StaticFileConfiguration,
};
use asp_dot_rust::extensions::Str;
use asp_dot_rust::hosted_service::MemoryCacheBackgroundService;
use asp_dot_rust::http_context::http_version::HttpVersion;

#[test]
fn configuration_defaults() {
    let h = HyperConfig::default();
    assert_eq!(h.max_request_body_size, 104857600);
    assert_eq!(h.max_request_headers_size, 8192);
    assert_eq!(h.max_response_headers_size, 8192);
    let j = JwtAuthConfiguration::default();
    assert_eq!(j.secret_key, "your_secret_key");
    assert_eq!(j.token_expiration_seconds, 3600);
    assert_eq!(j.token_issuer, "your_app");
    assert_eq!(j.token_audience, "your_audience");
    assert_eq!(GetClientIpConfiguration::default().header_name, "X-Forwarded-For");
    assert_eq!(StaticFileConfiguration::default().static_files_directory, "wwwroot");
    assert_eq!(StaticFileConfiguration::default().clone().static_files_directory, "wwwroot");
    let r = RateLimitConfiguration::default();
    assert_eq!((r.max_requests, r.limit_seconds, r.block_duration_seconds), (0, 0, 0));
    assert_eq!(RequestTimeoutConfiguration::default().timeout_seconds, 0);
}

#[test]
fn memory_cache_service_interval() {
    assert_eq!(MemoryCacheBackgroundService::inject_service().release_interval_seconds(), 60);
    assert_eq!(MemoryCacheBackgroundService::default().release_interval_seconds(), 0);
}

#[test]
fn http_version_text() {
    assert_eq!(HttpVersion::from_str("HTTP/1.1"), Some(HttpVersion::Http11));
    assert_eq!(HttpVersion::from_str("HTTP/2.0"), Some(HttpVersion::Http2));
    assert_eq!(HttpVersion::from_str("HTTP/0.9"), Some(HttpVersion::Http09));
    assert_eq!(HttpVersion::from_str("HTTP/2"), None);
    assert_eq!(HttpVersion::Http3.as_str(), "HTTP/3.0");
    assert_eq!(HttpVersion::Http10.as_str(), "HTTP/1.0");
}

#[test]
fn join_texts_in_order() {
    assert_eq!(join_texts(&vec!["a".to_string(), "b".to_string(), "c".to_string()], ", "), "a, b, c");
    assert_eq!(join_texts(&vec!["only".to_string()], "-"), "only");
    assert_eq!(join_texts(&vec![], "-"), "");
}
