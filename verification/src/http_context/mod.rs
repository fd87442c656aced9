pub mod http_context;
pub mod http_header;
pub mod http_request;
pub mod http_request_stream;
pub mod http_response;
pub mod http_version;

pub use http_context::HttpContext;
pub use http_header::AspDotRustHttpHeader;
