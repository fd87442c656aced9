use vstd::prelude::*;

verus! {

/// Size limits of the HTTP server.
pub struct HyperConfig {
    pub max_request_body_size: usize,
    pub max_request_headers_size: usize,
    pub max_response_headers_size: usize,
}

impl Default for HyperConfig {
    /// A request body of at most 100 MiB, and headers of at most 8 KiB each way.
    fn default() -> (r: Self)
        ensures
            r.max_request_body_size == 100 * 1024 * 1024,
            r.max_request_headers_size == 8 * 1024,
            r.max_response_headers_size == 8 * 1024,
    {
        HyperConfig {
            max_request_body_size: 100 * 1024 * 1024,
            max_request_headers_size: 8 * 1024,
            max_response_headers_size: 8 * 1024,
        }
    }
}

} // verus!
