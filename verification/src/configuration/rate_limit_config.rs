use vstd::prelude::*;

verus! {

/// How many requests a client may make in a window, and how long it is blocked after.
#[derive(Clone, Copy, Debug)]
pub struct RateLimitConfiguration {
    pub max_requests: usize,
    pub limit_seconds: u32,
    pub block_duration_seconds: u32,
}

impl Default for RateLimitConfiguration {
    fn default() -> (r: Self)
        ensures
            r.max_requests == 0,
            r.limit_seconds == 0,
            r.block_duration_seconds == 0,
    {
        RateLimitConfiguration { max_requests: 0, limit_seconds: 0, block_duration_seconds: 0 }
    }
}

} // verus!
