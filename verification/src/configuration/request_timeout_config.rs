use vstd::prelude::*;

verus! {

/// How long a request may take.
#[derive(Clone, Copy, Debug)]
pub struct RequestTimeoutConfiguration {
    pub timeout_seconds: u64,
}

impl Default for RequestTimeoutConfiguration {
    fn default() -> (r: Self)
        ensures
            r.timeout_seconds == 0,
    {
        RequestTimeoutConfiguration { timeout_seconds: 0 }
    }
}

} // verus!
