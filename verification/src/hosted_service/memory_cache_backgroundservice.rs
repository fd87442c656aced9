use vstd::prelude::*;

verus! {

/// A service that runs in the background for the whole life of the application.
pub trait BackGroundService {
    fn invoke_async(&mut self);
}

/// Releases expired entries of the memory cache, again and again, with a pause between
/// rounds.
pub struct MemoryCacheBackgroundService {
    release_after_seconds: u64,
}

impl MemoryCacheBackgroundService {
    /// The service as injection makes it: a round every 60 seconds.
    pub fn inject_service() -> (r: Self)
        ensures
            r.release_after_seconds() == 60,
    {
        MemoryCacheBackgroundService { release_after_seconds: 60 }
    }

    pub closed spec fn release_after_seconds(&self) -> u64 {
        self.release_after_seconds
    }

    /// The pause, in seconds, after each round of releasing expired entries.
    pub fn release_interval_seconds(&self) -> (r: u64)
        ensures
            r == self.release_after_seconds(),
    {
        self.release_after_seconds
    }
}

impl Default for MemoryCacheBackgroundService {
    fn default() -> (r: Self)
        ensures
            r.release_after_seconds() == 0,
    {
        MemoryCacheBackgroundService { release_after_seconds: 0 }
    }
}

} // verus!
