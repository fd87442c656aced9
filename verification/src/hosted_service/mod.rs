pub mod memory_cache_backgroundservice;

pub use memory_cache_backgroundservice::{BackGroundService, MemoryCacheBackgroundService};
