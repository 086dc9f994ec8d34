//! In-memory response cache.

pub mod memory;

pub use memory::{CacheConfig, MemoryCache};
