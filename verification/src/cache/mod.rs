//! The incremental cache of per-file results.

pub mod incremental;

pub use incremental::{CacheEntry, IncrementalCache};
