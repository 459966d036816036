//! Cover artwork: the bounded caches, the requests that wait for a decode, and
//! the rows of the cache on disk.

pub mod cache_row;
pub mod decode;
pub mod loader;
pub mod lru;
pub mod source;
