//! IANA bootstrap (RFC 9224) server discovery logic.

pub mod discovery;

pub use discovery::CacheEntry;
