//! # rdapify
//!
//! A unified, secure RDAP client library: SSRF protection for every outbound
//! URL, IANA bootstrap server discovery, an in-memory response cache and a
//! normaliser that turns raw RDAP JSON into typed responses.
//!
//! Network transport, async orchestration and the command line are not part
//! of this crate: they drive the logic here, which carries machine-checked
//! contracts.

pub mod text;
pub mod json;
pub mod time;
pub mod error;
pub mod types;
pub mod security;
pub mod http;
pub mod bootstrap;
pub mod cache;
pub mod client;
pub mod stream;

pub use client::ClientConfig;
pub use error::{RdapError, Result};
pub use json::{JsonNumber, JsonValue};
pub use types::{
    AsnResponse, AvailabilityResult, DomainResponse, EntityResponse, IpResponse, IpVersion,
    NameserverIpAddresses, NameserverResponse, RdapEntity, RdapEvent, RdapLink, RdapRemark,
    RdapRole, RdapStatus, RegistrarSummary, ResponseMeta,
};
pub use cache::{CacheConfig, MemoryCache};
pub use http::{FetcherConfig, Normalizer};
pub use security::{SsrfConfig, SsrfGuard};
pub use stream::{DomainEvent, IpEvent, StreamConfig};
