//! Normalised RDAP IP network response type.
//!
//! Follows RFC 9083 §5.4 (IP Network Object Class).

use vstd::prelude::*;
use super::common::{RdapEntity, RdapEvent, RdapLink, RdapRemark, RdapStatus, ResponseMeta};

verus! {

/// IP protocol version.
#[derive(Debug, Clone, Copy, PartialEq, Eq, Structural)]
pub enum IpVersion {
    V4,
    V6,
}

/// Normalised RDAP response for an IP address query.
#[derive(Debug)]
pub struct IpResponse {
    /// The original query string (IP address).
    pub query: String,
    /// Registry handle.
    pub handle: Option<String>,
    /// First address in the CIDR block.
    pub start_address: Option<String>,
    /// Last address in the CIDR block.
    pub end_address: Option<String>,
    /// IP version of the network block.
    pub ip_version: Option<IpVersion>,
    /// Human-readable name of the allocation (e.g., "GOOGLE").
    pub name: Option<String>,
    /// Allocation type (e.g., "DIRECT ALLOCATION"), the `type` member.
    pub allocation_type: Option<String>,
    /// ISO 3166-1 alpha-2 country code.
    pub country: Option<String>,
    /// Parent network handle (for sub-allocations).
    pub parent_handle: Option<String>,
    pub status: Vec<RdapStatus>,
    pub entities: Vec<RdapEntity>,
    pub events: Vec<RdapEvent>,
    pub links: Vec<RdapLink>,
    pub remarks: Vec<RdapRemark>,
    pub meta: ResponseMeta,
}

} // verus!
