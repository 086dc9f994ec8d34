//! Normalised RDAP autonomous system number response type.
//!
//! Follows RFC 9083 §5.5 (Autonomous System Number Object Class).

use vstd::prelude::*;
use super::common::{RdapEntity, RdapEvent, RdapLink, RdapRemark, RdapStatus, ResponseMeta};

verus! {

/// Normalised RDAP response for an ASN query.
#[derive(Debug)]
pub struct AsnResponse {
    /// The queried AS number.
    pub query: u32,
    /// Registry handle.
    pub handle: Option<String>,
    /// First AS number of the registered block.
    pub start_autnum: Option<u32>,
    /// Last AS number of the registered block.
    pub end_autnum: Option<u32>,
    /// Name of the AS (e.g., "GOOGLE").
    pub name: Option<String>,
    /// Allocation type, the `type` member.
    pub autnum_type: Option<String>,
    /// ISO 3166-1 alpha-2 country code.
    pub country: Option<String>,
    pub status: Vec<RdapStatus>,
    pub entities: Vec<RdapEntity>,
    pub events: Vec<RdapEvent>,
    pub links: Vec<RdapLink>,
    pub remarks: Vec<RdapRemark>,
    pub meta: ResponseMeta,
}

} // verus!
