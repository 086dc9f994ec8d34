//! Normalised RDAP nameserver response type.
//!
//! Follows RFC 9083 §5.2 (Nameserver Object Class).

use vstd::prelude::*;
use super::common::{RdapEntity, RdapEvent, RdapLink, RdapRemark, RdapStatus, ResponseMeta};

verus! {

/// IP addresses associated with a nameserver (glue records).
#[derive(Debug, Clone)]
pub struct NameserverIpAddresses {
    pub v4: Vec<String>,
    pub v6: Vec<String>,
}

impl Default for NameserverIpAddresses {
    fn default() -> (r: Self)
        ensures
            r.v4@.len() == 0,
            r.v6@.len() == 0,
    {
        NameserverIpAddresses { v4: Vec::new(), v6: Vec::new() }
    }
}

/// Normalised RDAP response for a nameserver query.
#[derive(Debug)]
pub struct NameserverResponse {
    /// The original query string (nameserver hostname).
    pub query: String,
    /// Registry handle.
    pub handle: Option<String>,
    /// LDH form of the nameserver hostname.
    pub ldh_name: Option<String>,
    /// Unicode form of the nameserver hostname.
    pub unicode_name: Option<String>,
    /// Glue records (IPv4 and IPv6 addresses).
    pub ip_addresses: NameserverIpAddresses,
    pub status: Vec<RdapStatus>,
    pub entities: Vec<RdapEntity>,
    pub events: Vec<RdapEvent>,
    pub links: Vec<RdapLink>,
    pub remarks: Vec<RdapRemark>,
    pub meta: ResponseMeta,
}

} // verus!
