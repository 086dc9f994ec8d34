//! Normalised RDAP entity response type.
//!
//! Follows RFC 9083 §5.1 (Entity Object Class). Entities have no global
//! bootstrap — the caller must supply an explicit server URL.

use vstd::prelude::*;
use super::common::{
    RdapEntity, RdapEvent, RdapLink, RdapRemark, RdapRole, RdapStatus, ResponseMeta,
};
use crate::json::JsonValue;

verus! {

/// Normalised RDAP response for an entity (contact/registrar) query.
#[derive(Debug)]
pub struct EntityResponse {
    /// The original query handle.
    pub query: String,
    /// Registry handle.
    pub handle: Option<String>,
    /// vCard data (RFC 7095) — kept as raw JSON.
    pub vcard_array: Option<JsonValue>,
    pub roles: Vec<RdapRole>,
    pub status: Vec<RdapStatus>,
    /// Nested entities (e.g., technical contacts of a registrar).
    pub entities: Vec<RdapEntity>,
    pub events: Vec<RdapEvent>,
    pub links: Vec<RdapLink>,
    pub remarks: Vec<RdapRemark>,
    pub meta: ResponseMeta,
}

} // verus!
