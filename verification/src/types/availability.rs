//! Result of a domain availability check.

use vstd::prelude::*;

verus! {

/// Whether a domain is available for registration, as far as RDAP tells.
#[derive(Debug, Clone)]
pub struct AvailabilityResult {
    /// The normalised (ASCII, lower-case) domain name that was checked.
    pub domain: String,
    /// `true` when the registry answered HTTP 404 (no such registration).
    pub available: bool,
    /// The expiration date of a registered domain, if the registry gave one.
    pub expires_at: Option<String>,
}

} // verus!
