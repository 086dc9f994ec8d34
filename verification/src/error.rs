//! Error types for the rdapify library.
//!
//! [`RdapError`] is the single error type returned by every public API.

use vstd::prelude::*;

verus! {

/// `url::ParseError`, carried by [`RdapError::InvalidUrl`].
#[verifier::external_type_specification]
#[verifier::external_body]
pub struct ExUrlParseError(url::ParseError);

/// `reqwest::Error`, carried by [`RdapError::Network`].
#[verifier::external_type_specification]
#[verifier::external_body]
pub struct ExReqwestError(reqwest::Error);

/// The unified error type for all rdapify operations.
#[derive(Debug)]
pub enum RdapError {
    /// The supplied domain name, IP address, or ASN is not valid.
    InvalidInput(String),
    /// The resolved URL targets a private, loopback, or link-local address.
    SsrfBlocked { url: String, reason: String },
    /// The URL scheme is not HTTPS.
    InsecureScheme { scheme: String },
    /// No RDAP server was found for the given TLD / IP range / ASN range.
    NoServerFound { query: String },
    /// The IANA bootstrap file could not be fetched or parsed.
    BootstrapFetch { resource: String, source: Box<RdapError> },
    /// A network-level error occurred (DNS, TCP, TLS).
    Network(reqwest::Error),
    /// The RDAP server returned an HTTP error status.
    HttpStatus { status: u16, url: String },
    /// The request did not complete within the configured timeout.
    Timeout { millis: u64, url: String },
    /// The response JSON could not be read as a known RDAP type.
    ParseError { reason: String },
    /// The response is missing a required `objectClassName` field.
    MissingObjectClass,
    /// The response contains an `objectClassName` this client does not know.
    UnknownObjectClass { class: String },
    /// An internal cache operation failed.
    Cache(String),
    /// A URL could not be parsed.
    InvalidUrl { url: String, source: url::ParseError },
}

/// Convenience alias used throughout the crate.
pub type Result<T> = core::result::Result<T, RdapError>;

/// The HTTP-like status code that [`RdapError::status_code`] reports.
pub open spec fn spec_status_code(e: RdapError) -> u16 {
    match e {
        RdapError::InvalidInput(_) => 400,
        RdapError::SsrfBlocked { .. } => 403,
        RdapError::InsecureScheme { .. } => 403,
        RdapError::NoServerFound { .. } => 404,
        RdapError::HttpStatus { status, .. } => status,
        RdapError::Timeout { .. } => 408,
        RdapError::Network(_) => 502,
        RdapError::BootstrapFetch { .. } => 502,
        RdapError::ParseError { .. } => 500,
        RdapError::MissingObjectClass => 500,
        RdapError::UnknownObjectClass { .. } => 500,
        RdapError::Cache(_) => 500,
        RdapError::InvalidUrl { .. } => 400,
    }
}

impl RdapError {
    /// Returns an HTTP-like status code for the error, suitable for
    /// surfacing through FFI or REST bindings.
    pub fn status_code(&self) -> (code: u16)
        ensures
            code == spec_status_code(*self),
    {
        match self {
            RdapError::InvalidInput(_) => 400,
            RdapError::SsrfBlocked { .. } => 403,
            RdapError::InsecureScheme { .. } => 403,
            RdapError::NoServerFound { .. } => 404,
            RdapError::HttpStatus { status, .. } => *status,
            RdapError::Timeout { .. } => 408,
            RdapError::Network(_) => 502,
            RdapError::BootstrapFetch { .. } => 502,
            RdapError::ParseError { .. } => 500,
            RdapError::MissingObjectClass => 500,
            RdapError::UnknownObjectClass { .. } => 500,
            RdapError::Cache(_) => 500,
            RdapError::InvalidUrl { .. } => 400,
        }
    }

    /// Returns `true` if the error is caused by invalid user input.
    pub fn is_invalid_input(&self) -> (res: bool)
        ensures
            res == (*self is InvalidInput),
    {
        matches!(self, RdapError::InvalidInput(_))
    }

    /// Returns `true` if the error is a network-level failure.
    pub fn is_network(&self) -> (res: bool)
        ensures
            res == (*self is Network || *self is Timeout || *self is HttpStatus),
    {
        matches!(
            self,
            RdapError::Network(_) | RdapError::Timeout { .. } | RdapError::HttpStatus { .. }
        )
    }

    /// Returns `true` if the request was blocked by SSRF protection.
    pub fn is_ssrf_blocked(&self) -> (res: bool)
        ensures
            res == (*self is SsrfBlocked || *self is InsecureScheme),
    {
        matches!(self, RdapError::SsrfBlocked { .. } | RdapError::InsecureScheme { .. })
    }
}

} // verus!
