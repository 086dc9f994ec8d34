//! Events and configuration of the streaming API for batch RDAP queries.
//!
//! A stream yields one event per query as results arrive, through a
//! bounded channel of [`StreamConfig::buffer_size`] items: when the buffer is
//! full the producer waits for the consumer (back-pressure), and dropping
//! the stream stops the work.

use vstd::prelude::*;
use crate::error::RdapError;
use crate::types::domain::DomainResponse;
use crate::types::ip::IpResponse;

verus! {

/// Emitted for each queried domain.
#[derive(Debug)]
pub enum DomainEvent {
    /// Successful RDAP response for the queried domain.
    Result(Box<DomainResponse>),
    /// The query for this domain failed.
    Error {
        /// The domain name that was queried.
        query: String,
        /// The error that occurred.
        error: RdapError,
    },
}

/// Emitted for each queried IP address.
#[derive(Debug)]
pub enum IpEvent {
    /// Successful RDAP response for the queried IP.
    Result(Box<IpResponse>),
    /// The query for this IP address failed.
    Error {
        /// The IP address that was queried.
        query: String,
        /// The error that occurred.
        error: RdapError,
    },
}

/// Configuration for streaming queries.
#[derive(Debug, Clone)]
pub struct StreamConfig {
    /// Channel buffer size (controls back-pressure). @default 32
    pub buffer_size: usize,
}

impl Default for StreamConfig {
    fn default() -> (c: Self)
        ensures
            c.buffer_size == 32,
    {
        StreamConfig { buffer_size: 32 }
    }
}

/// The event for one streamed domain query.
pub fn domain_event(query: String, outcome: Result<DomainResponse, RdapError>) -> (ev: DomainEvent)
    ensures
        match outcome {
            Ok(r) => ev == DomainEvent::Result(Box::new(r)),
            Err(e) => ev == (DomainEvent::Error { query, error: e }),
        },
{
    match outcome {
        Ok(r) => DomainEvent::Result(Box::new(r)),
        Err(e) => DomainEvent::Error { query, error: e },
    }
}

/// The event for one streamed IP query.
pub fn ip_event(query: String, outcome: Result<IpResponse, RdapError>) -> (ev: IpEvent)
    ensures
        match outcome {
            Ok(r) => ev == IpEvent::Result(Box::new(r)),
            Err(e) => ev == (IpEvent::Error { query, error: e }),
        },
{
    match outcome {
        Ok(r) => IpEvent::Result(Box::new(r)),
        Err(e) => IpEvent::Error { query, error: e },
    }
}

} // verus!
