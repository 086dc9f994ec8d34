//! Fetch policy: configuration, retry decisions and exponential back-off.
//!
//! The HTTP transport itself (a `reqwest` client) is driven from outside the
//! library; it asks [`retry_delay`] after each failed attempt whether and
//! how long to wait before the next one.

use std::time::Duration;
use vstd::prelude::*;
use vstd::arithmetic::power2::{lemma2_to64, lemma_pow2_strictly_increases, lemma_pow2_unfold, pow2};
use crate::error::RdapError;
use crate::text::owned;
use crate::time::{as_millis, as_nanos, duration_nanos, duration_new, from_millis, from_secs};

verus! {

/// Configuration for the HTTP fetcher.
#[derive(Debug, Clone)]
pub struct FetcherConfig {
    /// Per-request timeout.
    pub timeout: Duration,
    /// `User-Agent` header value.
    pub user_agent: String,
    /// Maximum number of attempts (1 = no retries).
    pub max_attempts: u32,
    /// Initial back-off delay before the first retry.
    pub initial_backoff: Duration,
    /// Maximum back-off delay cap.
    pub max_backoff: Duration,
    /// Reuse TCP connections across requests (connection pooling).
    pub reuse_connections: bool,
    /// Maximum number of idle keep-alive connections per host.
    pub max_connections_per_host: usize,
}

impl Default for FetcherConfig {
    fn default() -> (c: Self)
        ensures
            duration_nanos(c.timeout) == 10_000_000_000,
            c.user_agent@ == "rdapify/0.2.0 (https://rdapify.com)"@,
            c.max_attempts == 3,
            duration_nanos(c.initial_backoff) == 500_000_000,
            duration_nanos(c.max_backoff) == 8_000_000_000,
            c.reuse_connections,
            c.max_connections_per_host == 10,
    {
        FetcherConfig {
            timeout: from_secs(10),
            user_agent: owned("rdapify/0.2.0 (https://rdapify.com)"),
            max_attempts: 3,
            initial_backoff: from_millis(500),
            max_backoff: from_secs(8),
            reuse_connections: true,
            max_connections_per_host: 10,
        }
    }
}

// ── Retry utilities ───────────────────────────────────────────────────────────

/// The HTTP statuses worth retrying: 429 (too many requests) and every
/// 5xx server error.
pub open spec fn retryable_status(status: u16) -> bool {
    status == 429 || (500 <= status && status <= 599)
}

/// Errors that are safe to retry.
pub open spec fn spec_is_retryable(err: RdapError) -> bool {
    match err {
        RdapError::Network(_) => true,
        RdapError::Timeout { .. } => true,
        RdapError::HttpStatus { status, .. } => retryable_status(status),
        _ => false,
    }
}

/// Returns `true` for errors that are safe to retry: network failures,
/// timeouts, and HTTP 429 and 5xx answers.
pub fn is_retryable(err: &RdapError) -> (res: bool)
    ensures
        res == spec_is_retryable(*err),
{
    match err {
        RdapError::Network(_) | RdapError::Timeout { .. } => true,
        RdapError::HttpStatus { status, .. } => *status == 429 || (500 <= *status && *status
            <= 599),
        _ => false,
    }
}

/// The whole milliseconds of `initial`.
pub open spec fn initial_millis(initial: Duration) -> nat {
    (duration_nanos(initial) / 1_000_000) as nat
}

/// The uncapped delay before retry number `attempt`, in milliseconds:
/// `initial * 2^(attempt-1)`, taken over unbounded integers.
pub open spec fn raw_backoff_millis(attempt: u32, initial: Duration) -> int {
    (initial_millis(initial) * pow2((attempt - 1) as nat)) as int
}

/// The delay before retry number `attempt`, in nanoseconds: the uncapped
/// delay, or `max` where that is shorter.
pub open spec fn backoff_nanos(attempt: u32, initial: Duration, max: Duration) -> int {
    if raw_backoff_millis(attempt, initial) * 1_000_000 <= duration_nanos(max) {
        raw_backoff_millis(attempt, initial) * 1_000_000
    } else {
        duration_nanos(max) as int
    }
}

proof fn lemma_scaled_le(base: int, k: nat, e: nat)
    requires
        base >= 0,
        k <= e,
    ensures
        base * pow2(k) <= base * pow2(e),
{
    if k < e {
        lemma_pow2_strictly_increases(k, e);
    }
    let a = pow2(k);
    let b = pow2(e);
    assert(base * a <= base * b) by (nonlinear_arith)
        requires
            base >= 0,
            a <= b,
    ;
}

proof fn lemma_over_limit(v: int, cap: int)
    requires
        cap >= 0,
        v > cap / 1_000_000,
    ensures
        v * 1_000_000 > cap,
{
    assert(cap == (cap / 1_000_000) * 1_000_000 + cap % 1_000_000);
}

/// Exponential back-off: `min(initial * 2^(attempt-1), max)`.
pub fn backoff(attempt: u32, initial: Duration, max: Duration) -> (d: Duration)
    requires
        attempt >= 1,
    ensures
        duration_nanos(d) == backoff_nanos(attempt, initial, max),
        duration_nanos(d) <= duration_nanos(max),
{
    let base: u128 = as_millis(initial);
    let cap: u128 = as_nanos(max);
    let e: u32 = attempt - 1;
    let ghost m = initial_millis(initial) as int;
    assert(base == m);
    if base == 0 {
        assert(raw_backoff_millis(attempt, initial) == 0) by {
            assert(0 * pow2(e as nat) == 0);
        }
        return from_millis(0);
    }
    let limit: u128 = cap / 1_000_000;
    let mut v: u128 = base;
    let mut k: u32 = 0;
    proof {
        lemma2_to64();
    }
    while k < e
        invariant
            k <= e,
            e == attempt - 1,
            base == m,
            m == initial_millis(initial) as int,
            m >= 1,
            limit == cap / 1_000_000,
            cap == duration_nanos(max),
            cap <= 18_446_744_073_709_551_615_999_999_999,
            v == m * pow2(k as nat),
            v <= 18_446_744_073_709_551_615_999 || v <= 2 * limit,
        decreases e - k,
    {
        if v > limit {
            proof {
                lemma_scaled_le(m, k as nat, e as nat);
                lemma_over_limit(v as int, cap as int);
                let r = m * pow2(e as nat);
                assert(r * 1_000_000 >= v * 1_000_000) by (nonlinear_arith)
                    requires
                        r >= v,
                ;
            }
            return max;
        }
        proof {
            lemma_pow2_unfold((k + 1) as nat);
            let p = pow2(k as nat);
            assert(m * (2 * p) == 2 * (m * p)) by (nonlinear_arith);
        }
        v = v * 2;
        k = k + 1;
    }
    if v > limit {
        return max;
    }
    let ns: u128 = v * 1_000_000;
    let secs: u64 = (ns / 1_000_000_000) as u64;
    let nanos: u32 = (ns % 1_000_000_000) as u32;
    duration_new(secs, nanos)
}

/// Whether to try again after attempt number `attempt` failed with `err`,
/// and after how long: only while attempts remain and the error is
/// retryable.
pub fn retry_delay(config: &FetcherConfig, attempt: u32, err: &RdapError) -> (res: Option<Duration>)
    requires
        attempt >= 1,
    ensures
        res is Some <==> (attempt < config.max_attempts && spec_is_retryable(*err)),
        res matches Some(d) ==> duration_nanos(d) == backoff_nanos(
            attempt,
            config.initial_backoff,
            config.max_backoff,
        ),
{
    if attempt < config.max_attempts && is_retryable(err) {
        Some(backoff(attempt, config.initial_backoff, config.max_backoff))
    } else {
        None
    }
}

/// Back-off never shrinks from one retry to the next and never exceeds the
/// cap: each wait is at least as long as the one before it.
pub proof fn law_backoff_never_shrinks(attempt: u32, initial: Duration, max: Duration)
    requires
        1 <= attempt < u32::MAX,
    ensures
        backoff_nanos(attempt, initial, max) <= backoff_nanos((attempt + 1) as u32, initial, max),
        backoff_nanos((attempt + 1) as u32, initial, max) <= duration_nanos(max),
{
    assert(((attempt + 1) as u32 - 1) as nat == attempt as nat);
    lemma_scaled_le(initial_millis(initial) as int, (attempt - 1) as nat, attempt as nat);
}

// ── Responses and transport failures ─────────────────────────────────────────

/// A success status: the 2xx range, as `StatusCode::is_success` checks.
pub open spec fn is_success(status: u16) -> bool {
    200 <= status && status <= 299
}

/// The error for a response with status `status` to a request for `url`:
/// none for a success, else `HttpStatus` with the status and the URL.
pub fn status_error(status: u16, url: &str) -> (res: Option<RdapError>)
    ensures
        match res {
            None => is_success(status),
            Some(e) => !is_success(status) && (e matches RdapError::HttpStatus { status: s, url: u }
                && s == status && u@ == url@),
        },
{
    if 200 <= status && status <= 299 {
        None
    } else {
        Some(RdapError::HttpStatus { status, url: owned(url) })
    }
}

/// Calls `reqwest::Error::is_timeout`, which looks through the chain of
/// underlying causes for a timeout. The chain depends on what happened on
/// the network, so nothing is stated of the answer.
#[verifier::external_body]
fn error_is_timeout(e: &reqwest::Error) -> bool {
    e.is_timeout()
}

/// The error for a request to `url` that failed in transport, given whether
/// it timed out: `Timeout` with the configured timeout in whole milliseconds
/// (truncated to `u64`), else `Network` with the transport error itself.
pub fn transport_error_of(e: reqwest::Error, timed_out: bool, timeout: Duration, url: &str) -> (res:
    RdapError)
    ensures
        timed_out ==> (res matches RdapError::Timeout { millis, url: u } && millis == (
        duration_nanos(timeout) / 1_000_000) as u64 && u@ == url@),
        !timed_out ==> res == RdapError::Network(e),
{
    if timed_out {
        RdapError::Timeout { millis: as_millis(timeout) as u64, url: owned(url) }
    } else {
        RdapError::Network(e)
    }
}

/// The error for a request to `url` that failed in transport: `Timeout`
/// where the transport error is a timeout, else `Network`.
pub fn transport_error(e: reqwest::Error, timeout: Duration, url: &str) -> (res: RdapError)
    ensures
        res matches RdapError::Timeout { millis, url: u } ==> millis == (duration_nanos(timeout)
            / 1_000_000) as u64 && u@ == url@,
        res is Timeout || res == RdapError::Network(e),
{
    let timed_out = error_is_timeout(&e);
    transport_error_of(e, timed_out, timeout, url)
}

} // verus!
