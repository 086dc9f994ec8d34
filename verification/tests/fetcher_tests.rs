//! Fetch policy: back-off, retryable errors, defaults.

use rdapify::http::fetcher::{
    backoff, is_retryable, retry_delay, status_error, transport_error,
    transport_error_of, FetcherConfig,
};
use rdapify::RdapError;
use std::time::Duration;

#[test]
fn backoff_grows_exponentially() {
    let base = Duration::from_millis(500);
    let cap = Duration::from_secs(8);
    assert_eq!(backoff(1, base, cap), Duration::from_millis(500));
    assert_eq!(backoff(2, base, cap), Duration::from_millis(1000));
    assert_eq!(backoff(3, base, cap), Duration::from_millis(2000));
    assert_eq!(backoff(4, base, cap), Duration::from_millis(4000));
    assert_eq!(backoff(5, base, cap), Duration::from_millis(8000));
    assert_eq!(backoff(6, base, cap), Duration::from_secs(8)); // capped
}

#[test]
fn backoff_saturates_on_very_large_attempt() {
    // Attempt 64 would overflow u64 without saturation.
    let base = Duration::from_millis(1);
    let cap = Duration::from_secs(30);
    let result = backoff(64, base, cap);
    assert_eq!(result, cap);
}

#[test]
fn backoff_respects_cap_immediately_when_initial_exceeds_max() {
    let base = Duration::from_secs(10);
    let cap = Duration::from_secs(5);
    assert_eq!(backoff(1, base, cap), cap);
}

#[test]
fn backoff_truncates_initial_to_whole_millis() {
    let base = Duration::from_micros(1500);
    let cap = Duration::from_secs(1);
    assert_eq!(backoff(2, base, cap), Duration::from_millis(2));
}

#[test]
fn backoff_follows_the_formula_beyond_u64_millis() {
    let base = Duration::from_millis(u64::MAX);
    assert_eq!(backoff(10, base, Duration::MAX), base.checked_mul(512).unwrap());
    assert_eq!(backoff(12, base, Duration::MAX), Duration::MAX);
    assert_eq!(backoff(u32::MAX, Duration::from_millis(1), Duration::from_secs(3)), Duration::from_secs(3));
    assert_eq!(backoff(u32::MAX, Duration::ZERO, Duration::from_secs(3)), Duration::ZERO);
}

#[test]
fn every_5xx_status_is_retryable() {
    for status in [500u16, 501, 505, 550, 599] {
        let err = RdapError::HttpStatus { status, url: "https://example.com/".to_string() };
        assert!(is_retryable(&err), "expected {status} to be retryable");
    }
    for status in [428u16, 430, 499, 600] {
        let err = RdapError::HttpStatus { status, url: "https://example.com/".to_string() };
        assert!(!is_retryable(&err), "expected {status} to NOT be retryable");
    }
}

#[test]
fn retryable_http_statuses() {
    for status in [429u16, 500, 502, 503, 504] {
        let err = RdapError::HttpStatus { status, url: "https://example.com/".to_string() };
        assert!(is_retryable(&err), "expected {status} to be retryable");
    }
}

#[test]
fn non_retryable_http_statuses() {
    for status in [400u16, 401, 403, 404, 422] {
        let err = RdapError::HttpStatus { status, url: "https://example.com/".to_string() };
        assert!(!is_retryable(&err), "expected {status} to NOT be retryable");
    }
}

#[test]
fn timeout_is_retryable() {
    let err = RdapError::Timeout { millis: 5000, url: "https://example.com/".to_string() };
    assert!(is_retryable(&err));
}

#[test]
fn input_errors_are_not_retryable() {
    assert!(!is_retryable(&RdapError::InvalidInput("bad".to_string())));
    assert!(!is_retryable(&RdapError::SsrfBlocked {
        url: "http://127.0.0.1/".to_string(),
        reason: "loopback".to_string(),
    }));
    assert!(!is_retryable(&RdapError::ParseError {
        reason: "invalid JSON".to_string(),
    }));
    assert!(!is_retryable(&RdapError::NoServerFound {
        query: "unknown.tld".to_string(),
    }));
}

#[test]
fn default_config_values() {
    let cfg = FetcherConfig::default();
    assert_eq!(cfg.timeout, Duration::from_secs(10));
    assert_eq!(cfg.max_attempts, 3);
    assert_eq!(cfg.initial_backoff, Duration::from_millis(500));
    assert_eq!(cfg.max_backoff, Duration::from_secs(8));
    assert!(cfg.user_agent.starts_with("rdapify/"));
    assert!(cfg.user_agent.contains("rdapify.com"));
}

#[test]
fn fetcher_config_reuse_connections_default_is_true() {
    let config = FetcherConfig::default();
    assert!(config.reuse_connections);
    assert_eq!(config.max_connections_per_host, 10);
}

#[test]
fn retry_delay_only_while_attempts_remain() {
    let cfg = FetcherConfig::default();
    let err = RdapError::HttpStatus { status: 503, url: "https://x/".to_string() };
    assert_eq!(retry_delay(&cfg, 1, &err), Some(Duration::from_millis(500)));
    assert_eq!(retry_delay(&cfg, 2, &err), Some(Duration::from_millis(1000)));
    assert_eq!(retry_delay(&cfg, 3, &err), None);
    let fatal = RdapError::HttpStatus { status: 404, url: "https://x/".to_string() };
    assert_eq!(retry_delay(&cfg, 1, &fatal), None);
    let once = FetcherConfig { max_attempts: 1, ..FetcherConfig::default() };
    assert_eq!(retry_delay(&once, 1, &err), None);
}

#[test]
fn backoff_never_shrinks_and_stays_capped() {
    let base = Duration::from_millis(300);
    let cap = Duration::from_secs(5);
    let mut previous = Duration::ZERO;
    for attempt in 1..=40u32 {
        let d = backoff(attempt, base, cap);
        assert!(d >= previous);
        assert!(d <= cap);
        previous = d;
    }
    assert_eq!(backoff(40, base, cap), cap);
}

#[test]
fn non_success_status_becomes_http_status_error() {
    assert!(status_error(200, "https://r/x").is_none());
    assert!(status_error(299, "https://r/x").is_none());
    let err = status_error(404, "https://r/x").unwrap();
    assert!(matches!(&err, RdapError::HttpStatus { status: 404, url } if url == "https://r/x"));
    assert!(matches!(status_error(199, "u"), Some(RdapError::HttpStatus { status: 199, .. })));
    assert!(matches!(status_error(300, "u"), Some(RdapError::HttpStatus { status: 300, .. })));
}

#[test]
fn transport_failures_become_timeout_or_network_errors() {
    let make = || reqwest::Client::new().get("not a url").build().unwrap_err();
    let err = transport_error(make(), Duration::from_millis(2500), "https://r/x");
    assert!(matches!(err, RdapError::Network(_)));
    let err = transport_error_of(make(), true, Duration::from_millis(2500), "https://r/x");
    assert!(matches!(&err, RdapError::Timeout { millis: 2500, url } if url == "https://r/x"));
    assert!(matches!(transport_error_of(make(), false, Duration::ZERO, "u"), RdapError::Network(_)));
}

#[test]
fn backoff_keeps_initial_delays_beyond_u64_millis() {
    let huge = Duration::from_secs(1u64 << 63);
    assert_eq!(backoff(1, huge, Duration::from_secs(1)), Duration::from_secs(1));
    assert_eq!(backoff(1, huge, Duration::MAX), huge);
    assert_eq!(backoff(2, huge, Duration::MAX), Duration::MAX);
}
