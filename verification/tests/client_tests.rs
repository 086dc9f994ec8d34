//! Client query logic: input normalisation, URLs, availability, errors.

use rdapify::client::{
    availability, batch_limit, check_entity_query, effective_fetcher_config, normalise_domain,
    ordered_results, parse_asn, query_url, asn_query_url,
};
use rdapify::stream::{domain_event, ip_event};
use rdapify::text::{parse_u32, trim, u32_to_decimal};
use rdapify::{
    ClientConfig, DomainEvent, DomainResponse, IpEvent, IpResponse, RdapError, RdapEvent,
    ResponseMeta, StreamConfig,
};

fn meta() -> ResponseMeta {
    ResponseMeta { source: "s".to_string(), queried_at: "t".to_string(), cached: false }
}

fn domain_response(events: Vec<RdapEvent>) -> DomainResponse {
    DomainResponse {
        query: "example.com".to_string(),
        ldh_name: None,
        unicode_name: None,
        handle: None,
        status: vec![],
        nameservers: vec![],
        registrar: None,
        entities: vec![],
        events,
        links: vec![],
        remarks: vec![],
        meta: meta(),
    }
}

fn ip_response() -> IpResponse {
    IpResponse {
        query: "8.8.8.8".to_string(),
        handle: None,
        start_address: Some("8.8.8.0".to_string()),
        end_address: Some("8.8.8.255".to_string()),
        ip_version: None,
        name: None,
        allocation_type: None,
        country: None,
        parent_handle: None,
        status: vec![],
        entities: vec![],
        events: vec![],
        links: vec![],
        remarks: vec![],
        meta: meta(),
    }
}

// ── domain normalisation ──────────────────────────────────────────────────────

#[test]
fn ascii_domain_is_lowercased_and_trimmed() {
    assert_eq!(normalise_domain("EXAMPLE.COM").unwrap(), "example.com");
    assert_eq!(normalise_domain("  Example.Com.  ").unwrap(), "example.com");
    assert_eq!(normalise_domain("example.com...").unwrap(), "example.com");
}

#[test]
fn idn_domain_is_converted_to_punycode() {
    assert_eq!(normalise_domain("пример.com").unwrap(), "xn--e1afmkfd.com");
}

#[test]
fn empty_domain_is_invalid_input() {
    let err = normalise_domain("   ").unwrap_err();
    assert!(matches!(&err, RdapError::InvalidInput(m) if m == "Domain name must not be empty"));
    assert!(normalise_domain(".").unwrap_err().is_invalid_input());
    assert!(normalise_domain("").unwrap_err().is_invalid_input());
}

// ── AS numbers ────────────────────────────────────────────────────────────────

#[test]
fn asn_accepts_numeric_and_prefixed_forms() {
    assert_eq!(parse_asn("15169").unwrap(), 15169);
    assert_eq!(parse_asn("AS15169").unwrap(), 15169);
    assert_eq!(parse_asn("as15169").unwrap(), 15169);
    assert_eq!(parse_asn("+7").unwrap(), 7);
    assert_eq!(parse_asn("4294967295").unwrap(), u32::MAX);
}

#[test]
fn asn_rejects_invalid_input() {
    let err = parse_asn("not-a-number").unwrap_err();
    assert!(matches!(&err, RdapError::InvalidInput(m) if m == "Invalid ASN: not-a-number"));
    assert!(parse_asn("").unwrap_err().is_invalid_input());
    assert!(parse_asn("AS").unwrap_err().is_invalid_input());
    assert!(parse_asn("4294967296").unwrap_err().is_invalid_input());
    assert!(parse_asn("aS1").unwrap_err().is_invalid_input());
}

// ── query URLs ────────────────────────────────────────────────────────────────

#[test]
fn query_url_joins_server_kind_and_target() {
    assert_eq!(
        query_url("https://rdap.example/", "domain", "example.com"),
        "https://rdap.example/domain/example.com"
    );
    assert_eq!(
        query_url("https://rdap.example//", "nameserver", "ns1.example.com"),
        "https://rdap.example/nameserver/ns1.example.com"
    );
    assert_eq!(query_url("https://r", "ip", "8.8.8.8"), "https://r/ip/8.8.8.8");
    assert_eq!(asn_query_url("https://rdap.arin.net/registry/", 15169), "https://rdap.arin.net/registry/autnum/15169");
    assert_eq!(asn_query_url("https://r", 0), "https://r/autnum/0");
}

#[test]
fn decimal_round_trip() {
    for n in [0u32, 1, 9, 10, 15169, 4294967295] {
        assert_eq!(parse_u32(&u32_to_decimal(n)), Some(n));
        assert_eq!(u32_to_decimal(n), n.to_string());
    }
}

#[test]
fn trim_removes_unicode_white_space() {
    assert_eq!(trim("\u{3000} a b\t\n"), "a b");
}

// ── entities ──────────────────────────────────────────────────────────────────

#[test]
fn entity_query_rejects_empty_handle() {
    let err = check_entity_query("", "https://rdap.arin.net/registry").unwrap_err();
    assert!(matches!(&err, RdapError::InvalidInput(m) if m == "Entity handle must not be empty"));
}

#[test]
fn entity_query_rejects_empty_server_url() {
    let err = check_entity_query("ARIN-HN-1", "").unwrap_err();
    assert!(matches!(&err, RdapError::InvalidInput(m) if m == "Server URL must not be empty"));
    assert!(check_entity_query("ARIN-HN-1", "https://rdap.arin.net/registry").is_ok());
}

// ── availability ──────────────────────────────────────────────────────────────

#[test]
fn domain_available_returns_true_on_404() {
    let outcome = Err(RdapError::HttpStatus { status: 404, url: "u".to_string() });
    let res = availability("free-domain-xyz.com".to_string(), outcome).unwrap();
    assert!(res.available);
    assert_eq!(res.domain, "free-domain-xyz.com");
    assert!(res.expires_at.is_none());
}

#[test]
fn domain_available_returns_false_for_registered_domain() {
    let events = vec![
        RdapEvent {
            event_action: "registration".to_string(),
            event_date: "1995-08-14T04:00:00Z".to_string(),
            event_actor: None,
        },
        RdapEvent {
            event_action: "expiration".to_string(),
            event_date: "2025-08-13T04:00:00Z".to_string(),
            event_actor: None,
        },
    ];
    let res = availability("example.com".to_string(), Ok(domain_response(events))).unwrap();
    assert!(!res.available);
    assert_eq!(res.domain, "example.com");
    assert_eq!(res.expires_at.as_deref(), Some("2025-08-13T04:00:00Z"));
}

#[test]
fn domain_available_propagates_non_404_errors() {
    let outcome = Err(RdapError::HttpStatus { status: 500, url: "u".to_string() });
    let err = availability("error.com".to_string(), outcome).unwrap_err();
    assert!(matches!(err, RdapError::HttpStatus { status: 500, .. }));
    let outcome = Err(RdapError::NoServerFound { query: "x.zz".to_string() });
    let err = availability("x.zz".to_string(), outcome).unwrap_err();
    assert!(matches!(err, RdapError::NoServerFound { .. }));
}

#[test]
fn batch_limit_defaults_to_ten_and_is_at_least_one() {
    assert_eq!(batch_limit(None), 10);
    assert_eq!(batch_limit(Some(0)), 1);
    assert_eq!(batch_limit(Some(3)), 3);
}

// ── configuration ─────────────────────────────────────────────────────────────

#[test]
fn client_config_defaults() {
    let c = ClientConfig::default();
    assert!(c.cache);
    assert!(c.bootstrap_url.is_none());
    assert!(c.custom_bootstrap_servers.is_empty());
    assert!(c.reuse_connections);
    assert_eq!(c.max_connections_per_host, 10);
    assert!(c.ssrf.enabled);
}

#[test]
fn client_config_accepts_connection_pool_settings() {
    let mut c = ClientConfig::default();
    c.reuse_connections = false;
    c.max_connections_per_host = 4;
    let f = effective_fetcher_config(&c);
    assert!(!f.reuse_connections);
    assert_eq!(f.max_connections_per_host, 4);
    assert_eq!(f.max_attempts, c.fetcher.max_attempts);
}

// ── errors ────────────────────────────────────────────────────────────────────

#[test]
fn error_status_codes() {
    assert_eq!(RdapError::InvalidInput("x".to_string()).status_code(), 400);
    assert_eq!(
        RdapError::SsrfBlocked { url: "u".to_string(), reason: "r".to_string() }.status_code(),
        403
    );
    assert_eq!(RdapError::InsecureScheme { scheme: "http".to_string() }.status_code(), 403);
    assert_eq!(RdapError::NoServerFound { query: "q".to_string() }.status_code(), 404);
    assert_eq!(RdapError::HttpStatus { status: 429, url: "u".to_string() }.status_code(), 429);
    assert_eq!(RdapError::Timeout { millis: 5, url: "u".to_string() }.status_code(), 408);
    assert_eq!(RdapError::ParseError { reason: "r".to_string() }.status_code(), 500);
    assert_eq!(RdapError::MissingObjectClass.status_code(), 500);
    assert_eq!(RdapError::UnknownObjectClass { class: "c".to_string() }.status_code(), 500);
    assert_eq!(RdapError::Cache("c".to_string()).status_code(), 500);
    let boot = RdapError::BootstrapFetch {
        resource: "dns".to_string(),
        source: Box::new(RdapError::Cache("c".to_string())),
    };
    assert_eq!(boot.status_code(), 502);
    let bad = url::Url::parse("not a url").unwrap_err();
    assert_eq!(RdapError::InvalidUrl { url: "x".to_string(), source: bad }.status_code(), 400);
}

#[test]
fn error_classification() {
    assert!(RdapError::InvalidInput("x".to_string()).is_invalid_input());
    assert!(!RdapError::Cache("x".to_string()).is_invalid_input());
    assert!(RdapError::Timeout { millis: 1, url: "u".to_string() }.is_network());
    assert!(RdapError::HttpStatus { status: 500, url: "u".to_string() }.is_network());
    assert!(!RdapError::MissingObjectClass.is_network());
    assert!(RdapError::InsecureScheme { scheme: "http".to_string() }.is_ssrf_blocked());
    assert!(!RdapError::NoServerFound { query: "q".to_string() }.is_ssrf_blocked());
}

// ── streaming ─────────────────────────────────────────────────────────────────

#[test]
fn stream_events_keep_results_and_isolate_errors() {
    assert_eq!(StreamConfig::default().buffer_size, 32);
    let ok = domain_event("example.com".to_string(), Ok(domain_response(vec![])));
    assert!(matches!(ok, DomainEvent::Result(r) if r.query == "example.com"));
    let err = domain_event(
        "notfound.com".to_string(),
        Err(RdapError::HttpStatus { status: 404, url: "u".to_string() }),
    );
    assert!(matches!(err, DomainEvent::Error { ref query, .. } if query == "notfound.com"));
    let ok = ip_event("8.8.8.8".to_string(), Ok(ip_response()));
    assert!(matches!(ok, IpEvent::Result(r) if r.start_address.as_deref() == Some("8.8.8.0")));
    let err = ip_event("x".to_string(), Err(RdapError::InvalidInput("bad".to_string())));
    assert!(matches!(err, IpEvent::Error { ref query, .. } if query == "x"));
}

#[test]
fn batch_results_come_back_in_query_order() {
    let done = vec![(2usize, "c"), (0, "a"), (1, "b")];
    assert_eq!(ordered_results(3, done), vec!["a", "b", "c"]);
    // A task that never finished leaves no entry.
    assert_eq!(ordered_results(3, vec![(2usize, "c"), (0, "a")]), vec!["a", "c"]);
    // The later of two results for one slot counts.
    assert_eq!(ordered_results(1, vec![(0usize, "x"), (0, "y")]), vec!["y"]);
    assert!(ordered_results::<u8>(0, vec![]).is_empty());
}

#[test]
fn asn_in_query_url_reads_back() {
    for n in [0u32, 7, 15169, 64512, u32::MAX] {
        let digits = u32_to_decimal(n);
        assert_eq!(parse_asn(&digits).unwrap(), n);
        assert!(asn_query_url("https://r", n).ends_with(&format!("/autnum/{digits}")));
    }
}

#[test]
fn availability_passes_other_errors_through_unchanged() {
    let outcome = Err(RdapError::HttpStatus { status: 503, url: "https://r/domain/x.com".to_string() });
    let err = availability("x.com".to_string(), outcome).unwrap_err();
    assert!(matches!(&err, RdapError::HttpStatus { status: 503, url } if url == "https://r/domain/x.com"));
}
