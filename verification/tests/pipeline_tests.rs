//! The query pipeline of the client, offline: bootstrap file → server →
//! query URL → SSRF check → cache → normalised response.

use rdapify::bootstrap::discovery::{
    extract_tld, flatten_services, invalid_address, match_asn_entries, match_domain_entries,
    match_ip_entries, IpAddrParts,
};
use rdapify::client::{asn_query_url, availability, normalise_domain, parse_asn, query_url};
use rdapify::http::fetcher::{retry_delay, status_error};
use rdapify::stream::domain_event;
use rdapify::{
    DomainEvent, FetcherConfig, JsonNumber, JsonValue, MemoryCache, Normalizer, RdapError,
    SsrfConfig, SsrfGuard,
};

fn to_json(v: serde_json::Value) -> JsonValue {
    match v {
        serde_json::Value::Null => JsonValue::Null,
        serde_json::Value::Bool(b) => JsonValue::Bool(b),
        serde_json::Value::Number(n) => {
            if let Some(u) = n.as_u64() {
                JsonValue::Number(JsonNumber::PosInt(u))
            } else if let Some(i) = n.as_i64() {
                JsonValue::Number(JsonNumber::NegInt(i))
            } else {
                JsonValue::Number(JsonNumber::Float(n.to_string()))
            }
        }
        serde_json::Value::String(s) => JsonValue::String(s),
        serde_json::Value::Array(a) => JsonValue::Array(a.into_iter().map(to_json).collect()),
        serde_json::Value::Object(m) => {
            JsonValue::Object(m.into_iter().map(|(k, v)| (k, to_json(v))).collect())
        }
    }
}

fn json(text: &str) -> JsonValue {
    to_json(serde_json::from_str(text).unwrap())
}

/// The `(pattern, server)` entries of a bootstrap file.
fn bootstrap_entries(file: &str) -> Vec<(String, String)> {
    let v: serde_json::Value = serde_json::from_str(file).unwrap();
    let services: Vec<(Vec<String>, Vec<String>)> =
        serde_json::from_value(v["services"].clone()).unwrap();
    flatten_services(&services)
}

const BASE: &str = "https://mock.example";

fn dns_file() -> String {
    format!(
        r#"{{"version": "1.0", "publication": "2024-01-01T00:00:00Z",
            "services": [[["com"], ["{BASE}/rdap"]]]}}"#
    )
}

fn domain_body(ldh: &str) -> String {
    format!(
        r#"{{
            "objectClassName": "domain",
            "handle": "2138514_DOMAIN_COM-VRSN",
            "ldhName": "{ldh}",
            "unicodeName": "{ldh}",
            "status": ["client delete prohibited", "client transfer prohibited", "active"],
            "nameservers": [
                {{ "objectClassName": "nameserver", "ldhName": "ns1.example.com" }},
                {{ "objectClassName": "nameserver", "ldhName": "ns2.example.com" }}
            ],
            "entities": [{{
                "objectClassName": "entity",
                "handle": "292",
                "roles": ["registrar"],
                "vcardArray": ["vcard", [
                    ["version", {{}}, "text", "4.0"],
                    ["fn", {{}}, "text", "Test Registrar Inc."]
                ]],
                "links": [{{ "href": "https://www.test-registrar.com", "rel": "self", "type": "text/html" }}]
            }}],
            "events": [
                {{ "eventAction": "registration", "eventDate": "1995-08-14T04:00:00Z" }},
                {{ "eventAction": "expiration",   "eventDate": "2025-08-13T04:00:00Z" }},
                {{ "eventAction": "last changed", "eventDate": "2023-08-14T07:01:14Z" }}
            ]
        }}"#
    )
}

#[test]
fn pipeline_domain_query_is_normalised() {
    let domain = normalise_domain("example.com").unwrap();
    let tld = extract_tld(&domain).unwrap();
    let server = match_domain_entries(&bootstrap_entries(&dns_file()), &tld, &domain).unwrap();
    assert_eq!(server, "https://mock.example/rdap");
    let url = query_url(&server, "domain", &domain);
    assert_eq!(url, "https://mock.example/rdap/domain/example.com");
    assert!(SsrfGuard::new().validate(&url).is_ok());

    let res = Normalizer::new().domain(&domain, json(&domain_body(&domain)), &server, false).unwrap();
    assert_eq!(res.query, "example.com");
    assert_eq!(res.ldh_name.as_deref(), Some("example.com"));
    assert!(res.nameservers.contains(&"ns1.example.com".to_string()));
    assert_eq!(res.registrar.as_ref().unwrap().name.as_deref(), Some("Test Registrar Inc."));
    assert_eq!(res.expiration_date(), Some("2025-08-13T04:00:00Z"));
    assert_eq!(res.registration_date(), Some("1995-08-14T04:00:00Z"));
    assert!(!res.meta.cached);
    assert!(res.is_active());

    let avail = availability(domain, Ok(res)).unwrap();
    assert!(!avail.available);
    assert_eq!(avail.expires_at.as_deref(), Some("2025-08-13T04:00:00Z"));
}

#[test]
fn pipeline_idn_domain_uses_punycode() {
    let domain = normalise_domain("пример.com").unwrap();
    assert_eq!(domain, "xn--e1afmkfd.com");
    let tld = extract_tld(&domain).unwrap();
    let server = match_domain_entries(&bootstrap_entries(&dns_file()), &tld, &domain).unwrap();
    assert_eq!(query_url(&server, "domain", &domain), "https://mock.example/rdap/domain/xn--e1afmkfd.com");
}

#[test]
fn pipeline_unknown_tld_has_no_server() {
    let err = match_domain_entries(&bootstrap_entries(&dns_file()), "xyz", "example.xyz").unwrap_err();
    assert!(matches!(&err, RdapError::NoServerFound { query } if query == "example.xyz"));
}

#[test]
fn pipeline_error_statuses() {
    let url = "https://mock.example/rdap/domain/notfound.com";
    let err = status_error(404, url).unwrap();
    assert!(matches!(err, RdapError::HttpStatus { status: 404, .. }));
    let avail = availability("notfound.com".to_string(), Err(err)).unwrap();
    assert!(avail.available);
    assert!(matches!(status_error(503, "https://mock.example/dns.json"), Some(RdapError::HttpStatus { status: 503, .. })));
    // With a single attempt a failure is not retried.
    let config = FetcherConfig { max_attempts: 1, ..FetcherConfig::default() };
    let err = RdapError::HttpStatus { status: 503, url: url.to_string() };
    assert!(retry_delay(&config, 1, &err).is_none());
}

#[test]
fn pipeline_ip_and_asn_queries() {
    let v4 = bootstrap_entries(&format!(
        r#"{{"version": "1.0", "services": [[["8.0.0.0/8"], ["{BASE}/rdap"]]]}}"#
    ));
    let server = match_ip_entries(&v4, &IpAddrParts::V4([8, 8, 8, 8]), "8.8.8.8").unwrap();
    assert_eq!(query_url(&server, "ip", "8.8.8.8"), "https://mock.example/rdap/ip/8.8.8.8");
    assert!(invalid_address("not-an-ip", "IP").is_invalid_input());

    let asn = bootstrap_entries(&format!(
        r#"{{"version": "1.0", "services": [[["15169-15169"], ["{BASE}/rdap"]]]}}"#
    ));
    for q in ["15169", "AS15169"] {
        let n = parse_asn(q).unwrap();
        let server = match_asn_entries(&asn, n).unwrap();
        assert_eq!(asn_query_url(&server, n), "https://mock.example/rdap/autnum/15169");
    }
    assert!(parse_asn("not-a-number").unwrap_err().is_invalid_input());
}

#[test]
fn pipeline_entity_server_is_checked_by_the_guard() {
    let guard = SsrfGuard::new();
    let url = query_url("https://192.168.1.1/rdap", "entity", "SOME-HANDLE");
    assert!(guard.validate(&url).unwrap_err().is_ssrf_blocked());
    let url = query_url("http://rdap.arin.net/registry", "entity", "SOME-HANDLE");
    assert!(matches!(guard.validate(&url).unwrap_err(), RdapError::InsecureScheme { .. }));
    let open = SsrfGuard::with_config(SsrfConfig { enabled: false, ..SsrfConfig::default() });
    assert!(open.validate("http://127.0.0.1:1234/rdap/domain/example.com").is_ok());
}

#[test]
fn pipeline_second_request_is_served_from_cache() {
    let url = "https://mock.example/rdap/domain/example.com";
    let mut cache = MemoryCache::new();
    assert!(cache.get(url).is_none());
    cache.set(url.to_string(), json(&domain_body("example.com")));
    let cached = cache.get(url).expect("second request should hit the cache");
    let res = Normalizer::new().domain("example.com", cached, "https://mock.example/rdap", true).unwrap();
    assert!(res.meta.cached);
    assert_eq!(res.ldh_name.as_deref(), Some("example.com"));
}

#[test]
fn pipeline_stream_isolates_errors() {
    let ok = Normalizer::new()
        .domain("example.com", json(&domain_body("example.com")), "s", false)
        .unwrap();
    let events = vec![
        domain_event("example.com".to_string(), Ok(ok)),
        domain_event(
            "notfound.com".to_string(),
            Err(RdapError::HttpStatus { status: 404, url: "u".to_string() }),
        ),
    ];
    assert!(matches!(&events[0], DomainEvent::Result(r) if r.query == "example.com"));
    assert!(matches!(&events[1], DomainEvent::Error { query, .. } if query == "notfound.com"));
}
