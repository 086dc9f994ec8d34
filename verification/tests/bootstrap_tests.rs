//! Bootstrap discovery: TLD extraction and server lookup.

use rdapify::bootstrap::discovery::{
    extract_tld, flatten_services, invalid_address, match_asn_entries, match_domain_entries,
    match_ip_entries, network_contains, server_for_tld, CacheEntry, IpAddrParts, IpNet,
};
use rdapify::RdapError;
use std::time::Duration;

fn entries(pairs: &[(&str, &str)]) -> Vec<(String, String)> {
    pairs.iter().map(|(p, s)| (p.to_string(), s.to_string())).collect()
}

#[test]
fn extracts_simple_tld() {
    assert_eq!(extract_tld("example.com").unwrap(), "com");
    assert_eq!(extract_tld("google.org").unwrap(), "org");
}

#[test]
fn extracts_from_subdomain() {
    assert_eq!(extract_tld("www.example.com").unwrap(), "com");
    assert_eq!(extract_tld("deep.sub.example.net").unwrap(), "net");
}

#[test]
fn handles_single_label() {
    assert_eq!(extract_tld("com").unwrap(), "com");
}

#[test]
fn rejects_empty() {
    assert!(extract_tld("").is_err());
}

#[test]
fn extract_tld_lowercases_and_strips_trailing_dots() {
    assert_eq!(extract_tld("Example.COM.").unwrap(), "com");
    assert_eq!(extract_tld("example.com..").unwrap(), "com");
    let err = extract_tld("...").unwrap_err();
    assert!(matches!(err, RdapError::InvalidInput(ref m) if m == "Domain name must not be empty"));
}

#[test]
fn flatten_pairs_each_pattern_with_first_server() {
    let services = vec![
        (
            vec!["com".to_string(), "net".to_string()],
            vec!["https://rdap.verisign.com/com/v1/".to_string(), "https://backup/".to_string()],
        ),
        (vec!["org".to_string()], vec![]),
        (vec!["io".to_string()], vec!["https://rdap.nic.io//".to_string()]),
    ];
    let flat = flatten_services(&services);
    assert_eq!(
        flat,
        entries(&[
            ("com", "https://rdap.verisign.com/com/v1"),
            ("net", "https://rdap.verisign.com/com/v1"),
            ("io", "https://rdap.nic.io"),
        ])
    );
}

#[test]
fn domain_lookup_is_case_insensitive_and_first_match_wins() {
    let e = entries(&[("COM", "https://first"), ("com", "https://second"), ("org", "https://org")]);
    assert_eq!(match_domain_entries(&e, "com", "example.com").unwrap(), "https://first");
    assert_eq!(match_domain_entries(&e, "org", "example.org").unwrap(), "https://org");
    let err = match_domain_entries(&e, "xyz", "example.xyz").unwrap_err();
    assert!(matches!(err, RdapError::NoServerFound { ref query } if query == "example.xyz"));
}

#[test]
fn asn_lookup_matches_ranges_and_single_numbers() {
    let e = entries(&[("1-100", "https://low"), ("15169", "https://google"), ("x-y", "https://bad")]);
    assert_eq!(match_asn_entries(&e, 1).unwrap(), "https://low");
    assert_eq!(match_asn_entries(&e, 100).unwrap(), "https://low");
    assert_eq!(match_asn_entries(&e, 15169).unwrap(), "https://google");
    let err = match_asn_entries(&e, 15170).unwrap_err();
    assert!(matches!(err, RdapError::NoServerFound { ref query } if query == "AS15170"));
}

#[test]
fn asn_lookup_range_with_unreadable_bounds_matches_nothing() {
    let e = entries(&[("-5", "https://a"), ("5-", "https://b")]);
    assert!(match_asn_entries(&e, 0).is_err());
    assert!(match_asn_entries(&e, 5).is_err());
}

#[test]
fn ip_lookup_matches_networks() {
    let e = entries(&[
        ("not a network", "https://skip"),
        ("8.0.0.0/8", "https://arin"),
        ("2001:4800::/23", "https://v6"),
    ]);
    let a = IpAddrParts::V4([8, 8, 8, 8]);
    assert_eq!(match_ip_entries(&e, &a, "8.8.8.8").unwrap(), "https://arin");
    let mut v6 = [0u8; 16];
    v6[0] = 0x20;
    v6[1] = 0x01;
    v6[2] = 0x48;
    v6[3] = 0x60;
    assert_eq!(
        match_ip_entries(&e, &IpAddrParts::V6(v6), "2001:4860::").unwrap(),
        "https://v6"
    );
    let err = match_ip_entries(&e, &IpAddrParts::V4([9, 9, 9, 9]), "9.9.9.9").unwrap_err();
    assert!(matches!(err, RdapError::NoServerFound { ref query } if query == "9.9.9.9"));
}

#[test]
fn network_contains_compares_prefix_bits() {
    let net = IpNet { addr: IpAddrParts::V4([172, 16, 0, 0]), prefix: 12 };
    assert!(network_contains(&net, &IpAddrParts::V4([172, 31, 255, 255])));
    assert!(!network_contains(&net, &IpAddrParts::V4([172, 32, 0, 0])));
    assert!(!network_contains(&net, &IpAddrParts::V6([0; 16])));
    let all = IpNet { addr: IpAddrParts::V4([1, 2, 3, 4]), prefix: 0 };
    assert!(network_contains(&all, &IpAddrParts::V4([200, 1, 1, 1])));
}

#[test]
fn invalid_address_message() {
    let err = invalid_address("nope", "IPv4");
    assert!(matches!(err, RdapError::InvalidInput(ref m) if m == "Invalid IPv4 address: nope"));
}

#[test]
fn bootstrap_cache_entry_expiry() {
    let entry = CacheEntry { entries: vec![], fetched_at: 1_000 };
    let ttl = Duration::from_nanos(500);
    assert!(!entry.is_expired(1_500, ttl));
    assert!(entry.is_expired(1_501, ttl));
    assert!(!entry.is_expired(10, ttl));
}

#[test]
fn multi_level_tlds_are_kept_whole() {
    assert_eq!(extract_tld("example.co.uk").unwrap(), "co.uk");
    assert_eq!(extract_tld("www.Example.CO.UK.").unwrap(), "co.uk");
    assert_eq!(extract_tld("co.uk").unwrap(), "co.uk");
    assert_eq!(extract_tld("shop.example.com.au").unwrap(), "com.au");
    assert_eq!(extract_tld("example.uk").unwrap(), "uk");
    assert_eq!(extract_tld("www.google.co").unwrap(), "co");
    assert_eq!(extract_tld("example.io").unwrap(), "io");
    assert_eq!(extract_tld("example.org.com").unwrap(), "com");
}

#[test]
fn multi_level_tld_falls_back_to_its_country_code() {
    let e = entries(&[("UK", "https://rdap.nominet.uk/uk"), ("com", "https://c")]);
    assert_eq!(match_domain_entries(&e, "co.uk", "example.co.uk").unwrap(), "https://rdap.nominet.uk/uk");
    let e2 = entries(&[("co.uk", "https://special"), ("uk", "https://general")]);
    assert_eq!(server_for_tld(&e2, "co.uk").as_deref(), Some("https://special"));
    assert_eq!(server_for_tld(&e2, "org.uk").as_deref(), Some("https://general"));
    assert!(server_for_tld(&e2, "com").is_none());
}
