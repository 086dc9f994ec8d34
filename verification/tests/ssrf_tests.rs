//! SSRF guard.

use rdapify::security::{SsrfConfig, SsrfGuard};
use rdapify::bootstrap::discovery::IpAddrParts;
use rdapify::RdapError;

#[test]
fn allows_public_https() {
    let guard = SsrfGuard::new();
    assert!(guard.validate("https://rdap.verisign.com/com/v1/").is_ok());
    assert!(guard.validate("https://rdap.arin.net/registry/").is_ok());
}

#[test]
fn blocks_http() {
    let guard = SsrfGuard::new();
    let err = guard.validate("http://rdap.verisign.com/").unwrap_err();
    assert!(matches!(err, RdapError::InsecureScheme { .. }));
}

#[test]
fn blocks_localhost() {
    let guard = SsrfGuard::new();
    assert!(guard.validate("https://127.0.0.1/").unwrap_err().is_ssrf_blocked());
    assert!(guard.validate("https://[::1]/").unwrap_err().is_ssrf_blocked());
}

#[test]
fn blocks_private_ranges() {
    let guard = SsrfGuard::new();
    assert!(guard.validate("https://10.0.0.1/").unwrap_err().is_ssrf_blocked());
    assert!(guard.validate("https://192.168.1.1/").unwrap_err().is_ssrf_blocked());
    assert!(guard.validate("https://172.16.0.1/").unwrap_err().is_ssrf_blocked());
}

#[test]
fn blocks_link_local() {
    let guard = SsrfGuard::new();
    assert!(guard.validate("https://169.254.1.1/").unwrap_err().is_ssrf_blocked());
    assert!(guard.validate("https://[fe80::1]/").unwrap_err().is_ssrf_blocked());
}

#[test]
fn allowlist_overrides_blocklist() {
    let guard = SsrfGuard::with_config(SsrfConfig {
        enabled: true,
        allowed_domains: vec!["rdap.verisign.com".into()],
        blocked_domains: vec!["rdap.verisign.com".into()],
    });
    assert!(guard.validate("https://rdap.verisign.com/com/v1/").is_ok());
}

#[test]
fn allowlist_blocks_unlisted() {
    let guard = SsrfGuard::with_config(SsrfConfig {
        enabled: true,
        allowed_domains: vec!["rdap.verisign.com".into()],
        ..Default::default()
    });
    assert!(guard.validate("https://rdap.arin.net/registry/").unwrap_err().is_ssrf_blocked());
}

#[test]
fn disabled_guard_allows_everything() {
    let guard = SsrfGuard::with_config(SsrfConfig { enabled: false, ..Default::default() });
    assert!(guard.validate("http://127.0.0.1/").is_ok());
}

#[test]
fn blocklist_matches_domain_and_subdomains_case_insensitively() {
    let guard = SsrfGuard::with_config(SsrfConfig {
        enabled: true,
        blocked_domains: vec!["Internal.Corp".into()],
        ..Default::default()
    });
    let err = guard.validate("https://api.internal.corp/x").unwrap_err();
    assert!(matches!(
        err,
        RdapError::SsrfBlocked { ref url, ref reason }
            if url == "https://api.internal.corp/x"
                && reason == "domain 'api.internal.corp' is in the blocked-domains list"
    ));
    assert!(guard.validate("https://internal.corp/").is_err());
    assert!(guard.validate("https://notinternal.corp/").is_ok());
}

#[test]
fn allowlist_reason_and_subdomains() {
    let guard = SsrfGuard::with_config(SsrfConfig {
        enabled: true,
        allowed_domains: vec!["example.net".into()],
        ..Default::default()
    });
    assert!(guard.validate("https://rdap.example.net/").is_ok());
    // Allowlisted hosts skip the IP checks, and the allowlist holds no IPs here.
    let err = guard.validate("https://10.0.0.1/").unwrap_err();
    assert!(matches!(
        err,
        RdapError::SsrfBlocked { ref reason, .. }
            if reason == "host '10.0.0.1' is not in the allowed-domains list"
    ));
}

#[test]
fn ip_block_reasons() {
    let guard = SsrfGuard::new();
    let reason = |u: &str| match guard.validate(u) {
        Err(RdapError::SsrfBlocked { reason, .. }) => reason,
        other => panic!("unexpected: {other:?}"),
    };
    assert_eq!(reason("https://127.1.2.3/"), "IPv4 loopback address (127/8)");
    assert_eq!(reason("https://172.31.0.1/"), "private IPv4 address (RFC 1918)");
    assert_eq!(reason("https://255.255.255.255/"), "IPv4 broadcast address");
    assert_eq!(reason("https://0.0.0.0/"), "unspecified IPv4 address (0.0.0.0/8)");
    assert_eq!(reason("https://[fd00::1]/"), "IPv6 unique-local address (fc00::/7)");
    assert_eq!(reason("https://[::]/"), "unspecified IPv6 address (::/128)");
    assert_eq!(reason("https://[febf::1]/"), "IPv6 link-local address (fe80::/10)");
    assert!(guard.validate("https://172.32.0.1/").is_ok());
    assert!(guard.validate("https://[2001:4860::8888]/").is_ok());
    assert!(guard.validate("https://[fec0::1]/").is_ok());
}

#[test]
fn unparsable_and_hostless_urls() {
    let guard = SsrfGuard::new();
    let err = guard.validate("not a url").unwrap_err();
    assert!(matches!(err, RdapError::InvalidUrl { ref url, .. } if url == "not a url"));
    assert_eq!(err.status_code(), 400);
    let err = guard.validate("ftp://example.com/").unwrap_err();
    assert!(matches!(err, RdapError::InsecureScheme { ref scheme } if scheme == "ftp"));
}

#[test]
fn private_ip_queries_are_blocked() {
    let guard = SsrfGuard::new();
    let err = guard.check_ip_query(&IpAddrParts::V4([192, 168, 1, 1]), "192.168.1.1").unwrap_err();
    assert!(matches!(&err, RdapError::SsrfBlocked { url, .. } if url == "192.168.1.1"));
    assert!(guard.check_ip_query(&IpAddrParts::V4([127, 0, 0, 1]), "127.0.0.1").is_err());
    let mut v6 = [0u8; 16];
    v6[15] = 1;
    assert!(guard.check_ip_query(&IpAddrParts::V6(v6), "::1").unwrap_err().is_ssrf_blocked());
    assert!(guard.check_ip_query(&IpAddrParts::V4([8, 8, 8, 8]), "8.8.8.8").is_ok());
    let open = SsrfGuard::with_config(SsrfConfig { enabled: false, ..SsrfConfig::default() });
    assert!(open.check_ip_query(&IpAddrParts::V4([10, 0, 0, 1]), "10.0.0.1").is_ok());
}

#[test]
fn allowlist_is_case_insensitive() {
    let guard = SsrfGuard::with_config(SsrfConfig {
        enabled: true,
        blocked_domains: vec![],
        allowed_domains: vec!["RDAP.Verisign.COM".to_string()],
    });
    assert!(guard.validate("https://rdap.verisign.com/com/v1/").is_ok());
}
