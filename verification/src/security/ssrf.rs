//! SSRF (Server-Side Request Forgery) protection.
//!
//! Every outbound URL is validated before the HTTP request is issued.
//! The guard blocks:
//!
//! - Non-HTTPS schemes
//! - IPv4 loopback (127/8), private (RFC 1918), link-local (169.254/16),
//!   broadcast and unspecified addresses
//! - IPv6 loopback (::1), link-local (fe80::/10), unique-local (fc00::/7),
//!   and the unspecified address
//! - Explicitly blocked domain patterns
//!
//! Allowed domains (allowlist) take priority over all checks but the scheme.

use vstd::prelude::*;
use crate::bootstrap::discovery::{IpAddrParts, IpView};
use crate::error::RdapError;
use crate::text::{concat2, concat3, ends_with, has_suffix, lowercase_chars, owned, str_eq, to_lowercase};

verus! {

// ── Parsed URLs ───────────────────────────────────────────────────────────────

/// The host of a parsed URL, as `url::Host` gives it.
#[derive(Debug)]
pub enum UrlHost {
    /// A DNS domain name (punycode for special URLs).
    Domain(String),
    /// An IPv4 address, as its four octets.
    Ipv4([u8; 4]),
    /// An IPv6 address, as its sixteen octets.
    Ipv6([u8; 16]),
}

/// The parts of a parsed URL that the guard reads.
#[derive(Debug)]
pub struct ParsedUrl {
    /// `Url::scheme`: lower-cased, without the `:`.
    pub scheme: String,
    /// `Url::host`.
    pub host: Option<UrlHost>,
    /// `Url::host_str`.
    pub host_str: Option<String>,
}

/// The mathematical value of a [`UrlHost`].
pub enum HostView {
    Domain(Seq<char>),
    Ipv4(Seq<u8>),
    Ipv6(Seq<u8>),
}

/// The mathematical value of a [`ParsedUrl`].
pub struct UrlView {
    pub scheme: Seq<char>,
    pub host: Option<HostView>,
    pub host_str: Option<Seq<char>>,
}

impl View for UrlHost {
    type V = HostView;

    open spec fn view(&self) -> HostView {
        match self {
            UrlHost::Domain(d) => HostView::Domain(d@),
            UrlHost::Ipv4(o) => HostView::Ipv4(o@),
            UrlHost::Ipv6(o) => HostView::Ipv6(o@),
        }
    }
}

impl View for ParsedUrl {
    type V = UrlView;

    open spec fn view(&self) -> UrlView {
        UrlView {
            scheme: self.scheme@,
            host: match self.host {
                Some(h) => Some(h@),
                None => None,
            },
            host_str: match self.host_str {
                Some(s) => Some(s@),
                None => None,
            },
        }
    }
}

/// What `url::Url::parse` makes of a string: `None` where it returns an
/// error, else the scheme, host and host string of the parsed URL.
pub uninterp spec fn parsed_url(raw: Seq<char>) -> Option<UrlView>;

/// Calls `url::Url::parse`, then reads `scheme`, `host` and `host_str` of
/// the result. The contract ties the outcome to [`parsed_url`] of the input.
#[verifier::external_body]
pub(crate) fn parse_url(raw: &str) -> (res: Result<ParsedUrl, url::ParseError>)
    ensures
        match res {
            Ok(u) => parsed_url(raw@) == Some(u@),
            Err(_) => parsed_url(raw@) is None,
        },
{
    let u = url::Url::parse(raw)?;
    let host = match u.host() {
        None => None,
        Some(url::Host::Domain(d)) => Some(UrlHost::Domain(d.to_string())),
        Some(url::Host::Ipv4(a)) => Some(UrlHost::Ipv4(a.octets())),
        Some(url::Host::Ipv6(a)) => Some(UrlHost::Ipv6(a.octets())),
    };
    let host_str = u.host_str().map(|h| h.to_string());
    Ok(ParsedUrl { scheme: u.scheme().to_string(), host, host_str })
}

// ── Configuration ─────────────────────────────────────────────────────────────

/// Configuration for the SSRF guard.
#[derive(Debug, Clone)]
pub struct SsrfConfig {
    /// When `false` all checks are skipped (for testing only — never in production).
    pub enabled: bool,
    /// Additional domain suffixes to block (e.g., "internal.corp").
    pub blocked_domains: Vec<String>,
    /// If non-empty, only these domain suffixes are allowed.
    /// Takes priority over `blocked_domains` and IP checks.
    pub allowed_domains: Vec<String>,
}

/// The characters of each string in a sequence.
pub open spec fn string_views(v: Seq<String>) -> Seq<Seq<char>> {
    v.map_values(|s: String| s@)
}

impl Default for SsrfConfig {
    fn default() -> (c: Self)
        ensures
            c.enabled,
            c.blocked_domains@.len() == 0,
            c.allowed_domains@.len() == 0,
    {
        SsrfConfig { enabled: true, blocked_domains: Vec::new(), allowed_domains: Vec::new() }
    }
}

// ── The decision ──────────────────────────────────────────────────────────────

/// `host` is `domain` or a subdomain of it (both already lower-cased).
pub open spec fn host_matches(host: Seq<char>, domain: Seq<char>) -> bool {
    host == domain || has_suffix(host, "."@ + domain)
}

/// Some entry of `list` matches `host`, compared lower-cased.
pub open spec fn listed(list: Seq<Seq<char>>, host: Seq<char>) -> bool {
    exists|i: int|
        0 <= i < list.len() && host_matches(
            lowercase_chars(host),
            lowercase_chars(#[trigger] list[i]),
        )
}

/// Why an IPv4 address is blocked, if it is.
pub open spec fn ipv4_block_reason(o: Seq<u8>) -> Option<Seq<char>> {
    if o[0] == 127 {
        Some("IPv4 loopback address (127/8)"@)
    } else if o[0] == 10 || (o[0] == 172 && 16 <= o[1] <= 31) || (o[0] == 192 && o[1] == 168) {
        Some("private IPv4 address (RFC 1918)"@)
    } else if o[0] == 169 && o[1] == 254 {
        Some("IPv4 link-local address (169.254/16)"@)
    } else if o[0] == 255 && o[1] == 255 && o[2] == 255 && o[3] == 255 {
        Some("IPv4 broadcast address"@)
    } else if o[0] == 0 && o[1] == 0 && o[2] == 0 && o[3] == 0 {
        Some("unspecified IPv4 address (0.0.0.0/8)"@)
    } else {
        None
    }
}

/// All of the first fifteen octets are zero.
pub open spec fn zero_prefix15(o: Seq<u8>) -> bool {
    forall|i: int| 0 <= i < 15 ==> #[trigger] o[i] == 0
}

/// Why an IPv6 address is blocked, if it is.
pub open spec fn ipv6_block_reason(o: Seq<u8>) -> Option<Seq<char>> {
    if zero_prefix15(o) && o[15] == 1 {
        Some("IPv6 loopback address (::1)"@)
    } else if o[0] == 0xfe && (o[1] & 0xc0) == 0x80 {
        Some("IPv6 link-local address (fe80::/10)"@)
    } else if (o[0] & 0xfe) == 0xfc {
        Some("IPv6 unique-local address (fc00::/7)"@)
    } else if zero_prefix15(o) && o[15] == 0 {
        Some("unspecified IPv6 address (::/128)"@)
    } else {
        None
    }
}

/// The outcome of validating a URL.
pub enum SsrfVerdict {
    /// Safe to fetch.
    Allowed,
    /// `url::Url::parse` rejected the string.
    UnparsableUrl,
    /// The scheme (given) is not `https`.
    Insecure(Seq<char>),
    /// The URL has no host.
    NoHost,
    /// Blocked, for the given reason.
    Blocked(Seq<char>),
}

/// What the guard decides for `raw`, given its configuration.
pub open spec fn ssrf_verdict(
    enabled: bool,
    blocked: Seq<Seq<char>>,
    allowed: Seq<Seq<char>>,
    raw: Seq<char>,
) -> SsrfVerdict {
    if !enabled {
        SsrfVerdict::Allowed
    } else {
        match parsed_url(raw) {
            None => SsrfVerdict::UnparsableUrl,
            Some(u) => if u.scheme != "https"@ {
                SsrfVerdict::Insecure(u.scheme)
            } else if allowed.len() > 0 {
                match u.host_str {
                    None => SsrfVerdict::NoHost,
                    Some(h) => if listed(allowed, h) {
                        SsrfVerdict::Allowed
                    } else {
                        SsrfVerdict::Blocked(
                            "host '"@ + h + "' is not in the allowed-domains list"@,
                        )
                    },
                }
            } else {
                match u.host {
                    None => SsrfVerdict::NoHost,
                    Some(HostView::Domain(d)) => if listed(blocked, d) {
                        SsrfVerdict::Blocked("domain '"@ + d + "' is in the blocked-domains list"@)
                    } else {
                        SsrfVerdict::Allowed
                    },
                    Some(HostView::Ipv4(o)) => match ipv4_block_reason(o) {
                        Some(r) => SsrfVerdict::Blocked(r),
                        None => SsrfVerdict::Allowed,
                    },
                    Some(HostView::Ipv6(o)) => match ipv6_block_reason(o) {
                        Some(r) => SsrfVerdict::Blocked(r),
                        None => SsrfVerdict::Allowed,
                    },
                }
            },
        }
    }
}

/// `res` is the result that `validate(raw)` gives for verdict `v`.
pub open spec fn reports(res: Result<(), RdapError>, v: SsrfVerdict, raw: Seq<char>) -> bool {
    match v {
        SsrfVerdict::Allowed => res is Ok,
        SsrfVerdict::UnparsableUrl => res matches Err(RdapError::InvalidUrl { url, .. }) && url@
            == raw,
        SsrfVerdict::Insecure(s) => res matches Err(RdapError::InsecureScheme { scheme })
            && scheme@ == s,
        SsrfVerdict::NoHost => res matches Err(RdapError::InvalidInput(m)) && m@
            == "URL has no host: "@ + raw,
        SsrfVerdict::Blocked(r) => res matches Err(RdapError::SsrfBlocked { url, reason }) && url@
            == raw && reason@ == r,
    }
}

// ── Guard ─────────────────────────────────────────────────────────────────────

/// SSRF guard — validates a URL before any network call.
#[derive(Debug, Clone)]
pub struct SsrfGuard {
    config: SsrfConfig,
}

fn blocked_err(raw_url: &str, reason: String) -> (e: RdapError)
    ensures
        e matches RdapError::SsrfBlocked { url, reason: r } && url@ == raw_url@ && r@ == reason@,
{
    RdapError::SsrfBlocked { url: owned(raw_url), reason }
}

/// Whether `host` (lower-cased) matches `domain` (lower-cased).
fn host_matches_exec(host: &str, domain: &str) -> (res: bool)
    ensures
        res == host_matches(host@, domain@),
{
    if str_eq(host, domain) {
        return true;
    }
    let dotted = concat2(".", domain);
    ends_with(host, dotted.as_str())
}

/// Whether some entry of `list` matches `host`, compared lower-cased.
fn is_listed(list: &Vec<String>, host: &str) -> (res: bool)
    ensures
        res == listed(string_views(list@), host@),
{
    let h = to_lowercase(host);
    let n = list.len();
    let mut i: usize = 0;
    while i < n
        invariant
            n == list@.len(),
            i <= n,
            h@ == lowercase_chars(host@),
            forall|j: int|
                0 <= j < i ==> !host_matches(
                    lowercase_chars(host@),
                    lowercase_chars(#[trigger] string_views(list@)[j]),
                ),
        decreases n - i,
    {
        let d = to_lowercase(list[i].as_str());
        if host_matches_exec(h.as_str(), d.as_str()) {
            assert(string_views(list@)[i as int] == list@[i as int]@);
            return true;
        }
        assert(string_views(list@)[i as int] == list@[i as int]@);
        i = i + 1;
    }
    false
}

impl SsrfGuard {
    /// The configuration this guard applies.
    pub closed spec fn config(&self) -> SsrfConfig {
        self.config
    }

    /// Creates a new guard with the default (most restrictive) configuration.
    pub fn new() -> (g: Self)
        ensures
            g.config().enabled,
            g.config().blocked_domains@.len() == 0,
            g.config().allowed_domains@.len() == 0,
    {
        Self::with_config(SsrfConfig::default())
    }

    /// Creates a guard with a custom configuration.
    pub fn with_config(config: SsrfConfig) -> (g: Self)
        ensures
            g.config() == config,
    {
        Self { config }
    }

    /// Validates a URL string.
    ///
    /// Returns `Ok(())` if the URL is safe to fetch, or an [`RdapError`]
    /// explaining why it was blocked.
    pub fn validate(&self, raw_url: &str) -> (res: Result<(), RdapError>)
        ensures
            reports(
                res,
                ssrf_verdict(
                    self.config().enabled,
                    string_views(self.config().blocked_domains@),
                    string_views(self.config().allowed_domains@),
                    raw_url@,
                ),
                raw_url@,
            ),
            // A disabled guard lets everything through.
            !self.config().enabled ==> res is Ok,
            // An enabled guard accepts only what parses with an `https` scheme.
            self.config().enabled && res is Ok ==> (parsed_url(raw_url@) matches Some(u)
                && u.scheme == "https"@),
    {
        if !self.config.enabled {
            return Ok(());
        }
        // ── Parse URL ────────────────────────────────────────────────────────
        let url = match parse_url(raw_url) {
            Ok(u) => u,
            Err(e) => {
                return Err(RdapError::InvalidUrl { url: owned(raw_url), source: e });
            },
        };
        // ── Enforce HTTPS ────────────────────────────────────────────────────
        if !str_eq(url.scheme.as_str(), "https") {
            return Err(RdapError::InsecureScheme { scheme: url.scheme });
        }
        // ── Allowlist (highest priority) ─────────────────────────────────────
        if self.config.allowed_domains.len() > 0 {
            let host_str = match &url.host_str {
                Some(h) => h,
                None => {
                    return Err(RdapError::InvalidInput(concat2("URL has no host: ", raw_url)));
                },
            };
            if !is_listed(&self.config.allowed_domains, host_str.as_str()) {
                let reason = concat3(
                    "host '",
                    host_str.as_str(),
                    "' is not in the allowed-domains list",
                );
                return Err(blocked_err(raw_url, reason));
            }
            // Allowlisted — skip all further checks.
            return Ok(());
        }
        // ── Typed host checks ────────────────────────────────────────────────
        match &url.host {
            None => Err(RdapError::InvalidInput(concat2("URL has no host: ", raw_url))),
            Some(UrlHost::Domain(domain)) => {
                if is_listed(&self.config.blocked_domains, domain.as_str()) {
                    let reason = concat3(
                        "domain '",
                        domain.as_str(),
                        "' is in the blocked-domains list",
                    );
                    return Err(blocked_err(raw_url, reason));
                }
                // Plain domain names are otherwise allowed.
                Ok(())
            },
            Some(UrlHost::Ipv4(v4)) => self.check_ipv4(v4, raw_url),
            Some(UrlHost::Ipv6(v6)) => self.check_ipv6(v6, raw_url),
        }
    }

    // ── IP checkers ───────────────────────────────────────────────────────────

    /// Rejects loopback, private, link-local, broadcast and unspecified
    /// IPv4 addresses.
    fn check_ipv4(&self, ip: &[u8; 4], raw_url: &str) -> (res: Result<(), RdapError>)
        ensures
            match ipv4_block_reason(ip@) {
                Some(r) => res matches Err(RdapError::SsrfBlocked { url, reason }) && url@
                    == raw_url@ && reason@ == r,
                None => res is Ok,
            },
    {
        let reason: Option<&str> = if ip[0] == 127 {
            Some("IPv4 loopback address (127/8)")
        } else if ip[0] == 10 || (ip[0] == 172 && 16 <= ip[1] && ip[1] <= 31) || (ip[0] == 192
            && ip[1] == 168) {
            Some("private IPv4 address (RFC 1918)")
        } else if ip[0] == 169 && ip[1] == 254 {
            Some("IPv4 link-local address (169.254/16)")
        } else if ip[0] == 255 && ip[1] == 255 && ip[2] == 255 && ip[3] == 255 {
            Some("IPv4 broadcast address")
        } else if ip[0] == 0 && ip[1] == 0 && ip[2] == 0 && ip[3] == 0 {
            Some("unspecified IPv4 address (0.0.0.0/8)")
        } else {
            None
        };
        match reason {
            Some(r) => Err(blocked_err(raw_url, owned(r))),
            None => Ok(()),
        }
    }

    /// Rejects loopback, link-local, unique-local and unspecified IPv6
    /// addresses.
    fn check_ipv6(&self, ip: &[u8; 16], raw_url: &str) -> (res: Result<(), RdapError>)
        ensures
            match ipv6_block_reason(ip@) {
                Some(r) => res matches Err(RdapError::SsrfBlocked { url, reason }) && url@
                    == raw_url@ && reason@ == r,
                None => res is Ok,
            },
    {
        let mut zero15 = true;
        let mut i: usize = 0;
        while i < 15
            invariant
                i <= 15,
                zero15 == (forall|j: int| 0 <= j < i ==> #[trigger] ip@[j] == 0),
            decreases 15 - i,
        {
            if ip[i] != 0 {
                zero15 = false;
            }
            i = i + 1;
        }
        let reason: Option<&str> = if zero15 && ip[15] == 1 {
            Some("IPv6 loopback address (::1)")
        } else if ip[0] == 0xfe && (ip[1] & 0xc0) == 0x80 {
            Some("IPv6 link-local address (fe80::/10)")
        } else if (ip[0] & 0xfe) == 0xfc {
            Some("IPv6 unique-local address (fc00::/7)")
        } else if zero15 && ip[15] == 0 {
            Some("unspecified IPv6 address (::/128)")
        } else {
            None
        };
        match reason {
            Some(r) => Err(blocked_err(raw_url, owned(r))),
            None => Ok(()),
        }
    }
}

impl SsrfGuard {
    /// Checks the address that an IP query is about: with the guard
    /// enabled, an address in a range that [`SsrfGuard::validate`] refuses
    /// as a host (loopback, private, link-local, broadcast, unspecified,
    /// unique-local) is refused as `SsrfBlocked`, naming the query.
    pub fn check_ip_query(&self, addr: &IpAddrParts, ip: &str) -> (res: Result<(), RdapError>)
        ensures
            !self.config().enabled ==> res is Ok,
            self.config().enabled ==> match addr@ {
                IpView::V4(o) => match ipv4_block_reason(o) {
                    Some(r) => res matches Err(RdapError::SsrfBlocked { url, reason }) && url@
                        == ip@ && reason@ == r,
                    None => res is Ok,
                },
                IpView::V6(o) => match ipv6_block_reason(o) {
                    Some(r) => res matches Err(RdapError::SsrfBlocked { url, reason }) && url@
                        == ip@ && reason@ == r,
                    None => res is Ok,
                },
            },
    {
        if !self.config.enabled {
            return Ok(());
        }
        match addr {
            IpAddrParts::V4(o) => self.check_ipv4(o, ip),
            IpAddrParts::V6(o) => self.check_ipv6(o, ip),
        }
    }
}

impl Default for SsrfGuard {
    fn default() -> (g: Self)
        ensures
            g.config().enabled,
            g.config().blocked_domains@.len() == 0,
            g.config().allowed_domains@.len() == 0,
    {
        Self::new()
    }
}

// ── Laws ──────────────────────────────────────────────────────────────────────

/// The URL parses with the `https` scheme.
pub open spec fn parses_https(raw: Seq<char>) -> bool {
    parsed_url(raw) matches Some(u) && u.scheme == "https"@
}

/// A disabled guard lets every string through, whatever the lists hold.
pub proof fn law_disabled_allows_all(blocked: Seq<Seq<char>>, allowed: Seq<Seq<char>>, raw: Seq<char>)
    ensures
        ssrf_verdict(false, blocked, allowed, raw) == SsrfVerdict::Allowed,
{
}

/// An enabled guard lets nothing through that does not parse as an `https`
/// URL, the allowlist notwithstanding.
pub proof fn law_https_required(blocked: Seq<Seq<char>>, allowed: Seq<Seq<char>>, raw: Seq<char>)
    requires
        !parses_https(raw),
    ensures
        ssrf_verdict(true, blocked, allowed, raw) != SsrfVerdict::Allowed,
{
}

/// The allowlist takes priority over the blocklist and the IP checks: an
/// `https` URL whose host is listed is allowed.
pub proof fn law_allowlist_priority(blocked: Seq<Seq<char>>, allowed: Seq<Seq<char>>, raw: Seq<char>)
    requires
        parses_https(raw),
        allowed.len() > 0,
        parsed_url(raw).unwrap().host_str matches Some(h) && listed(allowed, h),
    ensures
        ssrf_verdict(true, blocked, allowed, raw) == SsrfVerdict::Allowed,
{
}

/// With a non-empty allowlist, a host that is not listed is blocked.
pub proof fn law_allowlist_blocks_unlisted(
    blocked: Seq<Seq<char>>,
    allowed: Seq<Seq<char>>,
    raw: Seq<char>,
)
    requires
        parses_https(raw),
        allowed.len() > 0,
        parsed_url(raw).unwrap().host_str matches Some(h) && !listed(allowed, h),
    ensures
        ssrf_verdict(true, blocked, allowed, raw) is Blocked,
{
}

/// Without an allowlist, IPv4 loopback (127/8), private (10/8,
/// 172.16/12, 192.168/16) and link-local (169.254/16) hosts are blocked.
pub proof fn law_private_ipv4_blocked(blocked: Seq<Seq<char>>, raw: Seq<char>, o: Seq<u8>)
    requires
        parses_https(raw),
        parsed_url(raw).unwrap().host == Some(HostView::Ipv4(o)),
        o[0] == 127 || o[0] == 10 || (o[0] == 172 && 16 <= o[1] <= 31) || (o[0] == 192 && o[1]
            == 168) || (o[0] == 169 && o[1] == 254),
    ensures
        ssrf_verdict(true, blocked, Seq::empty(), raw) is Blocked,
{
}

/// Without an allowlist, the IPv6 loopback address and link-local
/// (fe80::/10) and unique-local (fc00::/7) hosts are blocked.
pub proof fn law_private_ipv6_blocked(blocked: Seq<Seq<char>>, raw: Seq<char>, o: Seq<u8>)
    requires
        parses_https(raw),
        parsed_url(raw).unwrap().host == Some(HostView::Ipv6(o)),
        (zero_prefix15(o) && o[15] == 1) || (o[0] == 0xfe && (o[1] & 0xc0) == 0x80) || (o[0]
            & 0xfe) == 0xfc,
    ensures
        ssrf_verdict(true, blocked, Seq::empty(), raw) is Blocked,
{
}

/// Without an allowlist, a domain host on the blocklist (or under a listed
/// domain) is blocked.
pub proof fn law_blocklist_blocks(blocked: Seq<Seq<char>>, raw: Seq<char>, d: Seq<char>)
    requires
        parses_https(raw),
        parsed_url(raw).unwrap().host == Some(HostView::Domain(d)),
        listed(blocked, d),
    ensures
        ssrf_verdict(true, blocked, Seq::empty(), raw) is Blocked,
{
}

/// The host `h` is the domain `d` or one of its subdomains: equal, or
/// ending in a `.` followed by `d`.
pub open spec fn is_domain_or_subdomain(h: Seq<char>, d: Seq<char>) -> bool {
    h =~= d || (h.len() > d.len() && h[h.len() - d.len() - 1] == '.' && forall|j: int|
        0 <= j < d.len() ==> #[trigger] h[h.len() - d.len() + j] == d[j])
}

proof fn lemma_host_matches_is_domain_or_subdomain(h: Seq<char>, d: Seq<char>)
    ensures
        host_matches(h, d) <==> is_domain_or_subdomain(h, d),
{
    reveal_strlit(".");
    let dotted = "."@ + d;
    if has_suffix(h, dotted) {
        let t = h.subrange(h.len() - dotted.len(), h.len() as int);
        assert(t[0] == h[h.len() - d.len() - 1]);
        assert forall|j: int| 0 <= j < d.len() implies #[trigger] h[h.len() - d.len() + j]
            == d[j] by {
            assert(t[j + 1] == h[h.len() - d.len() + j]);
            assert(dotted[j + 1] == d[j]);
        }
    }
    if h.len() > d.len() && h[h.len() - d.len() - 1] == '.' && (forall|j: int|
        0 <= j < d.len() ==> #[trigger] h[h.len() - d.len() + j] == d[j]) {
        let t = h.subrange(h.len() - dotted.len(), h.len() as int);
        assert forall|j: int| 0 <= j < dotted.len() implies t[j] == dotted[j] by {
            if j > 0 {
                assert(t[j] == h[h.len() - d.len() + (j - 1)]);
            }
        }
        assert(t =~= dotted);
    }
}

/// A host is on a domain list exactly when, compared lower-cased, it is
/// some entry of the list (at any position) or a subdomain of one.
pub proof fn law_listed_means_some_entry(list: Seq<Seq<char>>, host: Seq<char>)
    ensures
        listed(list, host) <==> exists|i: int|
            0 <= i < list.len() && is_domain_or_subdomain(
                lowercase_chars(host),
                lowercase_chars(#[trigger] list[i]),
            ),
{
    assert forall|i: int| 0 <= i < list.len() implies host_matches(
        lowercase_chars(host),
        lowercase_chars(#[trigger] list[i]),
    ) <==> is_domain_or_subdomain(lowercase_chars(host), lowercase_chars(list[i])) by {
        lemma_host_matches_is_domain_or_subdomain(lowercase_chars(host), lowercase_chars(list[i]));
    }
}

/// Adding an entry to a domain list, at either end, never takes a host off
/// the list.
pub proof fn law_listing_is_monotone(list: Seq<Seq<char>>, host: Seq<char>, d: Seq<char>)
    requires
        listed(list, host),
    ensures
        listed(list.push(d), host),
        listed(seq![d] + list, host),
{
    let i = choose|i: int|
        0 <= i < list.len() && host_matches(lowercase_chars(host), lowercase_chars(#[trigger] list[i]));
    assert(list.push(d)[i] == list[i]);
    assert((seq![d] + list)[i + 1] == list[i]);
}

/// With a non-empty allowlist, an `https` URL whose host equals any entry
/// of the allowlist (compared lower-cased) is allowed, whatever the
/// blocklist holds.
pub proof fn law_allowlisted_host_allowed(
    blocked: Seq<Seq<char>>,
    allowed: Seq<Seq<char>>,
    raw: Seq<char>,
    h: Seq<char>,
    i: int,
)
    requires
        parses_https(raw),
        parsed_url(raw).unwrap().host_str == Some(h),
        0 <= i < allowed.len(),
        lowercase_chars(h) == lowercase_chars(allowed[i]),
    ensures
        ssrf_verdict(true, blocked, allowed, raw) == SsrfVerdict::Allowed,
{
    assert(host_matches(lowercase_chars(h), lowercase_chars(allowed[i])));
}

} // verus!
