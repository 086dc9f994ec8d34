//! IANA Bootstrap service discovery (RFC 9224): the logic.
//!
//! A bootstrap file lists services, each a list of patterns (TLDs, IP
//! networks or AS number ranges) and a list of server URLs. The library
//! flattens the services into `(pattern, server)` entries and looks the
//! query target up in them. Fetching the files is left to the caller, which
//! keeps each file for 24 hours ([`CacheEntry`]).
//!
//! | Type       | Bootstrap file              |
//! |------------|-----------------------------|
//! | Domain     | `/dns.json`                 |
//! | IPv4       | `/ipv4.json`                |
//! | IPv6       | `/ipv6.json`                |
//! | ASN        | `/asn.json`                 |

use std::time::Duration;
use vstd::prelude::*;
use crate::error::RdapError;
use crate::text::{
    concat2, concat3, decimal, is_digit, lowercase_chars, owned, parse_u32, parse_u32_spec, str_eq,
    to_lowercase, trim_end_char, trim_end_matches_char, u32_to_decimal, without_plus,
};
use crate::time::{as_nanos, duration_nanos};
use crate::types::common::opt_view;

verus! {

// ── Flattening services ───────────────────────────────────────────────────────

/// A list of `(pattern, server)` entries.
pub open spec fn entries_view(e: Seq<(String, String)>) -> Seq<(Seq<char>, Seq<char>)> {
    e.map_values(|p: (String, String)| (p.0@, p.1@))
}

/// The entries of one service: each pattern paired with the first server
/// (trailing `/` removed); none when the service lists no server.
pub open spec fn service_entries(patterns: Seq<String>, servers: Seq<String>) -> Seq<
    (Seq<char>, Seq<char>),
> {
    if servers.len() == 0 {
        Seq::empty()
    } else {
        patterns.map_values(|p: String| (p@, trim_end_char(servers[0]@, '/')))
    }
}

/// The entries of all services, in order.
pub open spec fn flatten_spec(services: Seq<(Vec<String>, Vec<String>)>) -> Seq<
    (Seq<char>, Seq<char>),
>
    decreases services.len(),
{
    if services.len() == 0 {
        Seq::empty()
    } else {
        flatten_spec(services.drop_last()) + service_entries(
            services.last().0@,
            services.last().1@,
        )
    }
}

/// Flattens the `services` of a bootstrap file into `(pattern, server)`
/// entries.
pub fn flatten_services(services: &Vec<(Vec<String>, Vec<String>)>) -> (res: Vec<(String, String)>)
    ensures
        entries_view(res@) == flatten_spec(services@),
{
    let n = services.len();
    let mut out: Vec<(String, String)> = Vec::new();
    let mut i: usize = 0;
    while i < n
        invariant
            n == services@.len(),
            i <= n,
            entries_view(out@) == flatten_spec(services@.subrange(0, i as int)),
        decreases n - i,
    {
        let ghost before = out@;
        let patterns = &services[i].0;
        let servers = &services[i].1;
        assert(services@.subrange(0, i + 1).drop_last() =~= services@.subrange(0, i as int));
        if servers.len() > 0 {
            let server = trim_end_matches_char(servers[0].as_str(), '/');
            let m = patterns.len();
            let mut j: usize = 0;
            while j < m
                invariant
                    m == patterns@.len(),
                    j <= m,
                    servers@.len() > 0,
                    server@ == trim_end_char(servers@[0]@, '/'),
                    entries_view(out@) == entries_view(before) + service_entries(
                        patterns@.subrange(0, j as int),
                        servers@,
                    ),
                decreases m - j,
            {
                let ghost prev = out@;
                out.push((patterns[j].clone(), owned(server)));
                assert(entries_view(out@) =~= entries_view(prev).push(
                    (patterns@[j as int]@, server@),
                ));
                assert(service_entries(patterns@.subrange(0, j + 1), servers@) =~= service_entries(
                    patterns@.subrange(0, j as int),
                    servers@,
                ).push((patterns@[j as int]@, server@)));
                j = j + 1;
            }
            assert(patterns@.subrange(0, m as int) =~= patterns@);
        } else {
            assert(entries_view(out@) =~= entries_view(before) + Seq::empty());
        }
        i = i + 1;
    }
    assert(services@.subrange(0, n as int) =~= services@);
    out
}

// ── Domains ───────────────────────────────────────────────────────────────────

/// The characters after the last `.` (all of them when there is none).
pub open spec fn last_label(d: Seq<char>) -> Seq<char>
    decreases d.len(),
{
    if d.len() == 0 {
        Seq::empty()
    } else if d.last() == '.' {
        Seq::empty()
    } else {
        last_label(d.drop_last()).push(d.last())
    }
}

/// Second-level labels under which registries of two-letter country codes
/// take public registrations, as in `co.uk` or `com.au`.
pub open spec fn is_public_second_level(l: Seq<char>) -> bool {
    ||| l == "ac"@
    ||| l == "co"@
    ||| l == "com"@
    ||| l == "edu"@
    ||| l == "gov"@
    ||| l == "ltd"@
    ||| l == "mil"@
    ||| l == "net"@
    ||| l == "nhs"@
    ||| l == "org"@
    ||| l == "plc"@
    ||| l == "sch"@
}

/// The effective TLD of a (non-empty, lower-cased) name: its last label,
/// together with the label before it (`second.last`) when the last label is
/// a two-letter country code and the one before is a public second-level
/// label.
pub open spec fn effective_tld(d: Seq<char>) -> Seq<char> {
    let last = last_label(d);
    let k = d.len() - last.len();
    if last.len() == 2 && k > 0 {
        let rest = d.subrange(0, k - 1);
        let second = last_label(rest);
        if is_public_second_level(second) {
            d.subrange(rest.len() - second.len(), d.len() as int)
        } else {
            last
        }
    } else {
        last
    }
}

/// The TLD of a domain: its trailing dots removed, lower-cased, and its
/// effective TLD taken; `None` for an empty name.
pub open spec fn tld_of(domain: Seq<char>) -> Option<Seq<char>> {
    let d = lowercase_chars(trim_end_char(domain, '.'));
    if d.len() == 0 {
        None
    } else {
        Some(effective_tld(d))
    }
}

/// The position where the label ending at `end` starts in `s`: just after
/// the last `.` before `end`, or 0.
fn label_start(s: &str, end: usize) -> (k: usize)
    requires
        end <= s@.len(),
    ensures
        k <= end,
        forall|j: int| k <= j < end ==> s@[j] != '.',
        k == 0 || s@[k - 1] == '.',
{
    let mut k: usize = end;
    while k > 0 && s.get_char(k - 1) != '.'
        invariant
            end <= s@.len(),
            k <= end,
            forall|j: int| k <= j < end ==> s@[j] != '.',
        decreases k,
    {
        k = k - 1;
    }
    k
}

/// Whether `l` is a public second-level label.
fn public_second_level(l: &str) -> (res: bool)
    ensures
        res == is_public_second_level(l@),
{
    str_eq(l, "ac") || str_eq(l, "co") || str_eq(l, "com") || str_eq(l, "edu") || str_eq(l, "gov")
        || str_eq(l, "ltd") || str_eq(l, "mil") || str_eq(l, "net") || str_eq(l, "nhs")
        || str_eq(l, "org") || str_eq(l, "plc") || str_eq(l, "sch")
}

/// The last label of `s`.
pub fn last_label_of(s: &str) -> (res: &str)
    ensures
        res@ == last_label(s@),
{
    let n = s.unicode_len();
    let k = label_start(s, n);
    proof {
        lemma_last_label(s@, k as int);
    }
    s.substring_char(k, n)
}

proof fn lemma_last_label(d: Seq<char>, k: int)
    requires
        0 <= k <= d.len(),
        forall|j: int| k <= j < d.len() ==> d[j] != '.',
        k == 0 || d[k - 1] == '.',
    ensures
        last_label(d) == d.subrange(k, d.len() as int),
    decreases d.len(),
{
    if d.len() > k {
        lemma_last_label(d.drop_last(), k);
        assert(d.subrange(k, d.len() as int) =~= d.drop_last().subrange(k, d.len() - 1).push(
            d.last(),
        ));
    } else {
        assert(d.subrange(k, d.len() as int) =~= Seq::<char>::empty());
    }
}

/// Extracts the TLD from a domain name, trailing dots removed and
/// lower-cased. Multi-level TLDs are handled:
///
/// - "example.com"     → "com"
/// - "www.example.com" → "com"
/// - "example.co.uk"   → "co.uk"
/// - "com"             → "com"
pub fn extract_tld(domain: &str) -> (res: Result<String, RdapError>)
    ensures
        match tld_of(domain@) {
            Some(t) => res matches Ok(s) && s@ == t,
            None => res matches Err(RdapError::InvalidInput(m)) && m@
                == "Domain name must not be empty"@,
        },
{
    let d = to_lowercase(trim_end_matches_char(domain, '.'));
    let ds = d.as_str();
    let n = ds.unicode_len();
    if n == 0 {
        return Err(RdapError::InvalidInput(owned("Domain name must not be empty")));
    }
    let k = label_start(ds, n);
    proof {
        lemma_last_label(d@, k as int);
    }
    if n - k == 2 && k > 0 {
        let k2 = label_start(ds, k - 1);
        let ghost rest = d@.subrange(0, k - 1);
        proof {
            lemma_last_label(rest, k2 as int);
            assert(rest.subrange(k2 as int, k - 1) =~= d@.subrange(k2 as int, k - 1));
        }
        let second = ds.substring_char(k2, k - 1);
        if public_second_level(second) {
            return Ok(owned(ds.substring_char(k2, n)));
        }
    }
    Ok(owned(ds.substring_char(k, n)))
}

/// The server of the first entry whose pattern equals `tld`, compared
/// lower-cased.
pub open spec fn domain_server(entries: Seq<(Seq<char>, Seq<char>)>, tld: Seq<char>) -> Option<
    Seq<char>,
>
    decreases entries.len(),
{
    if entries.len() == 0 {
        None
    } else if lowercase_chars(entries[0].0) == lowercase_chars(tld) {
        Some(entries[0].1)
    } else {
        domain_server(entries.drop_first(), tld)
    }
}

/// `res` is the server found for the query, or `NoServerFound` naming it.
pub open spec fn server_or_not_found(
    res: Result<String, RdapError>,
    found: Option<Seq<char>>,
    query: Seq<char>,
) -> bool {
    match found {
        Some(s) => res matches Ok(r) && r@ == s,
        None => res matches Err(RdapError::NoServerFound { query: q }) && q@ == query,
    }
}

/// The server for TLD `tld`: the entry for `tld` itself, else the entry
/// for its last label (a multi-level TLD such as `co.uk` that a file does
/// not list is served by the server of `uk`).
pub open spec fn tld_server(entries: Seq<(Seq<char>, Seq<char>)>, tld: Seq<char>) -> Option<
    Seq<char>,
> {
    match domain_server(entries, tld) {
        Some(s) => Some(s),
        None => domain_server(entries, last_label(tld)),
    }
}

/// The server of the first entry whose pattern equals `key`.
fn find_server(entries: &Vec<(String, String)>, key: &str) -> (res: Option<String>)
    ensures
        opt_view(res) == domain_server(entries_view(entries@), key@),
{
    let t = to_lowercase(key);
    let n = entries.len();
    let mut i: usize = 0;
    assert(entries_view(entries@).subrange(0, n as int) =~= entries_view(entries@));
    while i < n
        invariant
            n == entries@.len(),
            i <= n,
            t@ == lowercase_chars(key@),
            domain_server(entries_view(entries@), key@) == domain_server(
                entries_view(entries@).subrange(i as int, n as int),
                key@,
            ),
        decreases n - i,
    {
        let ghost rest = entries_view(entries@).subrange(i as int, n as int);
        assert(rest[0] == (entries@[i as int].0@, entries@[i as int].1@));
        assert(rest.drop_first() =~= entries_view(entries@).subrange(i + 1, n as int));
        let p = to_lowercase(entries[i].0.as_str());
        if str_eq(p.as_str(), t.as_str()) {
            return Some(entries[i].1.clone());
        }
        i = i + 1;
    }
    None
}

/// The server for TLD `tld` among `entries` (a bootstrap file's, or the
/// per-TLD servers a client is configured with), if there is one.
pub fn server_for_tld(entries: &Vec<(String, String)>, tld: &str) -> (res: Option<String>)
    ensures
        opt_view(res) == tld_server(entries_view(entries@), tld@),
{
    match find_server(entries, tld) {
        Some(s) => Some(s),
        None => find_server(entries, last_label_of(tld)),
    }
}

/// Looks up the server for a domain whose TLD is `tld` (as
/// [`extract_tld`] gives it) among the entries of the DNS bootstrap file.
pub fn match_domain_entries(entries: &Vec<(String, String)>, tld: &str, query: &str) -> (res:
    Result<String, RdapError>)
    ensures
        server_or_not_found(res, tld_server(entries_view(entries@), tld@), query@),
{
    match server_for_tld(entries, tld) {
        Some(s) => Ok(s),
        None => Err(RdapError::NoServerFound { query: owned(query) }),
    }
}

// ── AS numbers ────────────────────────────────────────────────────────────────

/// `p` split at its first `-`, if it has one (`str::split_once('-')`).
pub open spec fn split_dash(p: Seq<char>) -> Option<(Seq<char>, Seq<char>)> {
    if exists|k: int| 0 <= k < p.len() && p[k] == '-' {
        let k = choose|k: int|
            0 <= k < p.len() && p[k] == '-' && forall|j: int| 0 <= j < k ==> p[j] != '-';
        Some((p.subrange(0, k), p.subrange(k + 1, p.len() as int)))
    } else {
        None
    }
}

/// An AS pattern matches `asn`: a range `start-end` (an unreadable start
/// counts as `u32::MAX`, an unreadable end as 0) containing it, or a single
/// number equal to it.
pub open spec fn asn_pattern_matches(p: Seq<char>, asn: u32) -> bool {
    match split_dash(p) {
        Some((a, b)) => {
            let start = match parse_u32_spec(a) {
                Some(x) => x,
                None => u32::MAX,
            };
            let end = match parse_u32_spec(b) {
                Some(x) => x,
                None => 0,
            };
            start <= asn && asn <= end
        },
        None => parse_u32_spec(p) == Some(asn),
    }
}

proof fn lemma_number_has_no_dash(a: Seq<char>)
    requires
        parse_u32_spec(a) is Some,
    ensures
        forall|j: int| 0 <= j < a.len() ==> a[j] != '-',
{
    let d = without_plus(a);
    assert forall|j: int| 0 <= j < a.len() implies a[j] != '-' by {
        if a.len() > 0 && a[0] == '+' {
            if j > 0 {
                assert(d[j - 1] == a[j]);
                assert(is_digit(d[j - 1]));
            }
        } else {
            assert(d[j] == a[j]);
            assert(is_digit(d[j]));
        }
    }
}

/// A range pattern `s-e` whose two bounds read as numbers matches exactly
/// the AS numbers from `s` to `e`, both included.
pub proof fn law_asn_range_is_inclusive(a: Seq<char>, b: Seq<char>, s: u32, e: u32, asn: u32)
    requires
        parse_u32_spec(a) == Some(s),
        parse_u32_spec(b) == Some(e),
    ensures
        asn_pattern_matches(a + "-"@ + b, asn) <==> (s <= asn && asn <= e),
{
    reveal_strlit("-");
    let p = a + "-"@ + b;
    lemma_number_has_no_dash(a);
    let n = a.len() as int;
    assert(p[n] == '-');
    assert(forall|j: int| 0 <= j < n ==> p[j] == a[j]);
    let k = choose|k: int|
        0 <= k < p.len() && p[k] == '-' && forall|j: int| 0 <= j < k ==> p[j] != '-';
    assert(k == n) by {
        if k < n {
            assert(p[k] == a[k]);
        } else if k > n {
            assert(p[n] != '-');
        }
    }
    assert(p.subrange(0, n) =~= a);
    assert(p.subrange(n + 1, p.len() as int) =~= b);
}

/// A single-number pattern matches exactly that AS number.
pub proof fn law_asn_single_number_matches_itself(p: Seq<char>, n: u32, asn: u32)
    requires
        parse_u32_spec(p) == Some(n),
    ensures
        asn_pattern_matches(p, asn) <==> asn == n,
{
    lemma_number_has_no_dash(p);
}

/// The server of the first entry whose pattern matches `asn`.
pub open spec fn asn_server(entries: Seq<(Seq<char>, Seq<char>)>, asn: u32) -> Option<Seq<char>>
    decreases entries.len(),
{
    if entries.len() == 0 {
        None
    } else if asn_pattern_matches(entries[0].0, asn) {
        Some(entries[0].1)
    } else {
        asn_server(entries.drop_first(), asn)
    }
}

/// The position of the first `-` in `s`, if any.
fn find_dash(s: &str) -> (res: Option<usize>)
    ensures
        match res {
            Some(k) => k < s@.len() && s@[k as int] == '-' && forall|j: int|
                0 <= j < k ==> s@[j] != '-',
            None => forall|j: int| 0 <= j < s@.len() ==> s@[j] != '-',
        },
{
    let n = s.unicode_len();
    let mut k: usize = 0;
    while k < n
        invariant
            n == s@.len(),
            k <= n,
            forall|j: int| 0 <= j < k ==> s@[j] != '-',
        decreases n - k,
    {
        if s.get_char(k) == '-' {
            return Some(k);
        }
        k = k + 1;
    }
    None
}

/// Whether the AS pattern `p` matches `asn`.
fn asn_matches(p: &str, asn: u32) -> (res: bool)
    ensures
        res == asn_pattern_matches(p@, asn),
{
    match find_dash(p) {
        Some(k) => {
            let n = p.unicode_len();
            proof {
                let kk = choose|x: int|
                    0 <= x < p@.len() && p@[x] == '-' && forall|j: int| 0 <= j < x ==> p@[j] != '-';
                if kk < k {
                    assert(p@[kk] != '-');
                }
                if k < kk {
                    assert(p@[k as int] != '-');
                }
                assert(kk == k);
            }
            let start = match parse_u32(p.substring_char(0, k)) {
                Some(x) => x,
                None => u32::MAX,
            };
            let end = match parse_u32(p.substring_char(k + 1, n)) {
                Some(x) => x,
                None => 0,
            };
            start <= asn && asn <= end
        },
        None => {
            match parse_u32(p) {
                Some(x) => x == asn,
                None => false,
            }
        },
    }
}

/// Looks up the server for AS number `asn` among the entries of the ASN
/// bootstrap file.
pub fn match_asn_entries(entries: &Vec<(String, String)>, asn: u32) -> (res: Result<
    String,
    RdapError,
>)
    ensures
        server_or_not_found(
            res,
            asn_server(entries_view(entries@), asn),
            "AS"@ + decimal(asn as nat),
        ),
{
    let n = entries.len();
    let mut i: usize = 0;
    assert(entries_view(entries@).subrange(0, n as int) =~= entries_view(entries@));
    while i < n
        invariant
            n == entries@.len(),
            i <= n,
            asn_server(entries_view(entries@), asn) == asn_server(
                entries_view(entries@).subrange(i as int, n as int),
                asn,
            ),
        decreases n - i,
    {
        let ghost rest = entries_view(entries@).subrange(i as int, n as int);
        assert(rest[0] == (entries@[i as int].0@, entries@[i as int].1@));
        assert(rest.drop_first() =~= entries_view(entries@).subrange(i + 1, n as int));
        if asn_matches(entries[i].0.as_str(), asn) {
            return Ok(entries[i].1.clone());
        }
        i = i + 1;
    }
    let digits = u32_to_decimal(asn);
    Err(RdapError::NoServerFound { query: concat2("AS", digits.as_str()) })
}

// ── IP networks ───────────────────────────────────────────────────────────────

/// An IP address, as its octets.
#[derive(Debug, Clone, Copy)]
pub enum IpAddrParts {
    V4([u8; 4]),
    V6([u8; 16]),
}

/// The mathematical value of an [`IpAddrParts`].
pub enum IpView {
    V4(Seq<u8>),
    V6(Seq<u8>),
}

impl View for IpAddrParts {
    type V = IpView;

    open spec fn view(&self) -> IpView {
        match self {
            IpAddrParts::V4(o) => IpView::V4(o@),
            IpAddrParts::V6(o) => IpView::V6(o@),
        }
    }
}

/// An IP network: an address and a prefix length.
#[derive(Debug, Clone, Copy)]
pub struct IpNet {
    pub addr: IpAddrParts,
    pub prefix: u8,
}

/// The mathematical value of an [`IpNet`].
pub struct NetView {
    pub addr: IpView,
    pub prefix: u8,
}

impl View for IpNet {
    type V = NetView;

    open spec fn view(&self) -> NetView {
        NetView { addr: self.addr@, prefix: self.prefix }
    }
}

/// What `str::parse::<ipnetwork::IpNetwork>` makes of a string.
pub uninterp spec fn parsed_network(s: Seq<char>) -> Option<NetView>;

/// Calls `str::parse::<ipnetwork::IpNetwork>` and takes the network's
/// address (`ip`) and prefix (`prefix`). The crate's
/// constructors refuse prefixes longer than the address.
#[verifier::external_body]
fn parse_network(s: &str) -> (res: Option<IpNet>)
    ensures
        match res {
            Some(n) => parsed_network(s@) == Some(n@) && match n.addr {
                IpAddrParts::V4(_) => n.prefix <= 32,
                IpAddrParts::V6(_) => n.prefix <= 128,
            },
            None => parsed_network(s@) is None,
        },
{
    match s.parse::<ipnetwork::IpNetwork>() {
        Ok(ipnetwork::IpNetwork::V4(n)) => Some(
            IpNet { addr: IpAddrParts::V4(n.ip().octets()), prefix: n.prefix() },
        ),
        Ok(ipnetwork::IpNetwork::V6(n)) => Some(
            IpNet { addr: IpAddrParts::V6(n.ip().octets()), prefix: n.prefix() },
        ),
        Err(_) => None,
    }
}

/// The first `prefix` bits of `a` and `b` agree.
pub open spec fn prefix_equal(a: Seq<u8>, b: Seq<u8>, prefix: nat) -> bool {
    let full = (prefix / 8) as int;
    let rest = prefix % 8;
    &&& forall|i: int| 0 <= i < full ==> #[trigger] a[i] == b[i]
    &&& rest > 0 ==> (a[full] >> (8 - rest) as u8) == (b[full] >> (8 - rest) as u8)
}

/// `IpNetwork::contains`: same family, and the address agrees with the
/// network on the first `prefix` bits.
pub open spec fn net_contains(net: NetView, addr: IpView) -> bool {
    match (net.addr, addr) {
        (IpView::V4(n), IpView::V4(a)) => prefix_equal(n, a, net.prefix as nat),
        (IpView::V6(n), IpView::V6(a)) => prefix_equal(n, a, net.prefix as nat),
        _ => false,
    }
}

/// Bit `j` (0 the most significant) of byte `x`.
pub open spec fn byte_bit(x: u8, j: int) -> u8 {
    (x >> ((7 - j) as u8)) & 1u8
}

/// Bit `k` of an address given as octets, counted from the most significant
/// bit of the first octet.
pub open spec fn addr_bit(o: Seq<u8>, k: int) -> u8 {
    byte_bit(o[k / 8], k % 8)
}

/// The bits of a byte, one by one.
proof fn lemma_byte_bits(x: u8)
    ensures
        byte_bit(x, 0) == (x >> 7u8) & 1u8,
        byte_bit(x, 1) == (x >> 6u8) & 1u8,
        byte_bit(x, 2) == (x >> 5u8) & 1u8,
        byte_bit(x, 3) == (x >> 4u8) & 1u8,
        byte_bit(x, 4) == (x >> 3u8) & 1u8,
        byte_bit(x, 5) == (x >> 2u8) & 1u8,
        byte_bit(x, 6) == (x >> 1u8) & 1u8,
        byte_bit(x, 7) == (x >> 0u8) & 1u8,
{
}

/// Two bytes agree on their first `r` bits exactly when they agree after
/// shifting the other `8 - r` bits out.
proof fn lemma_byte_prefix(x1: u8, x2: u8, r: int)
    requires
        0 < r <= 8,
    ensures
        ((x1 >> ((8 - r) as u8)) == (x2 >> ((8 - r) as u8))) <==> (forall|j: int|
            0 <= j < r ==> #[trigger] byte_bit(x1, j) == byte_bit(x2, j)),
{
    lemma_byte_bits(x1);
    lemma_byte_bits(x2);
    if r == 1 {
        assert((x1 >> 7u8) == (x2 >> 7u8) <==> ((x1 >> 7u8) & 1u8 == (x2 >> 7u8) & 1u8)) by (bit_vector);
    } else if r == 2 {
        assert((x1 >> 6u8) == (x2 >> 6u8) <==> ((x1 >> 7u8) & 1u8 == (x2 >> 7u8) & 1u8 && (x1 >> 6u8) & 1u8 == (x2 >> 6u8) & 1u8)) by (bit_vector);
    } else if r == 3 {
        assert((x1 >> 5u8) == (x2 >> 5u8) <==> ((x1 >> 7u8) & 1u8 == (x2 >> 7u8) & 1u8 && (x1 >> 6u8) & 1u8 == (x2 >> 6u8) & 1u8 && (x1 >> 5u8) & 1u8 == (x2 >> 5u8) & 1u8)) by (bit_vector);
    } else if r == 4 {
        assert((x1 >> 4u8) == (x2 >> 4u8) <==> ((x1 >> 7u8) & 1u8 == (x2 >> 7u8) & 1u8 && (x1 >> 6u8) & 1u8 == (x2 >> 6u8) & 1u8 && (x1 >> 5u8) & 1u8 == (x2 >> 5u8) & 1u8 && (x1 >> 4u8) & 1u8 == (x2 >> 4u8) & 1u8)) by (bit_vector);
    } else if r == 5 {
        assert((x1 >> 3u8) == (x2 >> 3u8) <==> ((x1 >> 7u8) & 1u8 == (x2 >> 7u8) & 1u8 && (x1 >> 6u8) & 1u8 == (x2 >> 6u8) & 1u8 && (x1 >> 5u8) & 1u8 == (x2 >> 5u8) & 1u8 && (x1 >> 4u8) & 1u8 == (x2 >> 4u8) & 1u8 && (x1 >> 3u8) & 1u8 == (x2 >> 3u8) & 1u8)) by (bit_vector);
    } else if r == 6 {
        assert((x1 >> 2u8) == (x2 >> 2u8) <==> ((x1 >> 7u8) & 1u8 == (x2 >> 7u8) & 1u8 && (x1 >> 6u8) & 1u8 == (x2 >> 6u8) & 1u8 && (x1 >> 5u8) & 1u8 == (x2 >> 5u8) & 1u8 && (x1 >> 4u8) & 1u8 == (x2 >> 4u8) & 1u8 && (x1 >> 3u8) & 1u8 == (x2 >> 3u8) & 1u8 && (x1 >> 2u8) & 1u8 == (x2 >> 2u8) & 1u8)) by (bit_vector);
    } else if r == 7 {
        assert((x1 >> 1u8) == (x2 >> 1u8) <==> ((x1 >> 7u8) & 1u8 == (x2 >> 7u8) & 1u8 && (x1 >> 6u8) & 1u8 == (x2 >> 6u8) & 1u8 && (x1 >> 5u8) & 1u8 == (x2 >> 5u8) & 1u8 && (x1 >> 4u8) & 1u8 == (x2 >> 4u8) & 1u8 && (x1 >> 3u8) & 1u8 == (x2 >> 3u8) & 1u8 && (x1 >> 2u8) & 1u8 == (x2 >> 2u8) & 1u8 && (x1 >> 1u8) & 1u8 == (x2 >> 1u8) & 1u8)) by (bit_vector);
    } else if r == 8 {
        assert((x1 >> 0u8) == (x2 >> 0u8) <==> ((x1 >> 7u8) & 1u8 == (x2 >> 7u8) & 1u8 && (x1 >> 6u8) & 1u8 == (x2 >> 6u8) & 1u8 && (x1 >> 5u8) & 1u8 == (x2 >> 5u8) & 1u8 && (x1 >> 4u8) & 1u8 == (x2 >> 4u8) & 1u8 && (x1 >> 3u8) & 1u8 == (x2 >> 3u8) & 1u8 && (x1 >> 2u8) & 1u8 == (x2 >> 2u8) & 1u8 && (x1 >> 1u8) & 1u8 == (x2 >> 1u8) & 1u8 && (x1 >> 0u8) & 1u8 == (x2 >> 0u8) & 1u8)) by (bit_vector);
    }
    if (x1 >> ((8 - r) as u8)) == (x2 >> ((8 - r) as u8)) {
        assert forall|j: int| 0 <= j < r implies #[trigger] byte_bit(x1, j) == byte_bit(x2, j) by {
            if j == 0 {
            } else if j == 1 {
            } else if j == 2 {
            } else if j == 3 {
            } else if j == 4 {
            } else if j == 5 {
            } else if j == 6 {
            } else {
                assert(j == 7);
            }
        }
    }
    if forall|j: int| 0 <= j < r ==> #[trigger] byte_bit(x1, j) == byte_bit(x2, j) {
        if r > 0 {
            assert(byte_bit(x1, 0) == byte_bit(x2, 0));
        }
        if r > 1 {
            assert(byte_bit(x1, 1) == byte_bit(x2, 1));
        }
        if r > 2 {
            assert(byte_bit(x1, 2) == byte_bit(x2, 2));
        }
        if r > 3 {
            assert(byte_bit(x1, 3) == byte_bit(x2, 3));
        }
        if r > 4 {
            assert(byte_bit(x1, 4) == byte_bit(x2, 4));
        }
        if r > 5 {
            assert(byte_bit(x1, 5) == byte_bit(x2, 5));
        }
        if r > 6 {
            assert(byte_bit(x1, 6) == byte_bit(x2, 6));
        }
        if r > 7 {
            assert(byte_bit(x1, 7) == byte_bit(x2, 7));
        }
    }
}

/// A byte equals another exactly when all eight bits agree.
proof fn lemma_byte_eq(x1: u8, x2: u8)
    ensures
        x1 == x2 <==> (forall|j: int| 0 <= j < 8 ==> #[trigger] byte_bit(x1, j) == byte_bit(x2, j)),
{
    lemma_byte_prefix(x1, x2, 8);
    assert((x1 >> 0u8) == x1 && (x2 >> 0u8) == x2) by (bit_vector);
}

/// Two addresses agree on a prefix of `p` bits (what a network of prefix
/// length `p` tests) exactly when each of their first `p` bits agree.
pub proof fn law_prefix_is_leading_bits(a: Seq<u8>, b: Seq<u8>, p: nat)
    requires
        a.len() == b.len(),
        p <= 8 * a.len(),
    ensures
        prefix_equal(a, b, p) <==> (forall|k: int| 0 <= k < p ==> #[trigger] addr_bit(a, k) == addr_bit(b, k)),
{
    let full = (p / 8) as int;
    let rest = p % 8;
    if prefix_equal(a, b, p) {
        assert forall|k: int| 0 <= k < p implies #[trigger] addr_bit(a, k) == addr_bit(b, k) by {
            let i = k / 8;
            let j = k % 8;
            if i < full {
                assert(a[i] == b[i]);
                lemma_byte_eq(a[i], b[i]);
                assert(byte_bit(a[i], j) == byte_bit(b[i], j));
            } else {
                assert(i == full);
                assert(j < rest);
                lemma_byte_prefix(a[full], b[full], rest as int);
                assert(byte_bit(a[i], j) == byte_bit(b[i], j));
            }
        }
    }
    if forall|k: int| 0 <= k < p ==> #[trigger] addr_bit(a, k) == addr_bit(b, k) {
        assert forall|i: int| 0 <= i < full implies #[trigger] a[i] == b[i] by {
            assert forall|j: int| 0 <= j < 8 implies #[trigger] byte_bit(a[i], j) == byte_bit(
                b[i],
                j,
            ) by {
                let k = 8 * i + j;
                assert(k / 8 == i && k % 8 == j);
                assert(addr_bit(a, k) == addr_bit(b, k));
            }
            lemma_byte_eq(a[i], b[i]);
        }
        if rest > 0 {
            assert forall|j: int| 0 <= j < rest implies #[trigger] byte_bit(a[full], j)
                == byte_bit(b[full], j) by {
                let k = 8 * full + j;
                assert(k / 8 == full && k % 8 == j);
                assert(addr_bit(a, k) == addr_bit(b, k));
            }
            lemma_byte_prefix(a[full], b[full], rest as int);
        }
    }
}

/// A network contains an address of its family exactly when the address
/// agrees with the network address on the first `prefix` bits; so flipping
/// any of those bits takes an address out of the network.
pub proof fn law_network_contains_is_leading_bits(
    net: NetView,
    addr: IpView,
    n: Seq<u8>,
    a: Seq<u8>,
)
    requires
        (net.addr == IpView::V4(n) && addr == IpView::V4(a) && n.len() == 4 && a.len() == 4
            && net.prefix <= 32) || (net.addr == IpView::V6(n) && addr == IpView::V6(a) && n.len()
            == 16 && a.len() == 16 && net.prefix <= 128),
    ensures
        net_contains(net, addr) <==> (forall|k: int|
            0 <= k < net.prefix ==> #[trigger] addr_bit(n, k) == addr_bit(a, k)),
{
    law_prefix_is_leading_bits(n, a, net.prefix as nat);
}

fn octets_prefix_equal(a: &[u8], b: &[u8], prefix: u8) -> (res: bool)
    requires
        a@.len() == b@.len(),
        prefix as nat <= 8 * a@.len(),
    ensures
        res == prefix_equal(a@, b@, prefix as nat),
{
    let full: usize = (prefix / 8) as usize;
    let rest: u8 = prefix % 8;
    let mut i: usize = 0;
    while i < full
        invariant
            full as nat == prefix as nat / 8,
            a@.len() == b@.len(),
            full <= a@.len(),
            i <= full,
            forall|j: int| 0 <= j < i ==> #[trigger] a@[j] == b@[j],
        decreases full - i,
    {
        if a[i] != b[i] {
            return false;
        }
        i = i + 1;
    }
    if rest > 0 {
        let s: u8 = 8 - rest;
        (a[full] >> s) == (b[full] >> s)
    } else {
        true
    }
}

/// Whether `net` contains `addr` (`IpNetwork::contains`).
pub fn network_contains(net: &IpNet, addr: &IpAddrParts) -> (res: bool)
    requires
        match net.addr {
            IpAddrParts::V4(_) => net.prefix <= 32,
            IpAddrParts::V6(_) => net.prefix <= 128,
        },
    ensures
        res == net_contains(net@, addr@),
{
    match (&net.addr, addr) {
        (IpAddrParts::V4(n), IpAddrParts::V4(a)) => octets_prefix_equal(n, a, net.prefix),
        (IpAddrParts::V6(n), IpAddrParts::V6(a)) => octets_prefix_equal(n, a, net.prefix),
        _ => false,
    }
}

/// The pattern is a network that contains `addr`.
pub open spec fn ip_pattern_matches(p: Seq<char>, addr: IpView) -> bool {
    match parsed_network(p) {
        Some(net) => net_contains(net, addr),
        None => false,
    }
}

/// The server of the first entry whose pattern is a network containing
/// `addr`.
pub open spec fn ip_server(entries: Seq<(Seq<char>, Seq<char>)>, addr: IpView) -> Option<
    Seq<char>,
>
    decreases entries.len(),
{
    if entries.len() == 0 {
        None
    } else if ip_pattern_matches(entries[0].0, addr) {
        Some(entries[0].1)
    } else {
        ip_server(entries.drop_first(), addr)
    }
}

/// Looks up the server for an IP address among the entries of the IPv4 or
/// IPv6 bootstrap file; `original` is the query as the user wrote it.
pub fn match_ip_entries(entries: &Vec<(String, String)>, addr: &IpAddrParts, original: &str) -> (res:
    Result<String, RdapError>)
    ensures
        server_or_not_found(res, ip_server(entries_view(entries@), addr@), original@),
{
    let n = entries.len();
    let mut i: usize = 0;
    assert(entries_view(entries@).subrange(0, n as int) =~= entries_view(entries@));
    while i < n
        invariant
            n == entries@.len(),
            i <= n,
            ip_server(entries_view(entries@), addr@) == ip_server(
                entries_view(entries@).subrange(i as int, n as int),
                addr@,
            ),
        decreases n - i,
    {
        let ghost rest = entries_view(entries@).subrange(i as int, n as int);
        assert(rest[0] == (entries@[i as int].0@, entries@[i as int].1@));
        assert(rest.drop_first() =~= entries_view(entries@).subrange(i + 1, n as int));
        let hit = match parse_network(entries[i].0.as_str()) {
            Some(net) => network_contains(&net, addr),
            None => false,
        };
        if hit {
            return Ok(entries[i].1.clone());
        }
        i = i + 1;
    }
    Err(RdapError::NoServerFound { query: owned(original) })
}

/// The error for an IP address query that does not parse; `label` names
/// the expected kind (`"Invalid {label} address: {ip}"`).
pub fn invalid_address(ip: &str, label: &str) -> (e: RdapError)
    ensures
        e matches RdapError::InvalidInput(m) && m@ == "Invalid "@ + label@ + " address: "@ + ip@,
{
    let head = concat3("Invalid ", label, " address: ");
    RdapError::InvalidInput(concat2(head.as_str(), ip))
}

// ── Cached bootstrap files ────────────────────────────────────────────────────

/// A fetched bootstrap file: its entries and when it was fetched (in
/// nanoseconds on the caller's monotonic clock).
#[derive(Debug, Clone)]
pub struct CacheEntry {
    /// Parsed entries: `(pattern, first_server_url)`.
    pub entries: Vec<(String, String)>,
    pub fetched_at: u128,
}

/// The time elapsed from `then` to `now`, zero if `now` is earlier.
pub open spec fn elapsed(then: u128, now: u128) -> int {
    if now >= then {
        now - then
    } else {
        0
    }
}

impl CacheEntry {
    /// Whether more than `ttl` has elapsed since the file was fetched.
    pub fn is_expired(&self, now: u128, ttl: Duration) -> (res: bool)
        ensures
            res == (elapsed(self.fetched_at, now) > duration_nanos(ttl)),
    {
        let e: u128 = if now >= self.fetched_at {
            now - self.fetched_at
        } else {
            0
        };
        e > as_nanos(ttl)
    }
}

} // verus!
