//! Client configuration and the query logic of the RDAP client: input
//! normalisation, query URLs and the availability decision.
//!
//! The client itself, which performs the network calls, drives these
//! functions between its requests.

use std::collections::HashMap;
use vstd::prelude::*;
use crate::error::RdapError;
use crate::http::fetcher::FetcherConfig;
use crate::security::ssrf::SsrfConfig;
use crate::text::{
    all_digits, concat2, decimal, digit_char, digits_value, has_prefix, is_digit, without_plus, lowercase_chars, owned, parse_u32, parse_u32_spec, to_lowercase, trim,
    trim_end_char, trim_end_matches_char, trim_start_matches_str, trim_start_str, trimmed,
    u32_to_decimal,
};
use crate::types::availability::AvailabilityResult;
use crate::types::common::opt_view;
use crate::types::domain::{events_view, first_event_date, DomainResponse};

verus! {

// ── Client configuration ──────────────────────────────────────────────────────

/// Configuration for the RDAP client.
#[derive(Debug, Clone)]
pub struct ClientConfig {
    /// HTTP fetcher settings (timeout, retries, user-agent).
    pub fetcher: FetcherConfig,
    /// SSRF protection settings.
    pub ssrf: SsrfConfig,
    /// Whether to cache query responses in memory.
    pub cache: bool,
    /// Bootstrap base URL (defaults to the official IANA endpoint).
    pub bootstrap_url: Option<String>,
    /// Custom RDAP server overrides per TLD (e.g., `"com" → "https://my-rdap.example.com"`).
    /// These take priority over the IANA bootstrap lookup.
    pub custom_bootstrap_servers: HashMap<String, String>,
    /// Reuse TCP connections across requests (connection pooling).
    pub reuse_connections: bool,
    /// Maximum number of idle keep-alive connections per host.
    pub max_connections_per_host: usize,
}

impl Default for ClientConfig {
    fn default() -> (c: Self)
        ensures
            c.fetcher.max_attempts == 3,
            c.fetcher.reuse_connections,
            c.fetcher.max_connections_per_host == 10,
            c.ssrf.enabled,
            c.ssrf.blocked_domains@.len() == 0,
            c.ssrf.allowed_domains@.len() == 0,
            c.cache,
            c.bootstrap_url is None,
            c.custom_bootstrap_servers@.len() == 0,
            c.reuse_connections,
            c.max_connections_per_host == 10,
    {
        ClientConfig {
            fetcher: FetcherConfig::default(),
            ssrf: SsrfConfig::default(),
            cache: true,
            bootstrap_url: None,
            custom_bootstrap_servers: HashMap::new(),
            reuse_connections: true,
            max_connections_per_host: 10,
        }
    }
}

/// The fetcher settings a client runs with: the fetcher configuration with
/// the top-level connection pool settings merged in.
pub fn effective_fetcher_config(config: &ClientConfig) -> (f: FetcherConfig)
    ensures
        f.timeout == config.fetcher.timeout,
        f.user_agent@ == config.fetcher.user_agent@,
        f.max_attempts == config.fetcher.max_attempts,
        f.initial_backoff == config.fetcher.initial_backoff,
        f.max_backoff == config.fetcher.max_backoff,
        f.reuse_connections == config.reuse_connections,
        f.max_connections_per_host == config.max_connections_per_host,
{
    FetcherConfig {
        timeout: config.fetcher.timeout,
        user_agent: config.fetcher.user_agent.clone(),
        max_attempts: config.fetcher.max_attempts,
        initial_backoff: config.fetcher.initial_backoff,
        max_backoff: config.fetcher.max_backoff,
        reuse_connections: config.reuse_connections,
        max_connections_per_host: config.max_connections_per_host,
    }
}

// ── Domain normalisation ──────────────────────────────────────────────────────

/// What `idna::domain_to_ascii` makes of a string: `None` where it fails,
/// else the ASCII (punycode) form.
pub uninterp spec fn idna_ascii(s: Seq<char>) -> Option<Seq<char>>;

/// Calls `idna::domain_to_ascii` (UTS #46 processing and punycode), which
/// returns the ASCII representation of the name.
#[verifier::external_body]
fn domain_to_ascii(s: &str) -> (res: Option<String>)
    ensures
        match res {
            Some(a) => idna_ascii(s@) == Some(a@) && all_ascii(a@),
            None => idna_ascii(s@) is None,
        },
{
    idna::domain_to_ascii(s).ok()
}

/// All characters are ASCII (`'\0'..='\u{7f}'`).
pub open spec fn all_ascii(s: Seq<char>) -> bool {
    vstd::utf8::is_ascii_chars(s)
}

/// A domain as the client sends it: trimmed of white space and trailing
/// dots and lower-cased; an ASCII name as is, any other converted to its
/// ASCII-compatible encoding. `None` for an empty name, `Err` with the
/// lower-cased name where the conversion fails.
pub open spec fn normalised_domain(domain: Seq<char>) -> Option<Result<Seq<char>, Seq<char>>> {
    let d = lowercase_chars(trim_end_char(trimmed(domain), '.'));
    if d.len() == 0 {
        None
    } else if all_ascii(d) {
        Some(Ok(d))
    } else {
        match idna_ascii(d) {
            Some(a) => Some(Ok(a)),
            None => Some(Err(d)),
        }
    }
}

/// Converts a domain name to its ACE (ASCII-Compatible Encoding) form.
/// Plain ASCII domains are returned unchanged (lowercased).
pub fn normalise_domain(domain: &str) -> (res: Result<String, RdapError>)
    ensures
        // The name sent is always ASCII: an ASCII name as given (lower-cased),
        // any other in its ASCII-compatible encoding.
        res matches Ok(n) ==> all_ascii(n@),
        match normalised_domain(domain@) {
            None => res matches Err(RdapError::InvalidInput(m)) && m@
                == "Domain name must not be empty"@,
            Some(Ok(a)) => res matches Ok(s) && s@ == a,
            Some(Err(d)) => res matches Err(RdapError::InvalidInput(m)) && m@
                == "Invalid internationalised domain name: "@ + d,
        },
{
    let d = to_lowercase(trim_end_matches_char(trim(domain), '.'));
    if d.as_str().unicode_len() == 0 {
        return Err(RdapError::InvalidInput(owned("Domain name must not be empty")));
    }
    let ascii = d.as_str().is_ascii();
    assert(ascii == all_ascii(d@));
    if ascii {
        return Ok(d);
    }
    match domain_to_ascii(d.as_str()) {
        Some(a) => Ok(a),
        None => Err(
            RdapError::InvalidInput(concat2("Invalid internationalised domain name: ", d.as_str())),
        ),
    }
}

// ── AS numbers ────────────────────────────────────────────────────────────────

/// The AS number of a query written as `15169`, `AS15169` or `as15169`:
/// leading `AS`s, then leading `as`s removed, the rest read as a `u32`.
pub open spec fn asn_of(q: Seq<char>) -> Option<u32> {
    parse_u32_spec(trim_start_str(trim_start_str(q, "AS"@), "as"@))
}

/// Reads an ASN query, numeric (`15169`) or prefixed (`"AS15169"`).
pub fn parse_asn(asn: &str) -> (res: Result<u32, RdapError>)
    ensures
        match asn_of(asn@) {
            Some(n) => res == Ok::<u32, RdapError>(n),
            None => res matches Err(RdapError::InvalidInput(m)) && m@ == "Invalid ASN: "@ + asn@,
        },
{
    let digits = trim_start_matches_str(trim_start_matches_str(asn, "AS"), "as");
    match parse_u32(digits) {
        Some(n) => Ok(n),
        None => Err(RdapError::InvalidInput(concat2("Invalid ASN: ", asn))),
    }
}

// ── Query URLs ────────────────────────────────────────────────────────────────

/// The URL of an RDAP query: the server (trailing `/` removed), the object
/// kind and the target, joined by `/`.
pub open spec fn query_url_spec(server: Seq<char>, kind: Seq<char>, target: Seq<char>) -> Seq<
    char,
> {
    trim_end_char(server, '/') + "/"@ + kind + "/"@ + target
}

/// Builds `{server}/{kind}/{target}`, as in `https://rdap.example/domain/example.com`.
pub fn query_url(server: &str, kind: &str, target: &str) -> (url: String)
    ensures
        url@ == query_url_spec(server@, kind@, target@),
{
    let mut u = owned(trim_end_matches_char(server, '/'));
    u.append("/");
    u.append(kind);
    u.append("/");
    u.append(target);
    u
}

/// Builds the query URL of AS number `asn`: `{server}/autnum/{asn}`.
pub fn asn_query_url(server: &str, asn: u32) -> (url: String)
    ensures
        url@ == query_url_spec(server@, "autnum"@, decimal(asn as nat)),
{
    let digits = u32_to_decimal(asn);
    query_url(server, "autnum", digits.as_str())
}

// ── Entities ──────────────────────────────────────────────────────────────────

/// Checks the inputs of an entity query: neither the handle nor the server
/// URL may be empty.
pub fn check_entity_query(handle: &str, server_url: &str) -> (res: Result<(), RdapError>)
    ensures
        handle@.len() == 0 ==> (res matches Err(RdapError::InvalidInput(m)) && m@
            == "Entity handle must not be empty"@),
        handle@.len() > 0 && server_url@.len() == 0 ==> (res matches Err(
            RdapError::InvalidInput(m),
        ) && m@ == "Server URL must not be empty"@),
        handle@.len() > 0 && server_url@.len() > 0 ==> res is Ok,
{
    if handle.unicode_len() == 0 {
        return Err(RdapError::InvalidInput(owned("Entity handle must not be empty")));
    }
    if server_url.unicode_len() == 0 {
        return Err(RdapError::InvalidInput(owned("Server URL must not be empty")));
    }
    Ok(())
}

// ── Availability ──────────────────────────────────────────────────────────────

/// The availability of `domain` given the outcome of its domain query:
/// registered (with its expiration date, if any) when the query succeeded,
/// available when the registry answered HTTP 404, and the error, unchanged,
/// otherwise.
pub fn availability(domain: String, outcome: Result<DomainResponse, RdapError>) -> (res: Result<
    AvailabilityResult,
    RdapError,
>)
    ensures
        match outcome {
            Ok(r) => res matches Ok(a) && a.domain@ == domain@ && !a.available && opt_view(
                a.expires_at,
            ) == first_event_date(events_view(r.events@), "expiration"@),
            Err(e) => if e matches RdapError::HttpStatus { status, .. } && status == 404 {
                res matches Ok(a) && a.domain@ == domain@ && a.available && a.expires_at is None
            } else {
                res == Err::<AvailabilityResult, RdapError>(e)
            },
        },
{
    match outcome {
        Ok(response) => {
            let expires_at = match response.expiration_date() {
                Some(s) => Some(owned(s)),
                None => None,
            };
            Ok(AvailabilityResult { domain, available: false, expires_at })
        },
        Err(e) => {
            let not_found = match &e {
                RdapError::HttpStatus { status, .. } => *status == 404,
                _ => false,
            };
            if not_found {
                Ok(AvailabilityResult { domain, available: true, expires_at: None })
            } else {
                Err(e)
            }
        },
    }
}

/// How many availability queries a batch runs at once: the requested
/// number (10 when none is given), at least 1.
pub fn batch_limit(concurrency: Option<usize>) -> (n: usize)
    ensures
        n == match concurrency {
            Some(c) => if c == 0 {
                1
            } else {
                c
            },
            None => 10,
        },
{
    let c = match concurrency {
        Some(c) => c,
        None => 10,
    };
    if c < 1 {
        1
    } else {
        c
    }
}

/// The result finished for slot `i`: the last one in `done` with that
/// index, if any.
pub open spec fn slot_result<T>(done: Seq<(usize, T)>, i: int) -> Option<T>
    decreases done.len(),
{
    if done.len() == 0 {
        None
    } else {
        match slot_result(done.drop_first(), i) {
            Some(r) => Some(r),
            None => if done[0].0 == i {
                Some(done[0].1)
            } else {
                None
            },
        }
    }
}

/// The values of the filled slots, in slot order.
pub open spec fn filled<T>(slots: Seq<Option<T>>) -> Seq<T>
    decreases slots.len(),
{
    if slots.len() == 0 {
        Seq::empty()
    } else {
        let rest = filled(slots.drop_last());
        match slots.last() {
            Some(x) => rest.push(x),
            None => rest,
        }
    }
}

/// The slots `0..n` as `done` fills them.
pub open spec fn slots_of<T>(done: Seq<(usize, T)>, n: nat) -> Seq<Option<T>> {
    Seq::new(n, |i: int| slot_result(done, i))
}

proof fn lemma_slot_step<T>(done: Seq<(usize, T)>, k: int, i: int)
    requires
        0 <= k < done.len(),
    ensures
        slot_result(done.subrange(k, done.len() as int), i) == match slot_result(
            done.subrange(k + 1, done.len() as int),
            i,
        ) {
            Some(r) => Some(r),
            None => if done[k].0 == i {
                Some(done[k].1)
            } else {
                None
            },
        },
{
    let s = done.subrange(k, done.len() as int);
    assert(s.drop_first() =~= done.subrange(k + 1, done.len() as int));
}

proof fn lemma_filled_push<T>(slots: Seq<Option<T>>, x: Option<T>)
    ensures
        filled(slots.push(x)) == match x {
            Some(v) => filled(slots).push(v),
            None => filled(slots),
        },
{
    assert(slots.push(x).drop_last() =~= slots);
}

/// Puts the results of a batch, which finish in any order and each carry
/// the index of its query, back in query order. A query whose task did not
/// finish leaves no entry; where an index finished twice, the later result
/// counts.
pub fn ordered_results<T>(n: usize, done: Vec<(usize, T)>) -> (res: Vec<T>)
    requires
        forall|j: int| 0 <= j < done@.len() ==> (#[trigger] done@[j]).0 < n,
    ensures
        res@ == filled(slots_of(done@, n as nat)),
{
    let ghost all = done@;
    let mut slots: Vec<Option<T>> = Vec::new();
    let mut i: usize = 0;
    while i < n
        invariant
            i <= n,
            slots@.len() == i,
            forall|j: int| 0 <= j < i ==> (#[trigger] slots@[j]) is None,
        decreases n - i,
    {
        slots.push(None);
        i = i + 1;
    }
    let mut rest = done;
    proof {
        assert forall|j: int| 0 <= j < n implies slots@[j] == slot_result(
            all.subrange(all.len() as int, all.len() as int),
            j,
        ) by {
            assert(all.subrange(all.len() as int, all.len() as int).len() == 0);
        }
    }
    while rest.len() > 0
        invariant
            rest@ == all.subrange(0, rest@.len() as int),
            rest@.len() <= all.len(),
            slots@.len() == n,
            forall|j: int| 0 <= j < all.len() ==> (#[trigger] all[j]).0 < n,
            forall|j: int|
                0 <= j < n ==> (#[trigger] slots@[j]) == slot_result(
                    all.subrange(rest@.len() as int, all.len() as int),
                    j,
                ),
        decreases rest@.len(),
    {
        let k: usize = rest.len() - 1;
        let (idx, r) = rest.pop().unwrap();
        proof {
            assert(all[k as int] == (idx, r));
            assert forall|j: int| 0 <= j < n implies slot_result(
                all.subrange(k as int, all.len() as int),
                j,
            ) == match slot_result(all.subrange(k + 1, all.len() as int), j) {
                Some(x) => Some(x),
                None => if all[k as int].0 == j {
                    Some(all[k as int].1)
                } else {
                    None
                },
            } by {
                lemma_slot_step(all, k as int, j);
            }
        }
        if slots[idx].is_none() {
            slots[idx] = Some(r);
        }
    }
    proof {
        assert(all.subrange(0, all.len() as int) =~= all);
    }
    let ghost full = slots@;
    let mut out: Vec<T> = Vec::new();
    let mut i: usize = 0;
    while i < n
        invariant
            i <= n,
            full.len() == n,
            slots@.len() == n,
            forall|j: int| i <= j < n ==> (#[trigger] slots@[j]) == full[j],
            out@ == filled(full.subrange(0, i as int)),
        decreases n - i,
    {
        let x = slots[i].take();
        proof {
            assert(full.subrange(0, i + 1) =~= full.subrange(0, i as int).push(full[i as int]));
            lemma_filled_push(full.subrange(0, i as int), full[i as int]);
        }
        match x {
            Some(v) => out.push(v),
            None => {},
        }
        i = i + 1;
    }
    proof {
        assert(full.subrange(0, n as int) =~= full);
        assert(full =~= slots_of(all, n as nat));
    }
    out
}

/// Query `i` of the batch has a finished result in `done`.
pub open spec fn finished<T>(done: Seq<(usize, T)>, i: int) -> bool {
    exists|j: int| 0 <= j < done.len() && (#[trigger] done[j]).0 == i
}

/// `v` is a result that query `i` produced in `done`.
pub open spec fn produced<T>(done: Seq<(usize, T)>, i: int, v: T) -> bool {
    exists|j: int| 0 <= j < done.len() && (#[trigger] done[j]).0 == i && done[j].1 == v
}

proof fn lemma_slot_found<T>(done: Seq<(usize, T)>, i: int)
    ensures
        finished(done, i) ==> slot_result(done, i) is Some,
        slot_result(done, i) matches Some(v) ==> produced(done, i, v),
    decreases done.len(),
{
    if done.len() > 0 {
        let rest = done.drop_first();
        lemma_slot_found(rest, i);
        if finished(done, i) {
            let j = choose|j: int| 0 <= j < done.len() && (#[trigger] done[j]).0 == i;
            if j > 0 {
                assert(rest[j - 1].0 == i);
            }
        }
        if let Some(v) = slot_result(rest, i) {
            let j = choose|j: int| 0 <= j < rest.len() && (#[trigger] rest[j]).0 == i && rest[j].1 == v;
            assert(done[j + 1] == rest[j]);
        }
    }
}

proof fn lemma_filled_all_some<T>(s: Seq<Option<T>>)
    requires
        forall|i: int| 0 <= i < s.len() ==> (#[trigger] s[i]) is Some,
    ensures
        filled(s).len() == s.len(),
        forall|i: int| 0 <= i < s.len() ==> Some(#[trigger] filled(s)[i]) == s[i],
    decreases s.len(),
{
    if s.len() > 0 {
        lemma_filled_all_some(s.drop_last());
    }
}

/// When the task of every query in a batch of `n` finished, the batch
/// answers with `n` results, the `i`-th of them one that query `i` produced.
pub proof fn law_batch_keeps_query_order<T>(done: Seq<(usize, T)>, n: nat)
    requires
        forall|j: int| 0 <= j < done.len() ==> (#[trigger] done[j]).0 < n,
        forall|i: int| 0 <= i < n ==> #[trigger] finished(done, i),
    ensures
        filled(slots_of(done, n)).len() == n,
        forall|i: int| 0 <= i < n ==> produced(done, i, #[trigger] filled(slots_of(done, n))[i]),
{
    let slots = slots_of(done, n);
    assert forall|i: int| 0 <= i < slots.len() implies (#[trigger] slots[i]) is Some by {
        lemma_slot_found(done, i);
    }
    lemma_filled_all_some(slots);
    assert forall|i: int| 0 <= i < n implies produced(done, i, #[trigger] filled(slots)[i]) by {
        lemma_slot_found(done, i);
        assert(Some(filled(slots)[i]) == slots[i]);
    }
}

proof fn lemma_digit_char(d: nat)
    requires
        d < 10,
    ensures
        is_digit(digit_char(d)),
        ((digit_char(d) as u32) - 48) as nat == d,
{
}

proof fn lemma_decimal(n: nat)
    ensures
        decimal(n).len() > 0,
        all_digits(decimal(n)),
        digits_value(decimal(n)) == n,
    decreases n,
{
    lemma_digit_char(n % 10);
    if n >= 10 {
        lemma_decimal(n / 10);
        let s = decimal(n);
        assert(s.drop_last() =~= decimal(n / 10));
        assert(s.last() == digit_char(n % 10));
        assert(digits_value(s) == digits_value(decimal(n / 10)) * 10 + ((digit_char(n % 10)
            as u32) - 48) as nat);
        assert(n == (n / 10) * 10 + n % 10);
        assert forall|i: int| 0 <= i < s.len() implies is_digit(#[trigger] s[i]) by {
            if i < s.len() - 1 {
                assert(s[i] == decimal(n / 10)[i]);
            }
        }
    } else {
        let s = decimal(n);
        assert(s.drop_last() =~= Seq::<char>::empty());
        assert(digits_value(s.drop_last()) == 0);
        assert(s.last() == digit_char(n));
    }
}

/// The AS number written into a query URL reads back as that number: the
/// decimal form of any `n` is an AS query for `n`.
pub proof fn law_asn_decimal_reads_back(n: u32)
    ensures
        asn_of(decimal(n as nat)) == Some(n),
        parse_u32_spec(decimal(n as nat)) == Some(n),
{
    let s = decimal(n as nat);
    lemma_decimal(n as nat);
    reveal_strlit("AS");
    reveal_strlit("as");
    assert(is_digit(s[0]));
    assert(!has_prefix(s, "AS"@)) by {
        if has_prefix(s, "AS"@) {
            assert(s.subrange(0, 2)[0] == s[0]);
        }
    }
    assert(trim_start_str(s, "AS"@) == s);
    assert(!has_prefix(s, "as"@)) by {
        if has_prefix(s, "as"@) {
            assert(s.subrange(0, 2)[0] == s[0]);
        }
    }
    assert(trim_start_str(s, "as"@) == s);
    assert(without_plus(s) == s);
}

proof fn lemma_trim_end_char_last(s: Seq<char>, c: char)
    ensures
        trim_end_char(s, c).len() == 0 || trim_end_char(s, c).last() != c,
        trim_end_char(s, c).len() <= s.len(),
    decreases s.len(),
{
    if s.len() > 0 && s.last() == c {
        lemma_trim_end_char_last(s.drop_last(), c);
    }
}

/// A query URL joins the server and the object kind with exactly one `/`:
/// whatever trailing slashes the server URL has, the part before the kind
/// does not end in `/`.
pub proof fn law_query_url_single_slash(server: Seq<char>, kind: Seq<char>, target: Seq<char>)
    ensures
        ({
            let base = trim_end_char(server, '/');
            &&& query_url_spec(server, kind, target) == base + "/"@ + kind + "/"@ + target
            &&& base.len() == 0 || base.last() != '/'
        }),
{
    lemma_trim_end_char_last(server, '/');
}

/// `15169`, `AS15169` and `as15169` are the same AS query: prefixing a
/// string of digits with `AS` or `as` does not change the number it asks
/// for, which is the digits read as a `u32`.
pub proof fn law_asn_prefix_forms_agree(s: Seq<char>)
    requires
        s.len() > 0,
        all_digits(s),
    ensures
        asn_of("AS"@ + s) == asn_of(s),
        asn_of("as"@ + s) == asn_of(s),
        asn_of(s) == parse_u32_spec(s),
{
    reveal_strlit("AS");
    reveal_strlit("as");
    assert(is_digit(s[0]));
    assert(!has_prefix(s, "AS"@)) by {
        if has_prefix(s, "AS"@) {
            assert(s.subrange(0, 2)[0] == s[0]);
        }
    }
    assert(!has_prefix(s, "as"@)) by {
        if has_prefix(s, "as"@) {
            assert(s.subrange(0, 2)[0] == s[0]);
        }
    }
    assert(trim_start_str(s, "AS"@) == s);
    assert(trim_start_str(s, "as"@) == s);
    assert(without_plus(s) == s);
    let upper = "AS"@ + s;
    assert(upper.subrange(0, 2) =~= "AS"@);
    assert(upper.subrange(2, upper.len() as int) =~= s);
    assert(trim_start_str(upper, "AS"@) == s);
    let lower = "as"@ + s;
    assert(lower.subrange(0, 2) =~= "as"@);
    assert(lower.subrange(2, lower.len() as int) =~= s);
    assert(!has_prefix(lower, "AS"@)) by {
        if has_prefix(lower, "AS"@) {
            assert(lower.subrange(0, 2)[0] == 'a');
        }
    }
    assert(trim_start_str(lower, "AS"@) == lower);
    assert(trim_start_str(lower, "as"@) == s);
}

/// Whenever the punycode conversion gives ASCII (as `idna::domain_to_ascii`
/// does), a normalised domain name is all ASCII: an ASCII name passes
/// unchanged (lower-cased) only because it is ASCII, and every other name is
/// converted.
pub proof fn law_normalised_domain_is_ascii(domain: Seq<char>)
    requires
        forall|x: Seq<char>| #[trigger] idna_ascii(x) matches Some(a) ==> all_ascii(a),
    ensures
        normalised_domain(domain) matches Some(Ok(n)) ==> all_ascii(n),
{
    let d = lowercase_chars(trim_end_char(trimmed(domain), '.'));
    assert(idna_ascii(d) matches Some(a) ==> all_ascii(a));
}

} // verus!
