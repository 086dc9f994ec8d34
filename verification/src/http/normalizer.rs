//! Response normaliser — converts raw RDAP JSON into typed response structs.
//!
//! The normaliser extracts the minimum necessary fields from the raw response
//! and returns a typed, consistent struct regardless of which RDAP server
//! produced the response.

use vstd::prelude::*;
use crate::error::RdapError;
use crate::http::decode::{
    de_filter, entity_reader, event_reader, link_reader, opt_v, read_entity, read_event,
    read_filter, read_link, read_remark, read_role, read_status, read_str_elem, remark_reader,
    role_reader, seq_v, status_reader, str_reader,
};
use crate::json::{jget, jstr, jarr, json_views, lemma_json_views, opt_get, opt_str, opt_u64, ref_view, JsonValue, JsonView};
use crate::text::{lowercase_chars, owned, str_eq, to_lowercase};
use crate::types::common::{
    entity_views, lemma_entity_views, opt_json_view, opt_view, strs_view, EntityView, LinkView, RdapEntity, RdapLink, RdapRole,
    ResponseMeta, RoleView,
};
use crate::types::asn::AsnResponse;
use crate::types::domain::{DomainResponse, RegistrarSummary, RegistrarView};
use crate::types::entity::EntityResponse;
use crate::types::ip::{IpResponse, IpVersion};
use crate::types::nameserver::{NameserverIpAddresses, NameserverResponse};

verus! {

broadcast use lemma_json_views;

// ── The clock ─────────────────────────────────────────────────────────────────

/// Calls `chrono::Utc::now` and formats it with `DateTime::to_rfc3339`.
/// The reading depends on the clock, so nothing is stated of it.
#[verifier::external_body]
fn utc_now_rfc3339() -> String {
    chrono::Utc::now().to_rfc3339()
}

// ── Specifications ────────────────────────────────────────────────────────────

/// The elements of an optional array that `f` reads; empty when the value is
/// missing or not an array.
pub open spec fn list_filter<T>(v: Option<JsonView>, f: spec_fn(JsonView) -> Option<T>) -> Seq<T> {
    match opt_arr(v) {
        Some(a) => de_filter(a, f),
        None => Seq::empty(),
    }
}

pub open spec fn opt_arr(v: Option<JsonView>) -> Option<Seq<JsonView>> {
    crate::json::opt_arr(v)
}

/// A string member of the response root.
pub open spec fn string_member(raw: JsonView, key: Seq<char>) -> Option<Seq<char>> {
    opt_str(jget(raw, key))
}

/// The name of a nameserver object: `ldhName`, else `unicodeName`, lower-cased.
pub open spec fn de_ns_name(v: JsonView) -> Option<Seq<char>> {
    let name = match jget(v, "ldhName"@) {
        Some(x) => jstr(x),
        None => opt_str(jget(v, "unicodeName"@)),
    };
    match name {
        Some(s) => Some(lowercase_chars(s)),
        None => None,
    }
}

pub open spec fn ns_name_reader() -> spec_fn(JsonView) -> Option<Seq<char>> {
    |x: JsonView| de_ns_name(x)
}

/// The value of the property named `key` in a vCard property list of
/// `[name, params, type, value]` arrays: that of the first property so
/// named, if it is a string. Reading stops (with no value) at the first
/// entry that is not an array with a string name.
pub open spec fn props_value(props: Seq<JsonView>, key: Seq<char>) -> Option<Seq<char>>
    decreases props.len(),
{
    if props.len() == 0 {
        None
    } else {
        match jarr(props[0]) {
            None => None,
            Some(arr) => if arr.len() == 0 {
                None
            } else {
                match jstr(arr[0]) {
                    None => None,
                    Some(k) => if k == key {
                        if arr.len() > 3 {
                            jstr(arr[3])
                        } else {
                            None
                        }
                    } else {
                        props_value(props.drop_first(), key)
                    },
                }
            },
        }
    }
}

/// The value of property `key` of a vCard array
/// `["vcard", [[property, {}, type, value], ...]]`.
pub open spec fn vcard_value(v: JsonView, key: Seq<char>) -> Option<Seq<char>> {
    match jarr(v) {
        Some(outer) => if outer.len() > 1 {
            match jarr(outer[1]) {
                Some(props) => props_value(props, key),
                None => None,
            }
        } else {
            None
        },
        None => None,
    }
}

/// The full name (`fn` property) of a vCard array.
pub open spec fn vcard_name(v: JsonView) -> Option<Seq<char>> {
    vcard_value(v, "fn"@)
}

/// Some role of `e` is `r`.
pub open spec fn has_role(e: EntityView, r: RoleView) -> bool {
    exists|i: int| 0 <= i < e.roles.len() && e.roles[i] == r
}

/// Some role of `e` is `Registrar`.
pub open spec fn is_registrar(e: EntityView) -> bool {
    has_role(e, RoleView::Registrar)
}

/// The first entity with role `r`.
pub open spec fn first_with_role(es: Seq<EntityView>, r: RoleView) -> Option<EntityView>
    decreases es.len(),
{
    if es.len() == 0 {
        None
    } else if has_role(es[0], r) {
        Some(es[0])
    } else {
        first_with_role(es.drop_first(), r)
    }
}

/// The first entity with the registrar role.
pub open spec fn first_registrar(es: Seq<EntityView>) -> Option<EntityView> {
    first_with_role(es, RoleView::Registrar)
}

/// Property `key` of the vCard of the first entity with the abuse role
/// among `es`.
pub open spec fn abuse_contact_value(es: Seq<EntityView>, key: Seq<char>) -> Option<Seq<char>> {
    match first_with_role(es, RoleView::Abuse) {
        Some(a) => match a.vcard_array {
            Some(v) => vcard_value(v, key),
            None => None,
        },
        None => None,
    }
}

/// The `href` of the first link whose `rel` is `self`.
pub open spec fn self_href(links: Seq<LinkView>) -> Option<Seq<char>>
    decreases links.len(),
{
    if links.len() == 0 {
        None
    } else if links[0].rel == Some("self"@) {
        Some(links[0].href)
    } else {
        self_href(links.drop_first())
    }
}

/// The registrar summary of a list of entities: the first registrar's
/// name (vCard `fn`), handle and `self` link, and the e-mail address
/// (vCard `email`) and telephone (vCard `tel`) of its abuse contact, the
/// first of its own entities with the abuse role.
pub open spec fn registrar_summary(es: Seq<EntityView>) -> Option<RegistrarView> {
    match first_registrar(es) {
        None => None,
        Some(e) => Some(
            RegistrarView {
                name: match e.vcard_array {
                    Some(v) => vcard_name(v),
                    None => None,
                },
                handle: e.handle,
                url: self_href(e.links),
                abuse_email: abuse_contact_value(e.entities, "email"@),
                abuse_phone: abuse_contact_value(e.entities, "tel"@),
            },
        ),
    }
}

/// The common parts of every normalised response: status, entities,
/// events, links and remarks read from the members of the same names.
pub open spec fn common_parts(
    raw: JsonView,
    status: Seq<crate::types::common::StatusView>,
    entities: Seq<EntityView>,
    events: Seq<crate::types::common::EventView>,
    links: Seq<LinkView>,
    remarks: Seq<crate::types::common::RemarkView>,
) -> bool {
    &&& status == list_filter(jget(raw, "status"@), status_reader())
    &&& entities == list_filter(jget(raw, "entities"@), entity_reader())
    &&& events == list_filter(jget(raw, "events"@), event_reader())
    &&& links == list_filter(jget(raw, "links"@), link_reader())
    &&& remarks == list_filter(jget(raw, "remarks"@), remark_reader())
}

/// The failure that a non-object response root gives.
pub open spec fn is_root_error(e: RdapError) -> bool {
    e matches RdapError::ParseError { reason } && reason@
        == "Expected a JSON object at the response root"@
}

/// `r` is the domain response normalised from `raw`.
pub open spec fn domain_normalised(
    r: DomainResponse,
    query: Seq<char>,
    raw: JsonView,
    source: Seq<char>,
    cached: bool,
) -> bool {
    &&& r.query@ == query
    &&& opt_view(r.ldh_name) == string_member(raw, "ldhName"@)
    &&& opt_view(r.unicode_name) == string_member(raw, "unicodeName"@)
    &&& opt_view(r.handle) == string_member(raw, "handle"@)
    &&& strs_view(r.nameservers@) == list_filter(jget(raw, "nameservers"@), ns_name_reader())
    &&& opt_v(r.registrar) == registrar_summary(seq_v(r.entities@))
    &&& common_parts(
        raw,
        seq_v(r.status@),
        seq_v(r.entities@),
        seq_v(r.events@),
        seq_v(r.links@),
        seq_v(r.remarks@),
    )
    &&& r.meta.source@ == source
    &&& r.meta.cached == cached
}

/// The IP version named by `ipVersion`: `v4`, anything else is `v6`.
pub open spec fn ip_version_of(raw: JsonView) -> Option<IpVersion> {
    match string_member(raw, "ipVersion"@) {
        Some(s) => Some(
            if s == "v4"@ {
                IpVersion::V4
            } else {
                IpVersion::V6
            },
        ),
        None => None,
    }
}

/// `r` is the IP network response normalised from `raw`.
pub open spec fn ip_normalised(
    r: IpResponse,
    query: Seq<char>,
    raw: JsonView,
    source: Seq<char>,
    cached: bool,
) -> bool {
    &&& r.query@ == query
    &&& opt_view(r.handle) == string_member(raw, "handle"@)
    &&& opt_view(r.start_address) == string_member(raw, "startAddress"@)
    &&& opt_view(r.end_address) == string_member(raw, "endAddress"@)
    &&& r.ip_version == ip_version_of(raw)
    &&& opt_view(r.name) == string_member(raw, "name"@)
    &&& opt_view(r.allocation_type) == string_member(raw, "type"@)
    &&& opt_view(r.country) == string_member(raw, "country"@)
    &&& opt_view(r.parent_handle) == string_member(raw, "parentHandle"@)
    &&& common_parts(
        raw,
        seq_v(r.status@),
        seq_v(r.entities@),
        seq_v(r.events@),
        seq_v(r.links@),
        seq_v(r.remarks@),
    )
    &&& r.meta.source@ == source
    &&& r.meta.cached == cached
}

/// An AS number member, as `as_u64` then a truncating cast to `u32`.
pub open spec fn autnum_member(raw: JsonView, key: Seq<char>) -> Option<u32> {
    match opt_u64(jget(raw, key)) {
        Some(n) => Some(n as u32),
        None => None,
    }
}

/// `r` is the ASN response normalised from `raw`.
pub open spec fn asn_normalised(
    r: AsnResponse,
    query: u32,
    raw: JsonView,
    source: Seq<char>,
    cached: bool,
) -> bool {
    &&& r.query == query
    &&& opt_view(r.handle) == string_member(raw, "handle"@)
    &&& r.start_autnum == autnum_member(raw, "startAutnum"@)
    &&& r.end_autnum == autnum_member(raw, "endAutnum"@)
    &&& opt_view(r.name) == string_member(raw, "name"@)
    &&& opt_view(r.autnum_type) == string_member(raw, "type"@)
    &&& opt_view(r.country) == string_member(raw, "country"@)
    &&& common_parts(
        raw,
        seq_v(r.status@),
        seq_v(r.entities@),
        seq_v(r.events@),
        seq_v(r.links@),
        seq_v(r.remarks@),
    )
    &&& r.meta.source@ == source
    &&& r.meta.cached == cached
}

/// `r` is the nameserver response normalised from `raw`.
pub open spec fn nameserver_normalised(
    r: NameserverResponse,
    query: Seq<char>,
    raw: JsonView,
    source: Seq<char>,
    cached: bool,
) -> bool {
    &&& r.query@ == query
    &&& opt_view(r.handle) == string_member(raw, "handle"@)
    &&& opt_view(r.ldh_name) == string_member(raw, "ldhName"@)
    &&& opt_view(r.unicode_name) == string_member(raw, "unicodeName"@)
    &&& strs_view(r.ip_addresses.v4@) == list_filter(
        opt_get(jget(raw, "ipAddresses"@), "v4"@),
        str_reader(),
    )
    &&& strs_view(r.ip_addresses.v6@) == list_filter(
        opt_get(jget(raw, "ipAddresses"@), "v6"@),
        str_reader(),
    )
    &&& common_parts(
        raw,
        seq_v(r.status@),
        seq_v(r.entities@),
        seq_v(r.events@),
        seq_v(r.links@),
        seq_v(r.remarks@),
    )
    &&& r.meta.source@ == source
    &&& r.meta.cached == cached
}

/// `r` is the entity response normalised from `raw`.
pub open spec fn entity_normalised(
    r: EntityResponse,
    query: Seq<char>,
    raw: JsonView,
    source: Seq<char>,
    cached: bool,
) -> bool {
    &&& r.query@ == query
    &&& opt_view(r.handle) == string_member(raw, "handle"@)
    &&& opt_json_view(r.vcard_array) == jget(raw, "vcardArray"@)
    &&& seq_v(r.roles@) == list_filter(jget(raw, "roles"@), role_reader())
    &&& common_parts(
        raw,
        seq_v(r.status@),
        seq_v(r.entities@),
        seq_v(r.events@),
        seq_v(r.links@),
        seq_v(r.remarks@),
    )
    &&& r.meta.source@ == source
    &&& r.meta.cached == cached
}

// ── Helpers ───────────────────────────────────────────────────────────────────

fn make_meta(source: &str, cached: bool, queried_at: String) -> (m: ResponseMeta)
    ensures
        m.source@ == source@,
        m.cached == cached,
        m.queried_at == queried_at,
{
    ResponseMeta { source: owned(source), queried_at, cached }
}

fn root_error() -> (e: RdapError)
    ensures
        is_root_error(e),
{
    RdapError::ParseError { reason: owned("Expected a JSON object at the response root") }
}

/// A string member of `obj`, copied.
fn string_field(obj: &JsonValue, key: &str) -> (res: Option<String>)
    ensures
        opt_view(res) == string_member(obj@, key@),
{
    match obj.get(key) {
        Some(JsonValue::String(s)) => Some(s.clone()),
        _ => None,
    }
}

/// The elements of an optional array that `f` reads.
fn list_of<T: View>(
    value: Option<&JsonValue>,
    f: impl Fn(&JsonValue) -> Option<T>,
    Ghost(sf): Ghost<spec_fn(JsonView) -> Option<T::V>>,
) -> (res: Vec<T>)
    requires
        forall|x: &JsonValue| f.requires((x,)),
        forall|x: &JsonValue, r: Option<T>| f.ensures((x,), r) ==> opt_v(r) == sf(x@),
    ensures
        seq_v(res@) == list_filter(ref_view(value), sf),
{
    match value {
        Some(JsonValue::Array(a)) => read_filter(a, f, Ghost(sf)),
        _ => Vec::new(),
    }
}

fn read_ns_name(v: &JsonValue) -> (res: Option<String>)
    ensures
        opt_v(res) == de_ns_name(v@),
{
    let name = match v.get("ldhName") {
        Some(x) => x,
        None => match v.get("unicodeName") {
            Some(x) => x,
            None => {
                return None;
            },
        },
    };
    match name {
        JsonValue::String(s) => Some(to_lowercase(s.as_str())),
        _ => None,
    }
}

/// Whether some role is `Registrar`.
fn has_registrar_role(roles: &Vec<RdapRole>) -> (res: bool)
    ensures
        res == (exists|i: int| 0 <= i < roles@.len() && roles@[i]@ == RoleView::Registrar),
{
    let n = roles.len();
    let mut i: usize = 0;
    while i < n
        invariant
            n == roles@.len(),
            i <= n,
            forall|j: int| 0 <= j < i ==> roles@[j]@ != RoleView::Registrar,
        decreases n - i,
    {
        if matches!(roles[i], RdapRole::Registrar) {
            return true;
        }
        i = i + 1;
    }
    false
}

fn has_abuse_role(roles: &Vec<RdapRole>) -> (res: bool)
    ensures
        res == (exists|i: int| 0 <= i < roles@.len() && roles@[i]@ == RoleView::Abuse),
{
    let n = roles.len();
    let mut i: usize = 0;
    while i < n
        invariant
            n == roles@.len(),
            i <= n,
            forall|j: int| 0 <= j < i ==> roles@[j]@ != RoleView::Abuse,
        decreases n - i,
    {
        if matches!(roles[i], RdapRole::Abuse) {
            return true;
        }
        i = i + 1;
    }
    false
}

/// Property `key` of the vCard of the first abuse contact among `entities`.
fn abuse_contact(entities: &Vec<RdapEntity>, key: &str) -> (res: Option<String>)
    ensures
        opt_view(res) == abuse_contact_value(entity_views(entities@), key@),
{
    let n = entities.len();
    let mut i: usize = 0;
    proof {
        lemma_entity_views(entities@);
    }
    assert(entity_views(entities@).subrange(0, n as int) =~= entity_views(entities@));
    while i < n
        invariant
            n == entities@.len(),
            i <= n,
            first_with_role(entity_views(entities@), RoleView::Abuse) == first_with_role(
                entity_views(entities@).subrange(i as int, n as int),
                RoleView::Abuse,
            ),
        decreases n - i,
    {
        proof {
            lemma_entity_views(entities@);
        }
        let ghost rest = entity_views(entities@).subrange(i as int, n as int);
        assert(rest[0] == entities@[i as int]@);
        assert(rest.drop_first() =~= entity_views(entities@).subrange(i + 1, n as int));
        let e = &entities[i];
        assert(e@.roles =~= seq_v(e.roles@));
        if has_abuse_role(&e.roles) {
            proof {
                let j = choose|j: int|
                    0 <= j < e.roles@.len() && e.roles@[j]@ == RoleView::Abuse;
                assert(e@.roles[j] == RoleView::Abuse);
                assert(has_role(rest[0], RoleView::Abuse));
            }
            return match &e.vcard_array {
                Some(v) => vcard_property(v, key),
                None => None,
            };
        } else {
            assert(!has_role(rest[0], RoleView::Abuse));
        }
        i = i + 1;
    }
    None
}

/// The `href` of the first link whose `rel` is `self`.
fn find_self_href(links: &Vec<RdapLink>) -> (res: Option<String>)
    ensures
        opt_view(res) == self_href(seq_v(links@)),
{
    let n = links.len();
    let mut i: usize = 0;
    assert(seq_v(links@).subrange(0, n as int) =~= seq_v(links@));
    while i < n
        invariant
            n == links@.len(),
            i <= n,
            self_href(seq_v(links@)) == self_href(seq_v(links@).subrange(i as int, n as int)),
        decreases n - i,
    {
        let ghost rest = seq_v(links@).subrange(i as int, n as int);
        assert(rest[0] == links@[i as int]@);
        assert(rest.drop_first() =~= seq_v(links@).subrange(i + 1, n as int));
        let is_self = match &links[i].rel {
            Some(r) => str_eq(r.as_str(), "self"),
            None => false,
        };
        if is_self {
            return Some(links[i].href.clone());
        }
        i = i + 1;
    }
    None
}

/// Extracts a condensed `RegistrarSummary` from the entities list: the
/// first entity with the registrar role gives its handle, vCard name,
/// `self` link and the e-mail and telephone of its abuse contact.
pub fn extract_registrar(entities: &Vec<RdapEntity>) -> (res: Option<RegistrarSummary>)
    ensures
        opt_v(res) == registrar_summary(seq_v(entities@)),
{
    let n = entities.len();
    let mut i: usize = 0;
    assert(seq_v(entities@).subrange(0, n as int) =~= seq_v(entities@));
    while i < n
        invariant
            n == entities@.len(),
            i <= n,
            first_registrar(seq_v(entities@)) == first_registrar(
                seq_v(entities@).subrange(i as int, n as int),
            ),
        decreases n - i,
    {
        let ghost rest = seq_v(entities@).subrange(i as int, n as int);
        assert(rest[0] == entities@[i as int]@);
        assert(rest.drop_first() =~= seq_v(entities@).subrange(i + 1, n as int));
        let e = &entities[i];
        if has_registrar_role(&e.roles) {
            assert(e@.roles =~= seq_v(e.roles@));
            proof {
                let j = choose|j: int|
                    0 <= j < e.roles@.len() && e.roles@[j]@ == RoleView::Registrar;
                assert(e@.roles[j] == RoleView::Registrar);
                assert(is_registrar(rest[0]));
            }
            let name = match &e.vcard_array {
                Some(v) => extract_vcard_name(v),
                None => None,
            };
            let url = find_self_href(&e.links);
            assert(e@.links =~= seq_v(e.links@));
            let handle = match &e.handle {
                Some(h) => Some(h.clone()),
                None => None,
            };
            let abuse_email = abuse_contact(&e.entities, "email");
            let abuse_phone = abuse_contact(&e.entities, "tel");
            return Some(RegistrarSummary { name, handle, url, abuse_email, abuse_phone });
        } else {
            assert(e@.roles =~= seq_v(e.roles@));
            assert(!is_registrar(rest[0]));
        }
        i = i + 1;
    }
    None
}

/// The value of property `key` of a vCard array.
fn vcard_property(vcard: &JsonValue, key: &str) -> (res: Option<String>)
    ensures
        opt_view(res) == vcard_value(vcard@, key@),
{
    let outer = match vcard.as_array() {
        Some(o) => o,
        None => {
            return None;
        },
    };
    proof {
        lemma_json_views(outer@);
    }
    if outer.len() <= 1 {
        return None;
    }
    assert(json_views(outer@)[1] == outer@[1]@);
    let props = match outer[1].as_array() {
        Some(p) => p,
        None => {
            return None;
        },
    };
    let n = props.len();
    let mut i: usize = 0;
    proof {
        lemma_json_views(props@);
    }
    assert(json_views(props@).subrange(0, n as int) =~= json_views(props@));
    while i < n
        invariant
            n == props@.len(),
            i <= n,
            vcard_value(vcard@, key@) == props_value(json_views(props@), key@),
            props_value(json_views(props@), key@) == props_value(
                json_views(props@).subrange(i as int, n as int),
                key@,
            ),
        decreases n - i,
    {
        proof {
            lemma_json_views(props@);
        }
        let ghost rest = json_views(props@).subrange(i as int, n as int);
        assert(rest[0] == props@[i as int]@);
        assert(rest.drop_first() =~= json_views(props@).subrange(i + 1, n as int));
        let arr = match props[i].as_array() {
            Some(a) => a,
            None => {
                return None;
            },
        };
        proof {
            lemma_json_views(arr@);
        }
        if arr.len() == 0 {
            return None;
        }
        assert(json_views(arr@)[0] == arr@[0]@);
        let name = match arr[0].as_string() {
            Some(k) => k,
            None => {
                return None;
            },
        };
        if str_eq(name.as_str(), key) {
            if arr.len() > 3 {
                assert(json_views(arr@)[3] == arr@[3]@);
                return match arr[3].as_string() {
                    Some(s) => Some(s.clone()),
                    None => None,
                };
            }
            return None;
        }
        i = i + 1;
    }
    None
}

/// Tries to extract the `fn` (full name) property from a vCard array.
pub fn extract_vcard_name(vcard: &JsonValue) -> (res: Option<String>)
    ensures
        opt_view(res) == vcard_name(vcard@),
{
    vcard_property(vcard, "fn")
}

// ── Normaliser ────────────────────────────────────────────────────────────────

/// Normalises raw RDAP responses into typed structs.
#[derive(Debug, Clone, Copy)]
pub struct Normalizer;

impl Normalizer {
    pub fn new() -> (n: Self) {
        Normalizer
    }

    /// Normalises a domain response with the given query timestamp.
    pub fn domain_with_time(
        &self,
        query: &str,
        raw: JsonValue,
        source: &str,
        cached: bool,
        queried_at: String,
    ) -> (res: Result<DomainResponse, RdapError>)
        ensures
            match res {
                Ok(r) => raw@ is Object && domain_normalised(r, query@, raw@, source@, cached)
                    && r.meta.queried_at == queried_at,
                Err(e) => !(raw@ is Object) && is_root_error(e),
            },
    {
        let meta = make_meta(source, cached, queried_at);
        if !matches!(raw, JsonValue::Object(_)) {
            return Err(root_error());
        }
        let entities = list_of(raw.get("entities"), read_entity, Ghost(entity_reader()));
        let events = list_of(raw.get("events"), read_event, Ghost(event_reader()));
        let nameservers = list_of(raw.get("nameservers"), read_ns_name, Ghost(ns_name_reader()));
        let registrar = extract_registrar(&entities);
        let r = DomainResponse {
            query: owned(query),
            ldh_name: string_field(&raw, "ldhName"),
            unicode_name: string_field(&raw, "unicodeName"),
            handle: string_field(&raw, "handle"),
            status: list_of(raw.get("status"), read_status, Ghost(status_reader())),
            nameservers,
            registrar,
            entities,
            events,
            links: list_of(raw.get("links"), read_link, Ghost(link_reader())),
            remarks: list_of(raw.get("remarks"), read_remark, Ghost(remark_reader())),
            meta,
        };
        assert(strs_view(r.nameservers@) =~= seq_v(r.nameservers@));
        Ok(r)
    }

    /// Normalises a domain response, stamped with the current time.
    pub fn domain(&self, query: &str, raw: JsonValue, source: &str, cached: bool) -> (res: Result<
        DomainResponse,
        RdapError,
    >)
        ensures
            match res {
                Ok(r) => raw@ is Object && domain_normalised(r, query@, raw@, source@, cached),
                Err(e) => !(raw@ is Object) && is_root_error(e),
            },
    {
        self.domain_with_time(query, raw, source, cached, utc_now_rfc3339())
    }

    /// Normalises an IP network response with the given query timestamp.
    pub fn ip_with_time(
        &self,
        query: &str,
        raw: JsonValue,
        source: &str,
        cached: bool,
        queried_at: String,
    ) -> (res: Result<IpResponse, RdapError>)
        ensures
            match res {
                Ok(r) => raw@ is Object && ip_normalised(r, query@, raw@, source@, cached)
                    && r.meta.queried_at == queried_at,
                Err(e) => !(raw@ is Object) && is_root_error(e),
            },
    {
        let meta = make_meta(source, cached, queried_at);
        if !matches!(raw, JsonValue::Object(_)) {
            return Err(root_error());
        }
        let ip_version = match raw.get("ipVersion") {
            Some(JsonValue::String(s)) => Some(
                if str_eq(s.as_str(), "v4") {
                    IpVersion::V4
                } else {
                    IpVersion::V6
                },
            ),
            _ => None,
        };
        Ok(
            IpResponse {
                query: owned(query),
                handle: string_field(&raw, "handle"),
                start_address: string_field(&raw, "startAddress"),
                end_address: string_field(&raw, "endAddress"),
                ip_version,
                name: string_field(&raw, "name"),
                allocation_type: string_field(&raw, "type"),
                country: string_field(&raw, "country"),
                parent_handle: string_field(&raw, "parentHandle"),
                status: list_of(raw.get("status"), read_status, Ghost(status_reader())),
                entities: list_of(raw.get("entities"), read_entity, Ghost(entity_reader())),
                events: list_of(raw.get("events"), read_event, Ghost(event_reader())),
                links: list_of(raw.get("links"), read_link, Ghost(link_reader())),
                remarks: list_of(raw.get("remarks"), read_remark, Ghost(remark_reader())),
                meta,
            },
        )
    }

    /// Normalises an IP network response, stamped with the current time.
    pub fn ip(&self, query: &str, raw: JsonValue, source: &str, cached: bool) -> (res: Result<
        IpResponse,
        RdapError,
    >)
        ensures
            match res {
                Ok(r) => raw@ is Object && ip_normalised(r, query@, raw@, source@, cached),
                Err(e) => !(raw@ is Object) && is_root_error(e),
            },
    {
        self.ip_with_time(query, raw, source, cached, utc_now_rfc3339())
    }

    /// Normalises an ASN response with the given query timestamp.
    pub fn asn_with_time(
        &self,
        query: u32,
        raw: JsonValue,
        source: &str,
        cached: bool,
        queried_at: String,
    ) -> (res: Result<AsnResponse, RdapError>)
        ensures
            match res {
                Ok(r) => raw@ is Object && asn_normalised(r, query, raw@, source@, cached)
                    && r.meta.queried_at == queried_at,
                Err(e) => !(raw@ is Object) && is_root_error(e),
            },
    {
        let meta = make_meta(source, cached, queried_at);
        if !matches!(raw, JsonValue::Object(_)) {
            return Err(root_error());
        }
        let start_autnum = match raw.get("startAutnum") {
            Some(v) => match v.as_u64() {
                Some(n) => Some(n as u32),
                None => None,
            },
            None => None,
        };
        let end_autnum = match raw.get("endAutnum") {
            Some(v) => match v.as_u64() {
                Some(n) => Some(n as u32),
                None => None,
            },
            None => None,
        };
        Ok(
            AsnResponse {
                query,
                handle: string_field(&raw, "handle"),
                start_autnum,
                end_autnum,
                name: string_field(&raw, "name"),
                autnum_type: string_field(&raw, "type"),
                country: string_field(&raw, "country"),
                status: list_of(raw.get("status"), read_status, Ghost(status_reader())),
                entities: list_of(raw.get("entities"), read_entity, Ghost(entity_reader())),
                events: list_of(raw.get("events"), read_event, Ghost(event_reader())),
                links: list_of(raw.get("links"), read_link, Ghost(link_reader())),
                remarks: list_of(raw.get("remarks"), read_remark, Ghost(remark_reader())),
                meta,
            },
        )
    }

    /// Normalises an ASN response, stamped with the current time.
    pub fn asn(&self, query: u32, raw: JsonValue, source: &str, cached: bool) -> (res: Result<
        AsnResponse,
        RdapError,
    >)
        ensures
            match res {
                Ok(r) => raw@ is Object && asn_normalised(r, query, raw@, source@, cached),
                Err(e) => !(raw@ is Object) && is_root_error(e),
            },
    {
        self.asn_with_time(query, raw, source, cached, utc_now_rfc3339())
    }

    /// Normalises a nameserver response with the given query timestamp.
    pub fn nameserver_with_time(
        &self,
        query: &str,
        raw: JsonValue,
        source: &str,
        cached: bool,
        queried_at: String,
    ) -> (res: Result<NameserverResponse, RdapError>)
        ensures
            match res {
                Ok(r) => raw@ is Object && nameserver_normalised(r, query@, raw@, source@, cached)
                    && r.meta.queried_at == queried_at,
                Err(e) => !(raw@ is Object) && is_root_error(e),
            },
    {
        let meta = make_meta(source, cached, queried_at);
        if !matches!(raw, JsonValue::Object(_)) {
            return Err(root_error());
        }
        let ip_obj = raw.get("ipAddresses");
        let v4 = match ip_obj {
            Some(o) => list_of(o.get("v4"), read_str_elem, Ghost(str_reader())),
            None => Vec::new(),
        };
        assert(strs_view(v4@) =~= seq_v(v4@));
        assert(strs_view(v4@) == list_filter(opt_get(jget(raw@, "ipAddresses"@), "v4"@), str_reader()));
        let v6 = match ip_obj {
            Some(o) => list_of(o.get("v6"), read_str_elem, Ghost(str_reader())),
            None => Vec::new(),
        };
        assert(strs_view(v6@) =~= seq_v(v6@));
        assert(strs_view(v6@) == list_filter(opt_get(jget(raw@, "ipAddresses"@), "v6"@), str_reader()));
        let r = NameserverResponse {
            query: owned(query),
            handle: string_field(&raw, "handle"),
            ldh_name: string_field(&raw, "ldhName"),
            unicode_name: string_field(&raw, "unicodeName"),
            ip_addresses: NameserverIpAddresses { v4, v6 },
            status: list_of(raw.get("status"), read_status, Ghost(status_reader())),
            entities: list_of(raw.get("entities"), read_entity, Ghost(entity_reader())),
            events: list_of(raw.get("events"), read_event, Ghost(event_reader())),
            links: list_of(raw.get("links"), read_link, Ghost(link_reader())),
            remarks: list_of(raw.get("remarks"), read_remark, Ghost(remark_reader())),
            meta,
        };
        Ok(r)
    }

    /// Normalises a nameserver response, stamped with the current time.
    pub fn nameserver(&self, query: &str, raw: JsonValue, source: &str, cached: bool) -> (res:
        Result<NameserverResponse, RdapError>)
        ensures
            match res {
                Ok(r) => raw@ is Object && nameserver_normalised(r, query@, raw@, source@, cached),
                Err(e) => !(raw@ is Object) && is_root_error(e),
            },
    {
        self.nameserver_with_time(query, raw, source, cached, utc_now_rfc3339())
    }

    /// Normalises an entity response with the given query timestamp.
    pub fn entity_with_time(
        &self,
        query: &str,
        raw: JsonValue,
        source: &str,
        cached: bool,
        queried_at: String,
    ) -> (res: Result<EntityResponse, RdapError>)
        ensures
            match res {
                Ok(r) => raw@ is Object && entity_normalised(r, query@, raw@, source@, cached)
                    && r.meta.queried_at == queried_at,
                Err(e) => !(raw@ is Object) && is_root_error(e),
            },
    {
        let meta = make_meta(source, cached, queried_at);
        if !matches!(raw, JsonValue::Object(_)) {
            return Err(root_error());
        }
        let vcard_array = match raw.get("vcardArray") {
            Some(v) => Some(v.deep_clone()),
            None => None,
        };
        Ok(
            EntityResponse {
                query: owned(query),
                handle: string_field(&raw, "handle"),
                vcard_array,
                roles: list_of(raw.get("roles"), read_role, Ghost(role_reader())),
                status: list_of(raw.get("status"), read_status, Ghost(status_reader())),
                entities: list_of(raw.get("entities"), read_entity, Ghost(entity_reader())),
                events: list_of(raw.get("events"), read_event, Ghost(event_reader())),
                links: list_of(raw.get("links"), read_link, Ghost(link_reader())),
                remarks: list_of(raw.get("remarks"), read_remark, Ghost(remark_reader())),
                meta,
            },
        )
    }

    /// Normalises an entity response, stamped with the current time.
    pub fn entity(&self, query: &str, raw: JsonValue, source: &str, cached: bool) -> (res: Result<
        EntityResponse,
        RdapError,
    >)
        ensures
            match res {
                Ok(r) => raw@ is Object && entity_normalised(r, query@, raw@, source@, cached),
                Err(e) => !(raw@ is Object) && is_root_error(e),
            },
    {
        self.entity_with_time(query, raw, source, cached, utc_now_rfc3339())
    }
}

impl Default for Normalizer {
    fn default() -> (n: Self) {
        Normalizer
    }
}

} // verus!
