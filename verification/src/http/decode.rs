//! Reading the RDAP common data structures out of JSON.
//!
//! The wire format is that of the types' serde representation:
//!
//! - a struct is read from an object (members by name, unknown members
//!   ignored) or from an array (fields by position, at most one element per
//!   field); a missing `Option` field is `None` in an object and an error in
//!   an array; a missing list field with a default is empty;
//! - an `Option` field holding `null` is `None`;
//! - a status or role is read from its wire name (`"active"`, …) or from an
//!   object with that name as its single member and `null` as its value;
//!   any other string becomes `Other`;
//! - a list field is read only if every element reads.

use vstd::prelude::*;
use crate::json::{json_views, jstr, lemma_json_views, member_lookup, ref_view, JsonValue, JsonView};
use crate::text::str_eq;
use crate::types::common::{
    entity_views, opt_json_view, opt_view, EntityView, EventView, LinkView, RdapEntity, RdapEvent,
    RdapLink, RdapRemark, RdapRole, RdapStatus, RemarkView, RoleView, StatusView,
    lemma_entity_views,
};

verus! {

broadcast use lemma_json_views;

// ── Struct shapes ─────────────────────────────────────────────────────────────

/// The raw JSON of a struct field: an object member by name, or an array
/// element by position.
pub open spec fn field_src(v: JsonView, name: Seq<char>, idx: int) -> Option<JsonView> {
    match v {
        JsonView::Object(fs) => member_lookup(fs, name),
        JsonView::Array(a) => if 0 <= idx < a.len() {
            Some(a[idx])
        } else {
            None
        },
        _ => None,
    }
}

/// `v` can hold a struct of `n` fields.
pub open spec fn struct_shape(v: JsonView, n: nat) -> bool {
    match v {
        JsonView::Object(_) => true,
        JsonView::Array(a) => a.len() <= n,
        _ => false,
    }
}

/// A required string field.
pub open spec fn de_string(src: Option<JsonView>) -> Option<Seq<char>> {
    match src {
        Some(JsonView::Str(s)) => Some(s),
        _ => None,
    }
}

/// An optional string field (outer `None`: the field does not read).
pub open spec fn de_opt_string(src: Option<JsonView>, positional: bool) -> Option<
    Option<Seq<char>>,
> {
    match src {
        None => if positional {
            None
        } else {
            Some(None)
        },
        Some(JsonView::Null) => Some(None),
        Some(JsonView::Str(s)) => Some(Some(s)),
        _ => None,
    }
}

/// An optional raw JSON field (outer `None`: the field does not read).
pub open spec fn de_opt_json(src: Option<JsonView>, positional: bool) -> Option<
    Option<JsonView>,
> {
    match src {
        None => if positional {
            None
        } else {
            Some(None)
        },
        Some(JsonView::Null) => Some(None),
        Some(x) => Some(Some(x)),
    }
}

// ── Lists ─────────────────────────────────────────────────────────────────────

/// Every element read by `f`, or `None` if one does not read.
pub open spec fn de_all<T>(a: Seq<JsonView>, f: spec_fn(JsonView) -> Option<T>) -> Option<
    Seq<T>,
>
    decreases a.len(),
{
    if a.len() == 0 {
        Some(Seq::empty())
    } else {
        match (de_all(a.drop_last(), f), f(a.last())) {
            (Some(xs), Some(x)) => Some(xs.push(x)),
            _ => None,
        }
    }
}

/// The elements that `f` reads, in order; the others are skipped.
pub open spec fn de_filter<T>(a: Seq<JsonView>, f: spec_fn(JsonView) -> Option<T>) -> Seq<T>
    decreases a.len(),
{
    if a.len() == 0 {
        Seq::empty()
    } else {
        let r = de_filter(a.drop_last(), f);
        match f(a.last()) {
            Some(x) => r.push(x),
            None => r,
        }
    }
}

/// A list field with a default: missing is empty, else an array whose every
/// element reads.
pub open spec fn de_list_field<T>(src: Option<JsonView>, f: spec_fn(JsonView) -> Option<T>) -> Option<
    Seq<T>,
> {
    match src {
        None => Some(Seq::empty()),
        Some(JsonView::Array(a)) => de_all(a, f),
        _ => None,
    }
}

/// A string element.
pub open spec fn de_str_elem(v: JsonView) -> Option<Seq<char>> {
    jstr(v)
}

/// The element readers, as functions.
pub open spec fn str_reader() -> spec_fn(JsonView) -> Option<Seq<char>> {
    |x: JsonView| de_str_elem(x)
}

pub open spec fn status_reader() -> spec_fn(JsonView) -> Option<StatusView> {
    |x: JsonView| de_status(x)
}

pub open spec fn role_reader() -> spec_fn(JsonView) -> Option<RoleView> {
    |x: JsonView| de_role(x)
}

pub open spec fn event_reader() -> spec_fn(JsonView) -> Option<EventView> {
    |x: JsonView| de_event(x)
}

pub open spec fn link_reader() -> spec_fn(JsonView) -> Option<LinkView> {
    |x: JsonView| de_link(x)
}

pub open spec fn remark_reader() -> spec_fn(JsonView) -> Option<RemarkView> {
    |x: JsonView| de_remark(x)
}

pub open spec fn entity_reader() -> spec_fn(JsonView) -> Option<EntityView> {
    |x: JsonView| de_entity(x)
}

proof fn lemma_de_all_none<T>(a: Seq<JsonView>, f: spec_fn(JsonView) -> Option<T>, i: int)
    requires
        0 <= i < a.len(),
        f(a[i]) is None,
    ensures
        de_all(a, f) is None,
    decreases a.len(),
{
    if i < a.len() - 1 {
        assert(a.drop_last()[i] == a[i]);
        lemma_de_all_none(a.drop_last(), f, i);
    }
}

// ── Status and role ───────────────────────────────────────────────────────────

/// The status with wire name `s`.
pub open spec fn status_named(s: Seq<char>) -> Option<StatusView> {
    if s == "validated"@ {
        Some(StatusView::Validated)
    } else if s == "renew prohibited"@ {
        Some(StatusView::RenewProhibited)
    } else if s == "update prohibited"@ {
        Some(StatusView::UpdateProhibited)
    } else if s == "transfer prohibited"@ {
        Some(StatusView::TransferProhibited)
    } else if s == "delete prohibited"@ {
        Some(StatusView::DeleteProhibited)
    } else if s == "proxy"@ {
        Some(StatusView::Proxy)
    } else if s == "private"@ {
        Some(StatusView::Private)
    } else if s == "removed"@ {
        Some(StatusView::Removed)
    } else if s == "obscured"@ {
        Some(StatusView::Obscured)
    } else if s == "associated"@ {
        Some(StatusView::Associated)
    } else if s == "active"@ {
        Some(StatusView::Active)
    } else if s == "inactive"@ {
        Some(StatusView::Inactive)
    } else if s == "locked"@ {
        Some(StatusView::Locked)
    } else if s == "pending create"@ {
        Some(StatusView::PendingCreate)
    } else if s == "pending renew"@ {
        Some(StatusView::PendingRenew)
    } else if s == "pending transfer"@ {
        Some(StatusView::PendingTransfer)
    } else if s == "pending update"@ {
        Some(StatusView::PendingUpdate)
    } else if s == "pending delete"@ {
        Some(StatusView::PendingDelete)
    } else {
        None
    }
}

/// A status read from JSON.
pub open spec fn de_status(v: JsonView) -> Option<StatusView> {
    match v {
        JsonView::Str(s) => match status_named(s) {
            Some(x) => Some(x),
            None => Some(StatusView::Other(s)),
        },
        JsonView::Object(fs) => if fs.len() == 1 && fs[0].1 == JsonView::Null {
            status_named(fs[0].0)
        } else {
            None
        },
        _ => None,
    }
}

/// The role with wire name `s`.
pub open spec fn role_named(s: Seq<char>) -> Option<RoleView> {
    if s == "registrant"@ {
        Some(RoleView::Registrant)
    } else if s == "technical"@ {
        Some(RoleView::Technical)
    } else if s == "administrative"@ {
        Some(RoleView::Administrative)
    } else if s == "abuse"@ {
        Some(RoleView::Abuse)
    } else if s == "billing"@ {
        Some(RoleView::Billing)
    } else if s == "registrar"@ {
        Some(RoleView::Registrar)
    } else if s == "reseller"@ {
        Some(RoleView::Reseller)
    } else if s == "sponsor"@ {
        Some(RoleView::Sponsor)
    } else if s == "proxy"@ {
        Some(RoleView::Proxy)
    } else if s == "notifications"@ {
        Some(RoleView::Notifications)
    } else if s == "noc"@ {
        Some(RoleView::Noc)
    } else {
        None
    }
}

/// A role read from JSON.
pub open spec fn de_role(v: JsonView) -> Option<RoleView> {
    match v {
        JsonView::Str(s) => match role_named(s) {
            Some(x) => Some(x),
            None => Some(RoleView::Other(s)),
        },
        JsonView::Object(fs) => if fs.len() == 1 && fs[0].1 == JsonView::Null {
            role_named(fs[0].0)
        } else {
            None
        },
        _ => None,
    }
}

// ── Structs ───────────────────────────────────────────────────────────────────

/// An event read from JSON (`eventAction`, `eventDate`, `eventActor`).
pub open spec fn de_event(v: JsonView) -> Option<EventView> {
    let p = v is Array;
    if !struct_shape(v, 3) {
        None
    } else {
        match (
            de_string(field_src(v, "eventAction"@, 0)),
            de_string(field_src(v, "eventDate"@, 1)),
            de_opt_string(field_src(v, "eventActor"@, 2), p),
        ) {
            (Some(a), Some(d), Some(actor)) => Some(
                EventView { event_action: a, event_date: d, event_actor: actor },
            ),
            _ => None,
        }
    }
}

/// A link read from JSON (`href`, `rel`, `type`, `title`).
pub open spec fn de_link(v: JsonView) -> Option<LinkView> {
    let p = v is Array;
    if !struct_shape(v, 4) {
        None
    } else {
        match (
            de_string(field_src(v, "href"@, 0)),
            de_opt_string(field_src(v, "rel"@, 1), p),
            de_opt_string(field_src(v, "type"@, 2), p),
            de_opt_string(field_src(v, "title"@, 3), p),
        ) {
            (Some(h), Some(r), Some(t), Some(ti)) => Some(
                LinkView { href: h, rel: r, media_type: t, title: ti },
            ),
            _ => None,
        }
    }
}

/// A remark read from JSON (`title`, `type`, `description`, `links`).
pub open spec fn de_remark(v: JsonView) -> Option<RemarkView> {
    let p = v is Array;
    if !struct_shape(v, 4) {
        None
    } else {
        match (
            de_opt_string(field_src(v, "title"@, 0), p),
            de_opt_string(field_src(v, "type"@, 1), p),
            field_src(v, "description"@, 2),
            de_list_field(field_src(v, "links"@, 3), link_reader()),
        ) {
            (Some(t), Some(ty), Some(JsonView::Array(d)), Some(l)) => match de_all(d, str_reader()) {
                Some(ds) => Some(
                    RemarkView { title: t, remark_type: ty, description: ds, links: l },
                ),
                None => None,
            },
            _ => None,
        }
    }
}

/// An entity read from JSON (`handle`, `vcardArray`, `roles`, `events`,
/// `links`, `remarks`, `entities`).
pub open spec fn de_entity(v: JsonView) -> Option<EntityView>
    decreases v,
{
    let p = v is Array;
    if !struct_shape(v, 7) {
        None
    } else {
        let ents = match field_src(v, "entities"@, 6) {
            None => Some(Seq::empty()),
            Some(JsonView::Array(a)) => {
                proof {
                    lemma_field_src_decreases(v, "entities"@, 6);
                }
                de_entity_all(a)
            },
            _ => None,
        };
        match (
            de_opt_string(field_src(v, "handle"@, 0), p),
            de_opt_json(field_src(v, "vcardArray"@, 1), p),
            de_list_field(field_src(v, "roles"@, 2), role_reader()),
            de_list_field(field_src(v, "events"@, 3), event_reader()),
            de_list_field(field_src(v, "links"@, 4), link_reader()),
            de_list_field(field_src(v, "remarks"@, 5), remark_reader()),
            ents,
        ) {
            (Some(h), Some(vc), Some(ro), Some(ev), Some(li), Some(re), Some(en)) => Some(
                EntityView {
                    handle: h,
                    vcard_array: vc,
                    roles: ro,
                    events: ev,
                    links: li,
                    remarks: re,
                    entities: en,
                },
            ),
            _ => None,
        }
    }
}

/// Every element read as an entity, or `None` if one does not read.
pub open spec fn de_entity_all(a: Seq<JsonView>) -> Option<Seq<EntityView>>
    decreases a,
{
    if a.len() == 0 {
        Some(Seq::empty())
    } else {
        match (de_entity_all(a.drop_last()), de_entity(a.last())) {
            (Some(xs), Some(x)) => Some(xs.push(x)),
            _ => None,
        }
    }
}

pub proof fn lemma_lookup_decreases(fs: Seq<(Seq<char>, JsonView)>, key: Seq<char>)
    ensures
        member_lookup(fs, key) matches Some(x) ==> decreases_to!(fs => x),
    decreases fs.len(),
{
    if fs.len() > 0 {
        if fs[0].0 == key {
            assert(decreases_to!(fs => fs[0]));
            assert(decreases_to!(fs[0] => fs[0].1));
        } else {
            lemma_lookup_decreases(fs.drop_first(), key);
            assert(fs.drop_first() == fs.subrange(1, fs.len() as int));
            assert(decreases_to!(fs => fs.subrange(1, fs.len() as int)));
        }
    }
}

pub proof fn lemma_field_src_decreases(v: JsonView, name: Seq<char>, idx: int)
    ensures
        field_src(v, name, idx) matches Some(JsonView::Array(a)) ==> decreases_to!(v => a),
{
    if let Some(JsonView::Array(a)) = field_src(v, name, idx) {
        let x = field_src(v, name, idx).unwrap();
        assert(decreases_to!(x => x->Array_0));
        match v {
            JsonView::Object(fs) => {
                assert(decreases_to!(v => v->Object_0));
                lemma_lookup_decreases(fs, name);
            },
            JsonView::Array(arr) => {
                assert(decreases_to!(v => v->Array_0));
                assert(decreases_to!(arr => arr[idx]));
            },
            _ => {},
        }
    }
}

// ── Wire names ────────────────────────────────────────────────────────────────

/// The wire name of a status (RFC 9083 §10.2.2); an extension status is its own text.
pub open spec fn status_wire_name(v: StatusView) -> Seq<char> {
    match v {
        StatusView::Validated => "validated"@,
        StatusView::RenewProhibited => "renew prohibited"@,
        StatusView::UpdateProhibited => "update prohibited"@,
        StatusView::TransferProhibited => "transfer prohibited"@,
        StatusView::DeleteProhibited => "delete prohibited"@,
        StatusView::Proxy => "proxy"@,
        StatusView::Private => "private"@,
        StatusView::Removed => "removed"@,
        StatusView::Obscured => "obscured"@,
        StatusView::Associated => "associated"@,
        StatusView::Active => "active"@,
        StatusView::Inactive => "inactive"@,
        StatusView::Locked => "locked"@,
        StatusView::PendingCreate => "pending create"@,
        StatusView::PendingRenew => "pending renew"@,
        StatusView::PendingTransfer => "pending transfer"@,
        StatusView::PendingUpdate => "pending update"@,
        StatusView::PendingDelete => "pending delete"@,
        StatusView::Other(s) => s,
    }
}

/// Every status is read back from its own wire name: the JSON string naming
/// a status gives that status and no other (so, e.g., `"inactive"` is
/// `Inactive`, not `Active`).
pub proof fn law_status_wire_names_read_back(v: StatusView)
    requires
        !(v is Other),
    ensures
        de_status(JsonView::Str(status_wire_name(v))) == Some(v),
{
    match v {
        StatusView::Validated => {
            reveal_strlit("validated");
        },
        StatusView::RenewProhibited => {
            reveal_strlit("renew prohibited");
            reveal_strlit("validated");
            assert("renew prohibited"@.len() != "validated"@.len());
        },
        StatusView::UpdateProhibited => {
            reveal_strlit("update prohibited");
            reveal_strlit("validated");
            assert("update prohibited"@.len() != "validated"@.len());
            reveal_strlit("renew prohibited");
            assert("update prohibited"@.len() != "renew prohibited"@.len());
        },
        StatusView::TransferProhibited => {
            reveal_strlit("transfer prohibited");
            reveal_strlit("validated");
            assert("transfer prohibited"@.len() != "validated"@.len());
            reveal_strlit("renew prohibited");
            assert("transfer prohibited"@.len() != "renew prohibited"@.len());
            reveal_strlit("update prohibited");
            assert("transfer prohibited"@.len() != "update prohibited"@.len());
        },
        StatusView::DeleteProhibited => {
            reveal_strlit("delete prohibited");
            reveal_strlit("validated");
            assert("delete prohibited"@.len() != "validated"@.len());
            reveal_strlit("renew prohibited");
            assert("delete prohibited"@.len() != "renew prohibited"@.len());
            reveal_strlit("update prohibited");
            assert("delete prohibited"@[0] != "update prohibited"@[0]);
            reveal_strlit("transfer prohibited");
            assert("delete prohibited"@.len() != "transfer prohibited"@.len());
        },
        StatusView::Proxy => {
            reveal_strlit("proxy");
            reveal_strlit("validated");
            assert("proxy"@.len() != "validated"@.len());
            reveal_strlit("renew prohibited");
            assert("proxy"@.len() != "renew prohibited"@.len());
            reveal_strlit("update prohibited");
            assert("proxy"@.len() != "update prohibited"@.len());
            reveal_strlit("transfer prohibited");
            assert("proxy"@.len() != "transfer prohibited"@.len());
            reveal_strlit("delete prohibited");
            assert("proxy"@.len() != "delete prohibited"@.len());
        },
        StatusView::Private => {
            reveal_strlit("private");
            reveal_strlit("validated");
            assert("private"@.len() != "validated"@.len());
            reveal_strlit("renew prohibited");
            assert("private"@.len() != "renew prohibited"@.len());
            reveal_strlit("update prohibited");
            assert("private"@.len() != "update prohibited"@.len());
            reveal_strlit("transfer prohibited");
            assert("private"@.len() != "transfer prohibited"@.len());
            reveal_strlit("delete prohibited");
            assert("private"@.len() != "delete prohibited"@.len());
            reveal_strlit("proxy");
            assert("private"@.len() != "proxy"@.len());
        },
        StatusView::Removed => {
            reveal_strlit("removed");
            reveal_strlit("validated");
            assert("removed"@.len() != "validated"@.len());
            reveal_strlit("renew prohibited");
            assert("removed"@.len() != "renew prohibited"@.len());
            reveal_strlit("update prohibited");
            assert("removed"@.len() != "update prohibited"@.len());
            reveal_strlit("transfer prohibited");
            assert("removed"@.len() != "transfer prohibited"@.len());
            reveal_strlit("delete prohibited");
            assert("removed"@.len() != "delete prohibited"@.len());
            reveal_strlit("proxy");
            assert("removed"@.len() != "proxy"@.len());
            reveal_strlit("private");
            assert("removed"@[0] != "private"@[0]);
        },
        StatusView::Obscured => {
            reveal_strlit("obscured");
            reveal_strlit("validated");
            assert("obscured"@.len() != "validated"@.len());
            reveal_strlit("renew prohibited");
            assert("obscured"@.len() != "renew prohibited"@.len());
            reveal_strlit("update prohibited");
            assert("obscured"@.len() != "update prohibited"@.len());
            reveal_strlit("transfer prohibited");
            assert("obscured"@.len() != "transfer prohibited"@.len());
            reveal_strlit("delete prohibited");
            assert("obscured"@.len() != "delete prohibited"@.len());
            reveal_strlit("proxy");
            assert("obscured"@.len() != "proxy"@.len());
            reveal_strlit("private");
            assert("obscured"@.len() != "private"@.len());
            reveal_strlit("removed");
            assert("obscured"@.len() != "removed"@.len());
        },
        StatusView::Associated => {
            reveal_strlit("associated");
            reveal_strlit("validated");
            assert("associated"@.len() != "validated"@.len());
            reveal_strlit("renew prohibited");
            assert("associated"@.len() != "renew prohibited"@.len());
            reveal_strlit("update prohibited");
            assert("associated"@.len() != "update prohibited"@.len());
            reveal_strlit("transfer prohibited");
            assert("associated"@.len() != "transfer prohibited"@.len());
            reveal_strlit("delete prohibited");
            assert("associated"@.len() != "delete prohibited"@.len());
            reveal_strlit("proxy");
            assert("associated"@.len() != "proxy"@.len());
            reveal_strlit("private");
            assert("associated"@.len() != "private"@.len());
            reveal_strlit("removed");
            assert("associated"@.len() != "removed"@.len());
            reveal_strlit("obscured");
            assert("associated"@.len() != "obscured"@.len());
        },
        StatusView::Active => {
            reveal_strlit("active");
            reveal_strlit("validated");
            assert("active"@.len() != "validated"@.len());
            reveal_strlit("renew prohibited");
            assert("active"@.len() != "renew prohibited"@.len());
            reveal_strlit("update prohibited");
            assert("active"@.len() != "update prohibited"@.len());
            reveal_strlit("transfer prohibited");
            assert("active"@.len() != "transfer prohibited"@.len());
            reveal_strlit("delete prohibited");
            assert("active"@.len() != "delete prohibited"@.len());
            reveal_strlit("proxy");
            assert("active"@.len() != "proxy"@.len());
            reveal_strlit("private");
            assert("active"@.len() != "private"@.len());
            reveal_strlit("removed");
            assert("active"@.len() != "removed"@.len());
            reveal_strlit("obscured");
            assert("active"@.len() != "obscured"@.len());
            reveal_strlit("associated");
            assert("active"@.len() != "associated"@.len());
        },
        StatusView::Inactive => {
            reveal_strlit("inactive");
            reveal_strlit("validated");
            assert("inactive"@.len() != "validated"@.len());
            reveal_strlit("renew prohibited");
            assert("inactive"@.len() != "renew prohibited"@.len());
            reveal_strlit("update prohibited");
            assert("inactive"@.len() != "update prohibited"@.len());
            reveal_strlit("transfer prohibited");
            assert("inactive"@.len() != "transfer prohibited"@.len());
            reveal_strlit("delete prohibited");
            assert("inactive"@.len() != "delete prohibited"@.len());
            reveal_strlit("proxy");
            assert("inactive"@.len() != "proxy"@.len());
            reveal_strlit("private");
            assert("inactive"@.len() != "private"@.len());
            reveal_strlit("removed");
            assert("inactive"@.len() != "removed"@.len());
            reveal_strlit("obscured");
            assert("inactive"@[0] != "obscured"@[0]);
            reveal_strlit("associated");
            assert("inactive"@.len() != "associated"@.len());
            reveal_strlit("active");
            assert("inactive"@.len() != "active"@.len());
        },
        StatusView::Locked => {
            reveal_strlit("locked");
            reveal_strlit("validated");
            assert("locked"@.len() != "validated"@.len());
            reveal_strlit("renew prohibited");
            assert("locked"@.len() != "renew prohibited"@.len());
            reveal_strlit("update prohibited");
            assert("locked"@.len() != "update prohibited"@.len());
            reveal_strlit("transfer prohibited");
            assert("locked"@.len() != "transfer prohibited"@.len());
            reveal_strlit("delete prohibited");
            assert("locked"@.len() != "delete prohibited"@.len());
            reveal_strlit("proxy");
            assert("locked"@.len() != "proxy"@.len());
            reveal_strlit("private");
            assert("locked"@.len() != "private"@.len());
            reveal_strlit("removed");
            assert("locked"@.len() != "removed"@.len());
            reveal_strlit("obscured");
            assert("locked"@.len() != "obscured"@.len());
            reveal_strlit("associated");
            assert("locked"@.len() != "associated"@.len());
            reveal_strlit("active");
            assert("locked"@[0] != "active"@[0]);
            reveal_strlit("inactive");
            assert("locked"@.len() != "inactive"@.len());
        },
        StatusView::PendingCreate => {
            reveal_strlit("pending create");
            reveal_strlit("validated");
            assert("pending create"@.len() != "validated"@.len());
            reveal_strlit("renew prohibited");
            assert("pending create"@.len() != "renew prohibited"@.len());
            reveal_strlit("update prohibited");
            assert("pending create"@.len() != "update prohibited"@.len());
            reveal_strlit("transfer prohibited");
            assert("pending create"@.len() != "transfer prohibited"@.len());
            reveal_strlit("delete prohibited");
            assert("pending create"@.len() != "delete prohibited"@.len());
            reveal_strlit("proxy");
            assert("pending create"@.len() != "proxy"@.len());
            reveal_strlit("private");
            assert("pending create"@.len() != "private"@.len());
            reveal_strlit("removed");
            assert("pending create"@.len() != "removed"@.len());
            reveal_strlit("obscured");
            assert("pending create"@.len() != "obscured"@.len());
            reveal_strlit("associated");
            assert("pending create"@.len() != "associated"@.len());
            reveal_strlit("active");
            assert("pending create"@.len() != "active"@.len());
            reveal_strlit("inactive");
            assert("pending create"@.len() != "inactive"@.len());
            reveal_strlit("locked");
            assert("pending create"@.len() != "locked"@.len());
        },
        StatusView::PendingRenew => {
            reveal_strlit("pending renew");
            reveal_strlit("validated");
            assert("pending renew"@.len() != "validated"@.len());
            reveal_strlit("renew prohibited");
            assert("pending renew"@.len() != "renew prohibited"@.len());
            reveal_strlit("update prohibited");
            assert("pending renew"@.len() != "update prohibited"@.len());
            reveal_strlit("transfer prohibited");
            assert("pending renew"@.len() != "transfer prohibited"@.len());
            reveal_strlit("delete prohibited");
            assert("pending renew"@.len() != "delete prohibited"@.len());
            reveal_strlit("proxy");
            assert("pending renew"@.len() != "proxy"@.len());
            reveal_strlit("private");
            assert("pending renew"@.len() != "private"@.len());
            reveal_strlit("removed");
            assert("pending renew"@.len() != "removed"@.len());
            reveal_strlit("obscured");
            assert("pending renew"@.len() != "obscured"@.len());
            reveal_strlit("associated");
            assert("pending renew"@.len() != "associated"@.len());
            reveal_strlit("active");
            assert("pending renew"@.len() != "active"@.len());
            reveal_strlit("inactive");
            assert("pending renew"@.len() != "inactive"@.len());
            reveal_strlit("locked");
            assert("pending renew"@.len() != "locked"@.len());
            reveal_strlit("pending create");
            assert("pending renew"@.len() != "pending create"@.len());
        },
        StatusView::PendingTransfer => {
            reveal_strlit("pending transfer");
            reveal_strlit("validated");
            assert("pending transfer"@.len() != "validated"@.len());
            reveal_strlit("renew prohibited");
            assert("pending transfer"@[0] != "renew prohibited"@[0]);
            reveal_strlit("update prohibited");
            assert("pending transfer"@.len() != "update prohibited"@.len());
            reveal_strlit("transfer prohibited");
            assert("pending transfer"@.len() != "transfer prohibited"@.len());
            reveal_strlit("delete prohibited");
            assert("pending transfer"@.len() != "delete prohibited"@.len());
            reveal_strlit("proxy");
            assert("pending transfer"@.len() != "proxy"@.len());
            reveal_strlit("private");
            assert("pending transfer"@.len() != "private"@.len());
            reveal_strlit("removed");
            assert("pending transfer"@.len() != "removed"@.len());
            reveal_strlit("obscured");
            assert("pending transfer"@.len() != "obscured"@.len());
            reveal_strlit("associated");
            assert("pending transfer"@.len() != "associated"@.len());
            reveal_strlit("active");
            assert("pending transfer"@.len() != "active"@.len());
            reveal_strlit("inactive");
            assert("pending transfer"@.len() != "inactive"@.len());
            reveal_strlit("locked");
            assert("pending transfer"@.len() != "locked"@.len());
            reveal_strlit("pending create");
            assert("pending transfer"@.len() != "pending create"@.len());
            reveal_strlit("pending renew");
            assert("pending transfer"@.len() != "pending renew"@.len());
        },
        StatusView::PendingUpdate => {
            reveal_strlit("pending update");
            reveal_strlit("validated");
            assert("pending update"@.len() != "validated"@.len());
            reveal_strlit("renew prohibited");
            assert("pending update"@.len() != "renew prohibited"@.len());
            reveal_strlit("update prohibited");
            assert("pending update"@.len() != "update prohibited"@.len());
            reveal_strlit("transfer prohibited");
            assert("pending update"@.len() != "transfer prohibited"@.len());
            reveal_strlit("delete prohibited");
            assert("pending update"@.len() != "delete prohibited"@.len());
            reveal_strlit("proxy");
            assert("pending update"@.len() != "proxy"@.len());
            reveal_strlit("private");
            assert("pending update"@.len() != "private"@.len());
            reveal_strlit("removed");
            assert("pending update"@.len() != "removed"@.len());
            reveal_strlit("obscured");
            assert("pending update"@.len() != "obscured"@.len());
            reveal_strlit("associated");
            assert("pending update"@.len() != "associated"@.len());
            reveal_strlit("active");
            assert("pending update"@.len() != "active"@.len());
            reveal_strlit("inactive");
            assert("pending update"@.len() != "inactive"@.len());
            reveal_strlit("locked");
            assert("pending update"@.len() != "locked"@.len());
            reveal_strlit("pending create");
            assert("pending update"@[8] != "pending create"@[8]);
            reveal_strlit("pending renew");
            assert("pending update"@.len() != "pending renew"@.len());
            reveal_strlit("pending transfer");
            assert("pending update"@.len() != "pending transfer"@.len());
        },
        StatusView::PendingDelete => {
            reveal_strlit("pending delete");
            reveal_strlit("validated");
            assert("pending delete"@.len() != "validated"@.len());
            reveal_strlit("renew prohibited");
            assert("pending delete"@.len() != "renew prohibited"@.len());
            reveal_strlit("update prohibited");
            assert("pending delete"@.len() != "update prohibited"@.len());
            reveal_strlit("transfer prohibited");
            assert("pending delete"@.len() != "transfer prohibited"@.len());
            reveal_strlit("delete prohibited");
            assert("pending delete"@.len() != "delete prohibited"@.len());
            reveal_strlit("proxy");
            assert("pending delete"@.len() != "proxy"@.len());
            reveal_strlit("private");
            assert("pending delete"@.len() != "private"@.len());
            reveal_strlit("removed");
            assert("pending delete"@.len() != "removed"@.len());
            reveal_strlit("obscured");
            assert("pending delete"@.len() != "obscured"@.len());
            reveal_strlit("associated");
            assert("pending delete"@.len() != "associated"@.len());
            reveal_strlit("active");
            assert("pending delete"@.len() != "active"@.len());
            reveal_strlit("inactive");
            assert("pending delete"@.len() != "inactive"@.len());
            reveal_strlit("locked");
            assert("pending delete"@.len() != "locked"@.len());
            reveal_strlit("pending create");
            assert("pending delete"@[8] != "pending create"@[8]);
            reveal_strlit("pending renew");
            assert("pending delete"@.len() != "pending renew"@.len());
            reveal_strlit("pending transfer");
            assert("pending delete"@.len() != "pending transfer"@.len());
            reveal_strlit("pending update");
            assert("pending delete"@[8] != "pending update"@[8]);
        },
        _ => {},
    }
}

/// The wire name of a role (RFC 9083 §10.2.4); an extension role is its own text.
pub open spec fn role_wire_name(v: RoleView) -> Seq<char> {
    match v {
        RoleView::Registrant => "registrant"@,
        RoleView::Technical => "technical"@,
        RoleView::Administrative => "administrative"@,
        RoleView::Abuse => "abuse"@,
        RoleView::Billing => "billing"@,
        RoleView::Registrar => "registrar"@,
        RoleView::Reseller => "reseller"@,
        RoleView::Sponsor => "sponsor"@,
        RoleView::Proxy => "proxy"@,
        RoleView::Notifications => "notifications"@,
        RoleView::Noc => "noc"@,
        RoleView::Other(s) => s,
    }
}

/// Every role is read back from its own wire name: the JSON string naming a
/// role gives that role and no other.
pub proof fn law_role_wire_names_read_back(v: RoleView)
    requires
        !(v is Other),
    ensures
        de_role(JsonView::Str(role_wire_name(v))) == Some(v),
{
    match v {
        RoleView::Registrant => {
            reveal_strlit("registrant");
        },
        RoleView::Technical => {
            reveal_strlit("technical");
            reveal_strlit("registrant");
            assert("technical"@.len() != "registrant"@.len());
        },
        RoleView::Administrative => {
            reveal_strlit("administrative");
            reveal_strlit("registrant");
            assert("administrative"@.len() != "registrant"@.len());
            reveal_strlit("technical");
            assert("administrative"@.len() != "technical"@.len());
        },
        RoleView::Abuse => {
            reveal_strlit("abuse");
            reveal_strlit("registrant");
            assert("abuse"@.len() != "registrant"@.len());
            reveal_strlit("technical");
            assert("abuse"@.len() != "technical"@.len());
            reveal_strlit("administrative");
            assert("abuse"@.len() != "administrative"@.len());
        },
        RoleView::Billing => {
            reveal_strlit("billing");
            reveal_strlit("registrant");
            assert("billing"@.len() != "registrant"@.len());
            reveal_strlit("technical");
            assert("billing"@.len() != "technical"@.len());
            reveal_strlit("administrative");
            assert("billing"@.len() != "administrative"@.len());
            reveal_strlit("abuse");
            assert("billing"@.len() != "abuse"@.len());
        },
        RoleView::Registrar => {
            reveal_strlit("registrar");
            reveal_strlit("registrant");
            assert("registrar"@.len() != "registrant"@.len());
            reveal_strlit("technical");
            assert("registrar"@[0] != "technical"@[0]);
            reveal_strlit("administrative");
            assert("registrar"@.len() != "administrative"@.len());
            reveal_strlit("abuse");
            assert("registrar"@.len() != "abuse"@.len());
            reveal_strlit("billing");
            assert("registrar"@.len() != "billing"@.len());
        },
        RoleView::Reseller => {
            reveal_strlit("reseller");
            reveal_strlit("registrant");
            assert("reseller"@.len() != "registrant"@.len());
            reveal_strlit("technical");
            assert("reseller"@.len() != "technical"@.len());
            reveal_strlit("administrative");
            assert("reseller"@.len() != "administrative"@.len());
            reveal_strlit("abuse");
            assert("reseller"@.len() != "abuse"@.len());
            reveal_strlit("billing");
            assert("reseller"@.len() != "billing"@.len());
            reveal_strlit("registrar");
            assert("reseller"@.len() != "registrar"@.len());
        },
        RoleView::Sponsor => {
            reveal_strlit("sponsor");
            reveal_strlit("registrant");
            assert("sponsor"@.len() != "registrant"@.len());
            reveal_strlit("technical");
            assert("sponsor"@.len() != "technical"@.len());
            reveal_strlit("administrative");
            assert("sponsor"@.len() != "administrative"@.len());
            reveal_strlit("abuse");
            assert("sponsor"@.len() != "abuse"@.len());
            reveal_strlit("billing");
            assert("sponsor"@[0] != "billing"@[0]);
            reveal_strlit("registrar");
            assert("sponsor"@.len() != "registrar"@.len());
            reveal_strlit("reseller");
            assert("sponsor"@.len() != "reseller"@.len());
        },
        RoleView::Proxy => {
            reveal_strlit("proxy");
            reveal_strlit("registrant");
            assert("proxy"@.len() != "registrant"@.len());
            reveal_strlit("technical");
            assert("proxy"@.len() != "technical"@.len());
            reveal_strlit("administrative");
            assert("proxy"@.len() != "administrative"@.len());
            reveal_strlit("abuse");
            assert("proxy"@[0] != "abuse"@[0]);
            reveal_strlit("billing");
            assert("proxy"@.len() != "billing"@.len());
            reveal_strlit("registrar");
            assert("proxy"@.len() != "registrar"@.len());
            reveal_strlit("reseller");
            assert("proxy"@.len() != "reseller"@.len());
            reveal_strlit("sponsor");
            assert("proxy"@.len() != "sponsor"@.len());
        },
        RoleView::Notifications => {
            reveal_strlit("notifications");
            reveal_strlit("registrant");
            assert("notifications"@.len() != "registrant"@.len());
            reveal_strlit("technical");
            assert("notifications"@.len() != "technical"@.len());
            reveal_strlit("administrative");
            assert("notifications"@.len() != "administrative"@.len());
            reveal_strlit("abuse");
            assert("notifications"@.len() != "abuse"@.len());
            reveal_strlit("billing");
            assert("notifications"@.len() != "billing"@.len());
            reveal_strlit("registrar");
            assert("notifications"@.len() != "registrar"@.len());
            reveal_strlit("reseller");
            assert("notifications"@.len() != "reseller"@.len());
            reveal_strlit("sponsor");
            assert("notifications"@.len() != "sponsor"@.len());
            reveal_strlit("proxy");
            assert("notifications"@.len() != "proxy"@.len());
        },
        RoleView::Noc => {
            reveal_strlit("noc");
            reveal_strlit("registrant");
            assert("noc"@.len() != "registrant"@.len());
            reveal_strlit("technical");
            assert("noc"@.len() != "technical"@.len());
            reveal_strlit("administrative");
            assert("noc"@.len() != "administrative"@.len());
            reveal_strlit("abuse");
            assert("noc"@.len() != "abuse"@.len());
            reveal_strlit("billing");
            assert("noc"@.len() != "billing"@.len());
            reveal_strlit("registrar");
            assert("noc"@.len() != "registrar"@.len());
            reveal_strlit("reseller");
            assert("noc"@.len() != "reseller"@.len());
            reveal_strlit("sponsor");
            assert("noc"@.len() != "sponsor"@.len());
            reveal_strlit("proxy");
            assert("noc"@.len() != "proxy"@.len());
            reveal_strlit("notifications");
            assert("noc"@.len() != "notifications"@.len());
        },
        _ => {},
    }
}

// ── Executable readers ────────────────────────────────────────────────────────

/// The view of an optional value.
pub open spec fn opt_v<T: View>(o: Option<T>) -> Option<T::V> {
    match o {
        Some(x) => Some(x@),
        None => None,
    }
}

/// The views of the elements of a sequence.
pub open spec fn seq_v<T: View>(s: Seq<T>) -> Seq<T::V> {
    s.map_values(|t: T| t@)
}

/// The view of an optional list.
pub open spec fn opt_vec_v<T: View>(o: Option<Vec<T>>) -> Option<Seq<T::V>> {
    match o {
        Some(v) => Some(seq_v(v@)),
        None => None,
    }
}

/// The view of a field that reads as an optional string.
pub open spec fn opt_opt_view(o: Option<Option<String>>) -> Option<Option<Seq<char>>> {
    match o {
        Some(x) => Some(opt_view(x)),
        None => None,
    }
}

/// The view of a field that reads as optional raw JSON.
pub open spec fn opt_opt_json_view(o: Option<Option<JsonValue>>) -> Option<Option<JsonView>> {
    match o {
        Some(x) => Some(opt_json_view(x)),
        None => None,
    }
}

/// The raw JSON of a struct field.
pub fn field<'a>(v: &'a JsonValue, name: &str, idx: usize) -> (res: Option<&'a JsonValue>)
    ensures
        ref_view(res) == field_src(v@, name@, idx as int),
        res matches Some(r) ==> decreases_to!(*v => *r),
{
    match v {
        JsonValue::Object(fs) => {
            assert(v@ == JsonView::Object(crate::json::member_views(fs@)));
            v.get(name)
        },
        JsonValue::Array(a) => {
            assert(v@ == JsonView::Array(json_views(a@)));
            if idx < a.len() {
                proof {
                    assert(decreases_to!(*v => (*v)->Array_0));
                    assert(decreases_to!(*a => a[idx as int]));
                }
                Some(&a[idx])
            } else {
                None
            }
        },
        _ => None,
    }
}

/// Whether `v` can hold a struct of `n` fields.
pub fn shape_ok(v: &JsonValue, n: usize) -> (res: bool)
    ensures
        res == struct_shape(v@, n as nat),
{
    match v {
        JsonValue::Object(fs) => {
            assert(v@ == JsonView::Object(crate::json::member_views(fs@)));
            true
        },
        JsonValue::Array(a) => {
            assert(v@ == JsonView::Array(json_views(a@)));
            a.len() <= n
        },
        _ => false,
    }
}

/// Whether `v` is an array (a struct in positional form).
pub fn is_positional(v: &JsonValue) -> (res: bool)
    ensures
        res == (v@ is Array),
{
    match v {
        JsonValue::Array(_) => true,
        _ => false,
    }
}

/// Reads a required string field.
pub fn read_string(src: Option<&JsonValue>) -> (res: Option<String>)
    ensures
        opt_view(res) == de_string(ref_view(src)),
{
    match src {
        Some(JsonValue::String(s)) => Some(s.clone()),
        _ => None,
    }
}

/// Reads an optional string field.
pub fn read_opt_string(src: Option<&JsonValue>, positional: bool) -> (res: Option<Option<String>>)
    ensures
        opt_opt_view(res) == de_opt_string(ref_view(src), positional),
{
    match src {
        None => if positional {
            None
        } else {
            Some(None)
        },
        Some(JsonValue::Null) => Some(None),
        Some(JsonValue::String(s)) => Some(Some(s.clone())),
        _ => None,
    }
}

/// Reads an optional raw JSON field.
pub fn read_opt_json(src: Option<&JsonValue>, positional: bool) -> (res: Option<Option<JsonValue>>)
    ensures
        opt_opt_json_view(res) == de_opt_json(ref_view(src), positional),
{
    match src {
        None => if positional {
            None
        } else {
            Some(None)
        },
        Some(JsonValue::Null) => Some(None),
        Some(x) => Some(Some(x.deep_clone())),
    }
}

/// Reads a string element.
pub fn read_str_elem(v: &JsonValue) -> (res: Option<String>)
    ensures
        opt_v(res) == de_str_elem(v@),
{
    match v {
        JsonValue::String(s) => Some(s.clone()),
        _ => None,
    }
}

/// Reads every element of `a` with `f`, or `None` if one does not read.
pub fn read_all<T: View>(
    a: &Vec<JsonValue>,
    f: impl Fn(&JsonValue) -> Option<T>,
    Ghost(sf): Ghost<spec_fn(JsonView) -> Option<T::V>>,
) -> (res: Option<Vec<T>>)
    requires
        forall|x: &JsonValue| f.requires((x,)),
        forall|x: &JsonValue, r: Option<T>| f.ensures((x,), r) ==> opt_v(r) == sf(x@),
    ensures
        opt_vec_v(res) == de_all(json_views(a@), sf),
{
    let n = a.len();
    let mut out: Vec<T> = Vec::new();
    let mut i: usize = 0;
    while i < n
        invariant
            n == a@.len(),
            i <= n,
            forall|x: &JsonValue| f.requires((x,)),
            forall|x: &JsonValue, r: Option<T>| f.ensures((x,), r) ==> opt_v(r) == sf(x@),
            de_all(json_views(a@).subrange(0, i as int), sf) == Some(seq_v(out@)),
        decreases n - i,
    {
        proof {
            lemma_json_views(a@);
        }
        let ghost pre = json_views(a@).subrange(0, i + 1);
        assert(pre.drop_last() =~= json_views(a@).subrange(0, i as int));
        assert(pre.last() == a@[i as int]@);
        match f(&a[i]) {
            Some(x) => {
                let ghost prev = out@;
                out.push(x);
                assert(seq_v(out@) =~= seq_v(prev).push(x@));
            },
            None => {
                proof {
                    lemma_de_all_none(json_views(a@), sf, i as int);
                }
                return None;
            },
        }
        i = i + 1;
    }
    assert(json_views(a@).subrange(0, n as int) =~= json_views(a@));
    Some(out)
}

/// Reads the elements of `a` that `f` reads, in order.
pub fn read_filter<T: View>(
    a: &Vec<JsonValue>,
    f: impl Fn(&JsonValue) -> Option<T>,
    Ghost(sf): Ghost<spec_fn(JsonView) -> Option<T::V>>,
) -> (res: Vec<T>)
    requires
        forall|x: &JsonValue| f.requires((x,)),
        forall|x: &JsonValue, r: Option<T>| f.ensures((x,), r) ==> opt_v(r) == sf(x@),
    ensures
        seq_v(res@) == de_filter(json_views(a@), sf),
{
    let n = a.len();
    let mut out: Vec<T> = Vec::new();
    let mut i: usize = 0;
    while i < n
        invariant
            n == a@.len(),
            i <= n,
            forall|x: &JsonValue| f.requires((x,)),
            forall|x: &JsonValue, r: Option<T>| f.ensures((x,), r) ==> opt_v(r) == sf(x@),
            de_filter(json_views(a@).subrange(0, i as int), sf) == seq_v(out@),
        decreases n - i,
    {
        proof {
            lemma_json_views(a@);
        }
        let ghost pre = json_views(a@).subrange(0, i + 1);
        assert(pre.drop_last() =~= json_views(a@).subrange(0, i as int));
        assert(pre.last() == a@[i as int]@);
        match f(&a[i]) {
            Some(x) => {
                let ghost prev = out@;
                out.push(x);
                assert(seq_v(out@) =~= seq_v(prev).push(x@));
            },
            None => {},
        }
        i = i + 1;
    }
    assert(json_views(a@).subrange(0, n as int) =~= json_views(a@));
    out
}

/// Reads a list field with a default.
pub fn read_list<T: View>(
    src: Option<&JsonValue>,
    f: impl Fn(&JsonValue) -> Option<T>,
    Ghost(sf): Ghost<spec_fn(JsonView) -> Option<T::V>>,
) -> (res: Option<Vec<T>>)
    requires
        forall|x: &JsonValue| f.requires((x,)),
        forall|x: &JsonValue, r: Option<T>| f.ensures((x,), r) ==> opt_v(r) == sf(x@),
    ensures
        opt_vec_v(res) == de_list_field(ref_view(src), sf),
{
    match src {
        None => Some(Vec::new()),
        Some(JsonValue::Array(a)) => read_all(a, f, Ghost(sf)),
        _ => None,
    }
}

/// The status with wire name `s`.
pub fn status_from_name(s: &str) -> (res: Option<RdapStatus>)
    ensures
        opt_v(res) == status_named(s@),
{
    if str_eq(s, "validated") {
        Some(RdapStatus::Validated)
    } else if str_eq(s, "renew prohibited") {
        Some(RdapStatus::RenewProhibited)
    } else if str_eq(s, "update prohibited") {
        Some(RdapStatus::UpdateProhibited)
    } else if str_eq(s, "transfer prohibited") {
        Some(RdapStatus::TransferProhibited)
    } else if str_eq(s, "delete prohibited") {
        Some(RdapStatus::DeleteProhibited)
    } else if str_eq(s, "proxy") {
        Some(RdapStatus::Proxy)
    } else if str_eq(s, "private") {
        Some(RdapStatus::Private)
    } else if str_eq(s, "removed") {
        Some(RdapStatus::Removed)
    } else if str_eq(s, "obscured") {
        Some(RdapStatus::Obscured)
    } else if str_eq(s, "associated") {
        Some(RdapStatus::Associated)
    } else if str_eq(s, "active") {
        Some(RdapStatus::Active)
    } else if str_eq(s, "inactive") {
        Some(RdapStatus::Inactive)
    } else if str_eq(s, "locked") {
        Some(RdapStatus::Locked)
    } else if str_eq(s, "pending create") {
        Some(RdapStatus::PendingCreate)
    } else if str_eq(s, "pending renew") {
        Some(RdapStatus::PendingRenew)
    } else if str_eq(s, "pending transfer") {
        Some(RdapStatus::PendingTransfer)
    } else if str_eq(s, "pending update") {
        Some(RdapStatus::PendingUpdate)
    } else if str_eq(s, "pending delete") {
        Some(RdapStatus::PendingDelete)
    } else {
        None
    }
}

/// Reads a status.
pub fn read_status(v: &JsonValue) -> (res: Option<RdapStatus>)
    ensures
        opt_v(res) == de_status(v@),
{
    broadcast use crate::json::lemma_member_views;

    match v {
        JsonValue::String(s) => {
            assert(v@ == JsonView::Str(s@));
            match status_from_name(s.as_str()) {
                Some(x) => Some(x),
                None => Some(RdapStatus::Other(s.clone())),
            }
        },
        JsonValue::Object(fs) => {
            assert(v@ == JsonView::Object(crate::json::member_views(fs@)));
            proof {
                crate::json::lemma_member_views(fs@);
            }
            if fs.len() == 1 && fs[0].1.is_null() {
                assert(crate::json::member_views(fs@)[0].0 == fs@[0].0@);
                assert(crate::json::member_views(fs@)[0].1 == fs@[0].1@);
                status_from_name(fs[0].0.as_str())
            } else {
                assert(crate::json::member_views(fs@).len() == fs@.len());
                None
            }
        },
        _ => None,
    }
}

/// The role with wire name `s`.
pub fn role_from_name(s: &str) -> (res: Option<RdapRole>)
    ensures
        opt_v(res) == role_named(s@),
{
    if str_eq(s, "registrant") {
        Some(RdapRole::Registrant)
    } else if str_eq(s, "technical") {
        Some(RdapRole::Technical)
    } else if str_eq(s, "administrative") {
        Some(RdapRole::Administrative)
    } else if str_eq(s, "abuse") {
        Some(RdapRole::Abuse)
    } else if str_eq(s, "billing") {
        Some(RdapRole::Billing)
    } else if str_eq(s, "registrar") {
        Some(RdapRole::Registrar)
    } else if str_eq(s, "reseller") {
        Some(RdapRole::Reseller)
    } else if str_eq(s, "sponsor") {
        Some(RdapRole::Sponsor)
    } else if str_eq(s, "proxy") {
        Some(RdapRole::Proxy)
    } else if str_eq(s, "notifications") {
        Some(RdapRole::Notifications)
    } else if str_eq(s, "noc") {
        Some(RdapRole::Noc)
    } else {
        None
    }
}

/// Reads a role.
pub fn read_role(v: &JsonValue) -> (res: Option<RdapRole>)
    ensures
        opt_v(res) == de_role(v@),
{
    broadcast use crate::json::lemma_member_views;

    match v {
        JsonValue::String(s) => {
            assert(v@ == JsonView::Str(s@));
            match role_from_name(s.as_str()) {
                Some(x) => Some(x),
                None => Some(RdapRole::Other(s.clone())),
            }
        },
        JsonValue::Object(fs) => {
            assert(v@ == JsonView::Object(crate::json::member_views(fs@)));
            proof {
                crate::json::lemma_member_views(fs@);
            }
            if fs.len() == 1 && fs[0].1.is_null() {
                assert(crate::json::member_views(fs@)[0].0 == fs@[0].0@);
                assert(crate::json::member_views(fs@)[0].1 == fs@[0].1@);
                role_from_name(fs[0].0.as_str())
            } else {
                assert(crate::json::member_views(fs@).len() == fs@.len());
                None
            }
        },
        _ => None,
    }
}

/// Reads an event.
pub fn read_event(v: &JsonValue) -> (res: Option<RdapEvent>)
    ensures
        opt_v(res) == de_event(v@),
{
    if !shape_ok(v, 3) {
        return None;
    }
    let p = is_positional(v);
    let a = read_string(field(v, "eventAction", 0));
    let d = read_string(field(v, "eventDate", 1));
    let actor = read_opt_string(field(v, "eventActor", 2), p);
    match (a, d, actor) {
        (Some(a), Some(d), Some(actor)) => Some(
            RdapEvent { event_action: a, event_date: d, event_actor: actor },
        ),
        _ => None,
    }
}

/// Reads a link.
pub fn read_link(v: &JsonValue) -> (res: Option<RdapLink>)
    ensures
        opt_v(res) == de_link(v@),
{
    if !shape_ok(v, 4) {
        return None;
    }
    let p = is_positional(v);
    let h = read_string(field(v, "href", 0));
    let r = read_opt_string(field(v, "rel", 1), p);
    let t = read_opt_string(field(v, "type", 2), p);
    let ti = read_opt_string(field(v, "title", 3), p);
    match (h, r, t, ti) {
        (Some(h), Some(r), Some(t), Some(ti)) => Some(
            RdapLink { href: h, rel: r, media_type: t, title: ti },
        ),
        _ => None,
    }
}

/// Reads a remark.
pub fn read_remark(v: &JsonValue) -> (res: Option<RdapRemark>)
    ensures
        opt_v(res) == de_remark(v@),
{
    if !shape_ok(v, 4) {
        return None;
    }
    let p = is_positional(v);
    let t = read_opt_string(field(v, "title", 0), p);
    let ty = read_opt_string(field(v, "type", 1), p);
    let l = read_list(field(v, "links", 3), read_link, Ghost(link_reader()));
    let d = match field(v, "description", 2) {
        Some(JsonValue::Array(a)) => read_all(a, read_str_elem, Ghost(str_reader())),
        _ => None,
    };
    match (t, ty, d, l) {
        (Some(t), Some(ty), Some(d), Some(l)) => {
            let r = RdapRemark { title: t, remark_type: ty, description: d, links: l };
            assert(r@.description =~= seq_v(r.description@));
            assert(r@.links =~= seq_v(r.links@));
            Some(r)
        },
        _ => None,
    }
}

/// Reads an entity, nested entities included.
pub fn read_entity(v: &JsonValue) -> (res: Option<RdapEntity>)
    ensures
        match res {
            Some(e) => de_entity(v@) == Some(e@),
            None => de_entity(v@) is None,
        },
    decreases v,
{
    if !shape_ok(v, 7) {
        return None;
    }
    let p = is_positional(v);
    let ents: Option<Vec<RdapEntity>> = match field(v, "entities", 6) {
        None => Some(Vec::new()),
        Some(JsonValue::Array(a)) => read_entity_all(a),
        _ => None,
    };
    let h = read_opt_string(field(v, "handle", 0), p);
    let vc = read_opt_json(field(v, "vcardArray", 1), p);
    let ro = read_list(field(v, "roles", 2), read_role, Ghost(role_reader()));
    let ev = read_list(field(v, "events", 3), read_event, Ghost(event_reader()));
    let li = read_list(field(v, "links", 4), read_link, Ghost(link_reader()));
    let re = read_list(field(v, "remarks", 5), read_remark, Ghost(remark_reader()));
    match (h, vc, ro, ev, li, re, ents) {
        (Some(h), Some(vc), Some(ro), Some(ev), Some(li), Some(re), Some(en)) => {
            let e = RdapEntity {
                handle: h,
                vcard_array: vc,
                roles: ro,
                events: ev,
                links: li,
                remarks: re,
                entities: en,
            };
            assert(e@.roles =~= seq_v(e.roles@));
            assert(e@.events =~= seq_v(e.events@));
            assert(e@.links =~= seq_v(e.links@));
            assert(e@.remarks =~= seq_v(e.remarks@));
            Some(e)
        },
        _ => None,
    }
}

/// Reads every element of `a` as an entity, or `None` if one does not read.
pub fn read_entity_all(a: &Vec<JsonValue>) -> (res: Option<Vec<RdapEntity>>)
    ensures
        match res {
            Some(es) => de_entity_all(json_views(a@)) == Some(entity_views(es@)),
            None => de_entity_all(json_views(a@)) is None,
        },
    decreases a,
{
    let n = a.len();
    let mut out: Vec<RdapEntity> = Vec::new();
    let mut i: usize = 0;
    while i < n
        invariant
            n == a@.len(),
            i <= n,
            de_entity_all(json_views(a@).subrange(0, i as int)) == Some(entity_views(out@)),
        decreases n - i,
    {
        proof {
            lemma_json_views(a@);
        }
        let ghost pre = json_views(a@).subrange(0, i + 1);
        assert(pre.drop_last() =~= json_views(a@).subrange(0, i as int));
        assert(pre.last() == a@[i as int]@);
        proof {
            assert(decreases_to!(*a => a[i as int]));
        }
        match read_entity(&a[i]) {
            Some(x) => {
                let ghost prev = out@;
                out.push(x);
                assert(out@.drop_last() =~= prev);
            },
            None => {
                proof {
                    lemma_de_entity_all_none(json_views(a@), i as int);
                }
                return None;
            },
        }
        i = i + 1;
    }
    assert(json_views(a@).subrange(0, n as int) =~= json_views(a@));
    Some(out)
}

proof fn lemma_de_entity_all_none(a: Seq<JsonView>, i: int)
    requires
        0 <= i < a.len(),
        de_entity(a[i]) is None,
    ensures
        de_entity_all(a) is None,
    decreases a.len(),
{
    if i < a.len() - 1 {
        assert(a.drop_last()[i] == a[i]);
        lemma_de_entity_all_none(a.drop_last(), i);
    }
}

} // verus!
