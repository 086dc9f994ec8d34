//! Shared RDAP data types used across all response objects.
//!
//! Follows RFC 9083 §4 (Common Data Structures). Each type has a view, the
//! mathematical value that contracts speak of.

use vstd::prelude::*;
use crate::json::{JsonValue, JsonView};

verus! {

/// The characters of an optional string.
pub open spec fn opt_view(o: Option<String>) -> Option<Seq<char>> {
    match o {
        Some(s) => Some(s@),
        None => None,
    }
}

/// The characters of each string in a sequence.
pub open spec fn strs_view(s: Seq<String>) -> Seq<Seq<char>> {
    s.map_values(|x: String| x@)
}

// ── Status values (RFC 9083 §10.2.2) ─────────────────────────────────────────

/// Registration status values defined in RFC 9083 §10.2.2.
#[derive(Debug, Clone)]
pub enum RdapStatus {
    Validated,
    RenewProhibited,
    UpdateProhibited,
    TransferProhibited,
    DeleteProhibited,
    Proxy,
    Private,
    Removed,
    Obscured,
    Associated,
    Active,
    Inactive,
    Locked,
    PendingCreate,
    PendingRenew,
    PendingTransfer,
    PendingUpdate,
    PendingDelete,
    /// Unknown/extension status value — preserved as-is.
    Other(String),
}

/// The mathematical value of an [`RdapStatus`].
pub enum StatusView {
    Validated,
    RenewProhibited,
    UpdateProhibited,
    TransferProhibited,
    DeleteProhibited,
    Proxy,
    Private,
    Removed,
    Obscured,
    Associated,
    Active,
    Inactive,
    Locked,
    PendingCreate,
    PendingRenew,
    PendingTransfer,
    PendingUpdate,
    PendingDelete,
    Other(Seq<char>),
}

impl View for RdapStatus {
    type V = StatusView;

    open spec fn view(&self) -> StatusView {
        match self {
            RdapStatus::Validated => StatusView::Validated,
            RdapStatus::RenewProhibited => StatusView::RenewProhibited,
            RdapStatus::UpdateProhibited => StatusView::UpdateProhibited,
            RdapStatus::TransferProhibited => StatusView::TransferProhibited,
            RdapStatus::DeleteProhibited => StatusView::DeleteProhibited,
            RdapStatus::Proxy => StatusView::Proxy,
            RdapStatus::Private => StatusView::Private,
            RdapStatus::Removed => StatusView::Removed,
            RdapStatus::Obscured => StatusView::Obscured,
            RdapStatus::Associated => StatusView::Associated,
            RdapStatus::Active => StatusView::Active,
            RdapStatus::Inactive => StatusView::Inactive,
            RdapStatus::Locked => StatusView::Locked,
            RdapStatus::PendingCreate => StatusView::PendingCreate,
            RdapStatus::PendingRenew => StatusView::PendingRenew,
            RdapStatus::PendingTransfer => StatusView::PendingTransfer,
            RdapStatus::PendingUpdate => StatusView::PendingUpdate,
            RdapStatus::PendingDelete => StatusView::PendingDelete,
            RdapStatus::Other(s) => StatusView::Other(s@),
        }
    }
}

// ── Role types (RFC 9083 §10.2.4) ────────────────────────────────────────────

/// Entity role values defined in RFC 9083 §10.2.4.
#[derive(Debug, Clone)]
pub enum RdapRole {
    Registrant,
    Technical,
    Administrative,
    Abuse,
    Billing,
    Registrar,
    Reseller,
    Sponsor,
    Proxy,
    Notifications,
    Noc,
    /// Unknown/extension role — preserved as-is.
    Other(String),
}

/// The mathematical value of an [`RdapRole`].
pub enum RoleView {
    Registrant,
    Technical,
    Administrative,
    Abuse,
    Billing,
    Registrar,
    Reseller,
    Sponsor,
    Proxy,
    Notifications,
    Noc,
    Other(Seq<char>),
}

impl View for RdapRole {
    type V = RoleView;

    open spec fn view(&self) -> RoleView {
        match self {
            RdapRole::Registrant => RoleView::Registrant,
            RdapRole::Technical => RoleView::Technical,
            RdapRole::Administrative => RoleView::Administrative,
            RdapRole::Abuse => RoleView::Abuse,
            RdapRole::Billing => RoleView::Billing,
            RdapRole::Registrar => RoleView::Registrar,
            RdapRole::Reseller => RoleView::Reseller,
            RdapRole::Sponsor => RoleView::Sponsor,
            RdapRole::Proxy => RoleView::Proxy,
            RdapRole::Notifications => RoleView::Notifications,
            RdapRole::Noc => RoleView::Noc,
            RdapRole::Other(s) => RoleView::Other(s@),
        }
    }
}

// ── Event (RFC 9083 §4.5) ─────────────────────────────────────────────────────

/// A lifecycle event associated with a registration object.
#[derive(Debug, Clone)]
pub struct RdapEvent {
    /// Type of event (e.g. "registration", "expiration").
    pub event_action: String,
    /// RFC 3339 timestamp.
    pub event_date: String,
    pub event_actor: Option<String>,
}

/// The mathematical value of an [`RdapEvent`].
pub struct EventView {
    pub event_action: Seq<char>,
    pub event_date: Seq<char>,
    pub event_actor: Option<Seq<char>>,
}

impl View for RdapEvent {
    type V = EventView;

    open spec fn view(&self) -> EventView {
        EventView {
            event_action: self.event_action@,
            event_date: self.event_date@,
            event_actor: opt_view(self.event_actor),
        }
    }
}

// ── Link (RFC 9083 §4.2) ──────────────────────────────────────────────────────

/// A hyperlink associated with a registration object.
#[derive(Debug, Clone)]
pub struct RdapLink {
    pub href: String,
    pub rel: Option<String>,
    /// The `type` member.
    pub media_type: Option<String>,
    pub title: Option<String>,
}

/// The mathematical value of an [`RdapLink`].
pub struct LinkView {
    pub href: Seq<char>,
    pub rel: Option<Seq<char>>,
    pub media_type: Option<Seq<char>>,
    pub title: Option<Seq<char>>,
}

impl View for RdapLink {
    type V = LinkView;

    open spec fn view(&self) -> LinkView {
        LinkView {
            href: self.href@,
            rel: opt_view(self.rel),
            media_type: opt_view(self.media_type),
            title: opt_view(self.title),
        }
    }
}

/// The views of a sequence of links.
pub open spec fn links_view(s: Seq<RdapLink>) -> Seq<LinkView> {
    s.map_values(|l: RdapLink| l@)
}

// ── Remark (RFC 9083 §4.3) ────────────────────────────────────────────────────

/// A remark (annotation) on a registration object.
#[derive(Debug, Clone)]
pub struct RdapRemark {
    pub title: Option<String>,
    /// The `type` member.
    pub remark_type: Option<String>,
    pub description: Vec<String>,
    pub links: Vec<RdapLink>,
}

/// The mathematical value of an [`RdapRemark`].
pub struct RemarkView {
    pub title: Option<Seq<char>>,
    pub remark_type: Option<Seq<char>>,
    pub description: Seq<Seq<char>>,
    pub links: Seq<LinkView>,
}

impl View for RdapRemark {
    type V = RemarkView;

    open spec fn view(&self) -> RemarkView {
        RemarkView {
            title: opt_view(self.title),
            remark_type: opt_view(self.remark_type),
            description: strs_view(self.description@),
            links: links_view(self.links@),
        }
    }
}

// ── Entity (RFC 9083 §5.1) ────────────────────────────────────────────────────

/// A contact / registrant / registrar embedded in a response.
#[derive(Debug)]
pub struct RdapEntity {
    pub handle: Option<String>,
    /// vCard data (RFC 7095) — kept as raw JSON to avoid strict parsing.
    pub vcard_array: Option<JsonValue>,
    pub roles: Vec<RdapRole>,
    pub events: Vec<RdapEvent>,
    pub links: Vec<RdapLink>,
    pub remarks: Vec<RdapRemark>,
    /// Nested entities (e.g., technical contacts of a registrar).
    pub entities: Vec<RdapEntity>,
}

/// The mathematical value of an [`RdapEntity`].
pub struct EntityView {
    pub handle: Option<Seq<char>>,
    pub vcard_array: Option<JsonView>,
    pub roles: Seq<RoleView>,
    pub events: Seq<EventView>,
    pub links: Seq<LinkView>,
    pub remarks: Seq<RemarkView>,
    pub entities: Seq<EntityView>,
}

/// The view of an optional JSON value.
pub open spec fn opt_json_view(o: Option<JsonValue>) -> Option<JsonView> {
    match o {
        Some(v) => Some(v@),
        None => None,
    }
}

/// The view of an entity.
pub open spec fn entity_view(e: RdapEntity) -> EntityView
    decreases e,
{
    EntityView {
        handle: opt_view(e.handle),
        vcard_array: opt_json_view(e.vcard_array),
        roles: e.roles@.map_values(|r: RdapRole| r@),
        events: e.events@.map_values(|x: RdapEvent| x@),
        links: links_view(e.links@),
        remarks: e.remarks@.map_values(|x: RdapRemark| x@),
        entities: entity_views(e.entities@),
    }
}

/// The views of a sequence of entities, element by element.
pub open spec fn entity_views(s: Seq<RdapEntity>) -> Seq<EntityView>
    decreases s,
{
    if s.len() == 0 {
        Seq::empty()
    } else {
        entity_views(s.drop_last()).push(entity_view(s.last()))
    }
}

impl View for RdapEntity {
    type V = EntityView;

    open spec fn view(&self) -> EntityView {
        entity_view(*self)
    }
}

pub broadcast proof fn lemma_entity_views(s: Seq<RdapEntity>)
    ensures
        #[trigger] entity_views(s).len() == s.len(),
        forall|i: int| 0 <= i < s.len() ==> entity_views(s)[i] == entity_view(#[trigger] s[i]),
    decreases s.len(),
{
    if s.len() > 0 {
        lemma_entity_views(s.drop_last());
        assert forall|i: int| 0 <= i < s.len() implies entity_views(s)[i] == entity_view(
            #[trigger] s[i],
        ) by {
            if i < s.len() - 1 {
                assert(s.drop_last()[i] == s[i]);
            }
        }
    }
}

// ── Response metadata ─────────────────────────────────────────────────────────

/// Metadata attached to every normalised response.
#[derive(Debug, Clone)]
pub struct ResponseMeta {
    /// The RDAP server base URL that served this response.
    pub source: String,
    /// RFC 3339 timestamp of when the query was made.
    pub queried_at: String,
    /// Whether the response was served from the local cache.
    pub cached: bool,
}

} // verus!
