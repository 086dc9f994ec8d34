//! Normalised RDAP domain response type.
//!
//! Follows RFC 9083 §5.3 (Domain Object Class).

use vstd::prelude::*;
use super::common::{
    opt_view, EventView, RdapEntity, RdapEvent, RdapLink, RdapRemark, RdapStatus, ResponseMeta,
    StatusView,
};
use crate::text::str_eq;

verus! {

/// Normalised RDAP response for a domain query.
#[derive(Debug)]
pub struct DomainResponse {
    /// The original query string.
    pub query: String,
    /// LDH (letters, digits, hyphens) form of the domain name.
    pub ldh_name: Option<String>,
    /// Unicode (internationalised) form of the domain name.
    pub unicode_name: Option<String>,
    /// Registry handle / ROID.
    pub handle: Option<String>,
    /// Current status flags.
    pub status: Vec<RdapStatus>,
    /// Delegated nameservers.
    pub nameservers: Vec<String>,
    /// Registrar summary (extracted from entities for convenience).
    pub registrar: Option<RegistrarSummary>,
    /// All associated entities (registrant, admin, tech, abuse, etc.).
    pub entities: Vec<RdapEntity>,
    /// Lifecycle events (registration, expiration, last changed, …).
    pub events: Vec<RdapEvent>,
    pub links: Vec<RdapLink>,
    pub remarks: Vec<RdapRemark>,
    /// Query metadata (source server, timestamp, cache status).
    pub meta: ResponseMeta,
}

/// The date of the first event whose action is `action`.
pub open spec fn first_event_date(events: Seq<EventView>, action: Seq<char>) -> Option<Seq<char>>
    decreases events.len(),
{
    if events.len() == 0 {
        None
    } else if events[0].event_action == action {
        Some(events[0].event_date)
    } else {
        first_event_date(events.drop_first(), action)
    }
}

/// The views of a sequence of events.
pub open spec fn events_view(s: Seq<RdapEvent>) -> Seq<EventView> {
    s.map_values(|e: RdapEvent| e@)
}

/// The view of an optional borrowed string.
pub open spec fn str_ref_view(o: Option<&str>) -> Option<Seq<char>> {
    match o {
        Some(s) => Some(s@),
        None => None,
    }
}

proof fn lemma_first_event_skip(events: Seq<EventView>, action: Seq<char>, i: int)
    requires
        0 <= i <= events.len(),
        forall|j: int| 0 <= j < i ==> (#[trigger] events[j]).event_action != action,
    ensures
        first_event_date(events, action) == first_event_date(
            events.subrange(i, events.len() as int),
            action,
        ),
    decreases i,
{
    if i > 0 {
        assert(events[0].event_action != action);
        assert forall|j: int| 0 <= j < i - 1 implies (
        #[trigger] events.drop_first()[j]).event_action != action by {
            assert(events.drop_first()[j] == events[j + 1]);
        }
        lemma_first_event_skip(events.drop_first(), action, i - 1);
        assert(events.drop_first().subrange(i - 1, events.len() - 1) =~= events.subrange(
            i,
            events.len() as int,
        ));
    } else {
        assert(events.subrange(0, events.len() as int) =~= events);
    }
}

/// The date of the first event of `events` whose action is `action`.
fn find_event_date<'a>(events: &'a Vec<RdapEvent>, action: &str) -> (res: Option<&'a str>)
    ensures
        str_ref_view(res) == first_event_date(events_view(events@), action@),
{
    let n = events.len();
    let mut i: usize = 0;
    while i < n
        invariant
            n == events@.len(),
            i <= n,
            forall|j: int|
                0 <= j < i ==> (#[trigger] events_view(events@)[j]).event_action != action@,
        decreases n - i,
    {
        if str_eq(events[i].event_action.as_str(), action) {
            proof {
                lemma_first_event_skip(events_view(events@), action@, i as int);
            }
            return Some(events[i].event_date.as_str());
        }
        i = i + 1;
    }
    proof {
        lemma_first_event_skip(events_view(events@), action@, n as int);
    }
    None
}

/// Some status is `Active`.
pub open spec fn has_active(status: Seq<RdapStatus>) -> bool {
    exists|i: int| 0 <= i < status.len() && (#[trigger] status[i])@ == StatusView::Active
}

impl DomainResponse {
    /// Returns the expiration date string from events, if present.
    pub fn expiration_date(&self) -> (res: Option<&str>)
        ensures
            str_ref_view(res) == first_event_date(events_view(self.events@), "expiration"@),
    {
        find_event_date(&self.events, "expiration")
    }

    /// Returns the registration date string from events, if present.
    pub fn registration_date(&self) -> (res: Option<&str>)
        ensures
            str_ref_view(res) == first_event_date(events_view(self.events@), "registration"@),
    {
        find_event_date(&self.events, "registration")
    }

    /// Returns `true` if the domain has an "active" status.
    pub fn is_active(&self) -> (res: bool)
        ensures
            res == has_active(self.status@),
    {
        let n = self.status.len();
        let mut i: usize = 0;
        while i < n
            invariant
                n == self.status@.len(),
                i <= n,
                forall|j: int| 0 <= j < i ==> (#[trigger] self.status@[j])@ != StatusView::Active,
            decreases n - i,
        {
            if matches!(self.status[i], RdapStatus::Active) {
                return true;
            }
            i = i + 1;
        }
        false
    }
}

/// Condensed registrar information extracted from the entities list.
#[derive(Debug, Clone)]
pub struct RegistrarSummary {
    pub name: Option<String>,
    pub handle: Option<String>,
    pub url: Option<String>,
    pub abuse_email: Option<String>,
    pub abuse_phone: Option<String>,
}

/// The mathematical value of a [`RegistrarSummary`].
pub struct RegistrarView {
    pub name: Option<Seq<char>>,
    pub handle: Option<Seq<char>>,
    pub url: Option<Seq<char>>,
    pub abuse_email: Option<Seq<char>>,
    pub abuse_phone: Option<Seq<char>>,
}

impl View for RegistrarSummary {
    type V = RegistrarView;

    open spec fn view(&self) -> RegistrarView {
        RegistrarView {
            name: opt_view(self.name),
            handle: opt_view(self.handle),
            url: opt_view(self.url),
            abuse_email: opt_view(self.abuse_email),
            abuse_phone: opt_view(self.abuse_phone),
        }
    }
}

} // verus!
