//! Decisions of the ops UI reads: the auth guards, and what becomes of the
//! Photon snapshot, registry and transport reads once they have been made.
//!
//! The reads themselves (`admin_snapshot`, `list_recent_events`,
//! `list_events_by_topic`, `get_event`) are made by the host; it hands their
//! results here as plain values.

use vstd::prelude::*;

use crate::mapping::{
    event_detail_from_transport, event_summary_from_transport, filter_subscriptions_by_topic,
    find_checkpoint_seq, sort_topics_by_name, subscription_summary_from_handler, topic_summary,
    count_since, CheckpointRow,
};
use crate::time::Timestamp;
use crate::types::{
    DashboardStats, EventDetail, EventSummary, PhotonIdError, SubscriptionSummary, TopicSummary,
};
use crate::validate::{
    clamp_event_list_limit, validate_event_id, validate_subscription_id, validate_topic_name,
};

verus! {

/// Operator-facing ops failure (maps to a server-function error at the UI boundary).
#[derive(Debug, Clone, PartialEq, Eq)]
pub enum OpsError {
    /// Missing authenticated session.
    AuthenticationRequired,
    /// Photon was not provided in request / lab context.
    PhotonNotInContext,
    /// Permission check failed (`PhotonAdmin`).
    PermissionDenied,
    /// Path/query id failed validation.
    InvalidId(PhotonIdError),
    /// Photon IO or snapshot failure.
    Photon(String),
}

impl OpsError {
    /// The operator-facing text of each error.
    pub open spec fn text(self) -> Seq<char> {
        match self {
            OpsError::AuthenticationRequired => "Authentication required"@,
            OpsError::PhotonNotInContext => "Photon not in request context"@,
            OpsError::PermissionDenied => "Permission denied"@,
            OpsError::InvalidId(e) => e.text(),
            OpsError::Photon(msg) => msg@,
        }
    }

    /// Operator-facing message for this error (its display text).
    pub fn message(&self) -> (m: String)
        ensures
            m@ == self.text(),
    {
        match self {
            OpsError::AuthenticationRequired => String::from_str("Authentication required"),
            OpsError::PhotonNotInContext => String::from_str("Photon not in request context"),
            OpsError::PermissionDenied => String::from_str("Permission denied"),
            OpsError::InvalidId(e) => e.message(),
            OpsError::Photon(msg) => msg.clone(),
        }
    }
}

impl From<PhotonIdError> for OpsError {
    fn from(value: PhotonIdError) -> (r: Self) {
        OpsError::InvalidId(value)
    }
}

impl vstd::std_specs::convert::FromSpecImpl<PhotonIdError> for OpsError {
    open spec fn obeys_from_spec() -> bool {
        true
    }

    open spec fn from_spec(v: PhotonIdError) -> Self {
        OpsError::InvalidId(v)
    }
}

/// Reject anonymous callers (session user id absent).
pub fn require_session_user(user_id: Option<&str>) -> (r: Result<(), OpsError>)
    ensures
        r == if user_id is Some {
            Ok::<(), OpsError>(())
        } else {
            Err(OpsError::AuthenticationRequired)
        },
{
    if user_id.is_some() {
        Ok(())
    } else {
        Err(OpsError::AuthenticationRequired)
    }
}

/// Reject callers without `PhotonAdmin` (lab / integ seam; the server layer also gates).
pub fn require_photon_admin(has_admin: bool) -> (r: Result<(), OpsError>)
    ensures
        r == if has_admin {
            Ok::<(), OpsError>(())
        } else {
            Err(OpsError::PermissionDenied)
        },
{
    if has_admin {
        Ok(())
    } else {
        Err(OpsError::PermissionDenied)
    }
}

/// Require a Photon handle (mirrors the request-context lookup).
pub fn require_photon<P>(photon: Option<P>) -> (r: Result<P, OpsError>)
    ensures
        r == match photon {
            Some(p) => Ok::<P, OpsError>(p),
            None => Err(OpsError::PhotonNotInContext),
        },
{
    match photon {
        Some(p) => Ok(p),
        None => Err(OpsError::PhotonNotInContext),
    }
}

/// The Photon reads the ops UI makes, named in failure messages.
#[derive(Debug, Clone, Copy, PartialEq, Eq, Structural)]
pub enum PhotonRead {
    /// `admin_snapshot`
    AdminSnapshot,
    /// `list_recent_events`
    RecentEvents,
    /// `list_events_by_topic`
    TopicEvents,
    /// `get_event`
    TransportEvent,
}

impl PhotonRead {
    /// What the failure message says before Photon's own error text.
    pub open spec fn failure_prefix(self) -> Seq<char> {
        match self {
            PhotonRead::AdminSnapshot => "Failed to load admin snapshot: "@,
            PhotonRead::RecentEvents => "Failed to list recent events: "@,
            PhotonRead::TopicEvents => "Failed to list events: "@,
            PhotonRead::TransportEvent => "Failed to get transport event: "@,
        }
    }
}

/// The error reported when a Photon read fails with `detail`.
pub fn photon_failure(read: PhotonRead, detail: &str) -> (e: OpsError)
    ensures
        e matches OpsError::Photon(m) && m@ == read.failure_prefix() + detail@,
{
    let mut m = match read {
        PhotonRead::AdminSnapshot => String::from_str("Failed to load admin snapshot: "),
        PhotonRead::RecentEvents => String::from_str("Failed to list recent events: "),
        PhotonRead::TopicEvents => String::from_str("Failed to list events: "),
        PhotonRead::TransportEvent => String::from_str("Failed to get transport event: "),
    };
    m.append(detail);
    OpsError::Photon(m)
}

/// One handler listed by Photon's `admin_snapshot`.
pub struct SnapshotHandler {
    /// Registry key (`topic:handler`), the subscription id.
    pub registry_key: String,
    /// Durable subscription name, if any.
    pub subscription_name: Option<String>,
    /// Consumer group, if any.
    pub consumer_group: Option<String>,
    /// Topic the handler consumes.
    pub topic_name: String,
    /// Dispatch mode as a display string.
    pub mode: String,
}

/// Photon's `admin_snapshot`: handler inventory plus checkpoint rows.
pub struct AdminSnapshot {
    /// Registered handlers, in snapshot order.
    pub handlers: Vec<SnapshotHandler>,
    /// Checkpoint rows: subscription name, topic name, topic key, last sequence.
    pub checkpoints: Vec<CheckpointRow>,
}

/// The name a handler is shown under: its subscription name, else its
/// consumer group, else its registry key.
pub open spec fn handler_display_name(h: SnapshotHandler) -> Seq<char> {
    match h.subscription_name {
        Some(n) => n@,
        None => match h.consumer_group {
            Some(g) => g@,
            None => h.registry_key@,
        },
    }
}

/// `s` is the subscription summary of handler `h` given checkpoint rows `cps`.
pub open spec fn summarizes_handler(
    s: SubscriptionSummary,
    h: SnapshotHandler,
    cps: Seq<CheckpointRow>,
) -> bool {
    &&& s.subscription_id@ == h.registry_key@
    &&& s.subscription_name@ == handler_display_name(h)
    &&& s.topic_name@ == h.topic_name@
    &&& s.enabled
    &&& s.mode@ == h.mode@
    &&& s.topic_key_filter is None
    &&& s.checkpoint_lag == 0
    &&& s.last_seq == crate::mapping::checkpoint_seq(
        cps,
        crate::mapping::opt_text(h.subscription_name),
        h.topic_name@,
    )
    &&& s.last_processed_at is None
}

fn clone_opt_string(o: &Option<String>) -> (r: Option<String>)
    ensures
        r == *o,
{
    match o {
        Some(s) => Some(s.clone()),
        None => None,
    }
}

/// Handler inventory + checkpoints from an `admin_snapshot`: one summary per
/// handler, in snapshot order.
pub fn list_subscriptions(snapshot: &AdminSnapshot) -> (r: Vec<SubscriptionSummary>)
    ensures
        r@.len() == snapshot.handlers@.len(),
        forall|i: int|
            0 <= i < r@.len() ==> summarizes_handler(
                #[trigger] r@[i],
                snapshot.handlers@[i],
                snapshot.checkpoints@,
            ),
{
    let mut list: Vec<SubscriptionSummary> = Vec::new();
    let mut i: usize = 0;
    while i < snapshot.handlers.len()
        invariant
            i <= snapshot.handlers@.len(),
            list@.len() == i,
            forall|k: int|
                0 <= k < i ==> summarizes_handler(
                    #[trigger] list@[k],
                    snapshot.handlers@[k],
                    snapshot.checkpoints@,
                ),
        decreases snapshot.handlers@.len() - i,
    {
        let h = &snapshot.handlers[i];
        let sub_name: Option<&str> = match &h.subscription_name {
            Some(n) => Some(n.as_str()),
            None => None,
        };
        let last_seq = find_checkpoint_seq(
            snapshot.checkpoints.as_slice(),
            sub_name,
            h.topic_name.as_str(),
        );
        let display = match &h.subscription_name {
            Some(n) => Some(n.clone()),
            None => clone_opt_string(&h.consumer_group),
        };
        let s = subscription_summary_from_handler(
            h.registry_key.as_str(),
            display,
            h.topic_name.as_str(),
            h.mode.as_str(),
            last_seq,
        );
        list.push(s);
        i = i + 1;
    }
    list
}

/// Dashboard KPIs from registry size, subscription count, and the instants of
/// the recent events: events at or after `day_ago` count toward the 24h total.
/// The two sizes are narrowed to `u32` as `as` narrows them.
pub fn load_dashboard_stats(
    registry_topic_count: usize,
    subscription_count: usize,
    recent_event_times: &[Timestamp],
    day_ago: Timestamp,
) -> (r: DashboardStats)
    ensures
        r.topic_count == registry_topic_count as u32,
        r.subscription_count == subscription_count as u32,
        r.event_count_24h == crate::mapping::stamps_since(recent_event_times@, day_ago).len(),
{
    #[verifier::truncate]
    let topics = registry_topic_count as u32;
    #[verifier::truncate]
    let subs = subscription_count as u32;
    let events = count_since(recent_event_times, day_ago);
    crate::mapping::dashboard_stats(topics, subs, events)
}

/// A topic of Photon's registry.
pub struct TopicDescriptor {
    /// Topic name.
    pub topic_name: String,
    /// Optional key field the topic is keyed by.
    pub keyed_by: Option<String>,
    /// JSON-encoded schema description.
    pub schema_json: String,
}

/// `t` is the summary of registry topic `d`, given the instants of its recent
/// events, all subscriptions, and the start of the 24h window.
pub open spec fn summarizes_topic(
    t: TopicSummary,
    d: TopicDescriptor,
    event_times: Seq<Timestamp>,
    subs: Seq<SubscriptionSummary>,
    day_ago: Timestamp,
) -> bool {
    &&& t.topic_name@ == d.topic_name@
    &&& t.keyed_by == d.keyed_by
    &&& t.schema_json@ == d.schema_json@
    &&& t.event_count_24h == crate::mapping::stamps_since(event_times, day_ago).len()
    &&& t.subscription_count == crate::mapping::subscriptions_of_topic(subs, d.topic_name@).len() as u32
}

/// `u` holds, entry by entry, the summaries of the registry topics.
pub open spec fn summarizes_registry(
    u: Seq<TopicSummary>,
    registry: Seq<(TopicDescriptor, Vec<Timestamp>)>,
    subs: Seq<SubscriptionSummary>,
    day_ago: Timestamp,
) -> bool {
    &&& u.len() == registry.len()
    &&& forall|i: int|
        0 <= i < u.len() ==> summarizes_topic(#[trigger] u[i], registry[i].0, registry[i].1@, subs, day_ago)
}

/// All registry topics with per-topic subscription and 24h event counts,
/// sorted by name (topics of equal name keep their registry order). Each
/// registry entry comes with the instants of its topic's recent events.
pub fn load_topics(
    registry: Vec<(TopicDescriptor, Vec<Timestamp>)>,
    subs: &[SubscriptionSummary],
    day_ago: Timestamp,
) -> (r: Vec<TopicSummary>)
    ensures
        r@.len() == registry@.len(),
        exists|u: Seq<TopicSummary>, perm: Seq<int>|
            #![trigger summarizes_registry(u, registry@, subs@, day_ago), crate::mapping::stable_rearrangement(r@, u, perm)]
            summarizes_registry(u, registry@, subs@, day_ago)
                && crate::mapping::stable_rearrangement(r@, u, perm),
        crate::mapping::sorted_by_name(r@),
{
    let ghost entries = registry@;
    let mut topics: Vec<TopicSummary> = Vec::new();
    for entry in it: registry
        invariant
            it.seq() == entries,
            topics@.len() == it.index(),
            forall|i: int|
                0 <= i < topics@.len() ==> summarizes_topic(
                    #[trigger] topics@[i],
                    entries[i].0,
                    entries[i].1@,
                    subs@,
                    day_ago,
                ),
    {
        let (desc, times) = entry;
        let count = filter_subscriptions_by_topic(subs, desc.topic_name.as_str()).len();
        #[verifier::truncate]
        let subscription_count = count as u32;
        let event_count_24h = count_since(times.as_slice(), day_ago);
        let t = topic_summary(
            desc.topic_name.as_str(),
            desc.keyed_by,
            desc.schema_json.as_str(),
            event_count_24h,
            subscription_count,
        );
        topics.push(t);
    }
    let ghost unsorted = topics@;
    assert(summarizes_registry(unsorted, entries, subs@, day_ago));
    sort_topics_by_name(topics.as_mut_slice());
    proof {
        let perm = choose|perm: Seq<int>| crate::mapping::stable_rearrangement(topics@, unsorted, perm);
        assert(crate::mapping::stable_rearrangement(topics@, unsorted, perm));
    }
    topics
}

/// Which Photon listing serves an event-list request.
#[derive(Debug, Clone, PartialEq, Eq)]
pub enum EventQuery {
    /// `list_recent_events(limit)`: recent events across all topics.
    Recent {
        /// Capped list size.
        limit: usize,
    },
    /// `list_events_by_topic(topic_name, limit)`: events of one topic.
    ByTopic {
        /// Validated topic name, as given.
        topic_name: String,
        /// Capped list size.
        limit: usize,
    },
}

/// Events across all topics or filtered by topic name: the capped limit, and
/// the listing to use. A topic filter must pass [`validate_topic_name`].
pub fn load_events(topic_name: Option<&str>, limit: u32) -> (r: Result<EventQuery, OpsError>)
    ensures
        match topic_name {
            None => r matches Ok(EventQuery::Recent { limit: l }) && l as int
                == crate::validate::spec_capped(limit),
            Some(t) => match crate::validate::ops_id_rejection(t@) {
                Some(k) => r == Err::<EventQuery, OpsError>(
                    OpsError::InvalidId(crate::validate::topic_name_error(k)),
                ),
                None => r matches Ok(EventQuery::ByTopic { topic_name: n, limit: l }) && n@
                    == t@ && l as int == crate::validate::spec_capped(limit),
            },
        },
{
    let limit = clamp_event_list_limit(limit);
    match topic_name {
        Some(topic) => {
            match validate_topic_name(topic) {
                Ok(()) => Ok(EventQuery::ByTopic { topic_name: String::from_str(topic), limit }),
                Err(e) => Err(OpsError::InvalidId(e)),
            }
        },
        None => Ok(EventQuery::Recent { limit }),
    }
}

/// The topic name a single-topic read is made with: the name as given once it
/// passes [`validate_topic_name`], else the `InvalidId` error, before any read.
pub fn topic_lookup(topic_name: &str) -> (r: Result<String, OpsError>)
    ensures
        match crate::validate::ops_id_rejection(topic_name@) {
            Some(k) => r == Err::<String, OpsError>(
                OpsError::InvalidId(crate::validate::topic_name_error(k)),
            ),
            None => r matches Ok(n) && n@ == topic_name@,
        },
{
    match validate_topic_name(topic_name) {
        Ok(()) => Ok(String::from_str(topic_name)),
        Err(e) => Err(OpsError::InvalidId(e)),
    }
}

/// The subscription id a single-subscription read is made with: the id as
/// given once it passes [`validate_subscription_id`], else the `InvalidId`
/// error, before any read.
pub fn subscription_lookup(id: &str) -> (r: Result<String, OpsError>)
    ensures
        match crate::validate::ops_id_rejection(id@) {
            Some(k) => r == Err::<String, OpsError>(
                OpsError::InvalidId(crate::validate::subscription_id_error(k)),
            ),
            None => r matches Ok(n) && n@ == id@,
        },
{
    match validate_subscription_id(id) {
        Ok(()) => Ok(String::from_str(id)),
        Err(e) => Err(OpsError::InvalidId(e)),
    }
}

/// The event id a `get_event` read is made with: the id as given once it
/// passes [`validate_event_id`], else the `InvalidId` error, before any read.
pub fn event_lookup(id: &str) -> (r: Result<String, OpsError>)
    ensures
        match crate::validate::ops_id_rejection(id@) {
            Some(k) => r == Err::<String, OpsError>(
                OpsError::InvalidId(crate::validate::event_id_error(k)),
            ),
            None => r matches Ok(n) && n@ == id@,
        },
{
    match validate_event_id(id) {
        Ok(()) => Ok(String::from_str(id)),
        Err(e) => Err(OpsError::InvalidId(e)),
    }
}

/// An event read from Photon's transport log.
pub struct TransportEvent {
    /// Unique event identifier.
    pub event_id: String,
    /// Topic the event was published to.
    pub topic_name: String,
    /// Optional key the event was published under.
    pub topic_key: Option<String>,
    /// Sequence number within the topic.
    pub seq: i64,
    /// When the event was created.
    pub created_at: Timestamp,
    /// Event payload JSON.
    pub payload_json: serde_json::Value,
    /// Actor JSON captured at publish time.
    pub actor_json: serde_json::Value,
}

/// `s` is the list row of transport event `ev`.
pub open spec fn summarizes_event(s: EventSummary, ev: TransportEvent) -> bool {
    &&& s.event_id@ == ev.event_id@
    &&& s.topic_name@ == ev.topic_name@
    &&& s.topic_key == ev.topic_key
    &&& s.seq == ev.seq
    &&& s.created_at@ == ev.created_at.rfc3339()
    &&& s.payload_preview@ == crate::mapping::delivery_preview(crate::mapping::stored_status())
}

fn map_transport_event(ev: &TransportEvent) -> (s: EventSummary)
    ensures
        summarizes_event(s, *ev),
{
    let created_at = ev.created_at.to_rfc3339();
    event_summary_from_transport(
        ev.event_id.as_str(),
        ev.topic_name.as_str(),
        clone_opt_string(&ev.topic_key),
        ev.seq,
        created_at.as_str(),
    )
}

/// List rows for transport events (recent events and event listings), in order.
pub fn load_recent_events(events: &[TransportEvent]) -> (r: Vec<EventSummary>)
    ensures
        r@.len() == events@.len(),
        forall|i: int| 0 <= i < r@.len() ==> summarizes_event(#[trigger] r@[i], events@[i]),
{
    let mut rows: Vec<EventSummary> = Vec::new();
    let mut i: usize = 0;
    while i < events.len()
        invariant
            i <= events@.len(),
            rows@.len() == i,
            forall|k: int| 0 <= k < i ==> summarizes_event(#[trigger] rows@[k], events@[k]),
        decreases events@.len() - i,
    {
        rows.push(map_transport_event(&events[i]));
        i = i + 1;
    }
    rows
}

/// Single event detail from the transport record found for an id (if any).
pub fn load_event(transport: Option<TransportEvent>) -> (r: Option<EventDetail>)
    ensures
        match transport {
            None => r is None,
            Some(t) => r matches Some(d) && {
                &&& d.event_id@ == t.event_id@
                &&& d.topic_name@ == t.topic_name@
                &&& d.topic_key == t.topic_key
                &&& d.seq == t.seq
                &&& d.created_at@ == t.created_at.rfc3339()
                &&& d.delivery_status@ == crate::mapping::stored_status()
                &&& d.payload_json == t.payload_json
                &&& d.actor_json == t.actor_json
                &&& !d.transport_expired
            },
        },
{
    match transport {
        None => None,
        Some(t) => {
            let created_at = t.created_at.to_rfc3339();
            Some(
                event_detail_from_transport(
                    t.event_id.as_str(),
                    t.topic_name.as_str(),
                    t.topic_key,
                    t.seq,
                    created_at.as_str(),
                    t.payload_json,
                    t.actor_json,
                ),
            )
        },
    }
}

} // verus!
