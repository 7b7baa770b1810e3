//! DTO shapes and typed id errors for Photon ops contracts.

use vstd::prelude::*;

verus! {

/// The JSON value type that event payloads and actors are carried in.
#[verifier::external_type_specification]
#[verifier::external_body]
pub struct ExJsonValue(serde_json::Value);

/// `Clone` of a JSON value (`serde_json::Value` derives `Clone`): claims that
/// the copy is the same value.
pub assume_specification[ <serde_json::Value as Clone>::clone ](v: &serde_json::Value) -> (c: serde_json::Value)
    ensures
        c == *v,
;

/// Summary of a Photon topic for list/detail views: registry metadata plus
/// recent traffic counts.
#[derive(Debug, Clone, PartialEq, Eq)]
pub struct TopicSummary {
    /// Topic name as registered with Photon.
    pub topic_name: String,
    /// Optional key field the topic is partitioned/keyed by.
    pub keyed_by: Option<String>,
    /// JSON-encoded schema description for the topic's payload.
    pub schema_json: String,
    /// Number of events published to this topic in the last 24 hours.
    pub event_count_24h: u64,
    /// Number of subscriptions currently registered against this topic.
    pub subscription_count: u32,
}

/// Summary of a Photon subscription for list/detail views: configuration
/// plus read-state visibility.
#[derive(Debug, Clone, PartialEq, Eq)]
pub struct SubscriptionSummary {
    /// Unique subscription identifier.
    pub subscription_id: String,
    /// Human-readable subscription name.
    pub subscription_name: String,
    /// Name of the topic this subscription is attached to.
    pub topic_name: String,
    /// Whether the subscription is currently enabled.
    pub enabled: bool,
    /// Dispatch mode (e.g. at-least-once, durable) as a display string.
    pub mode: String,
    /// Optional topic key filter restricting which keys this subscription receives.
    pub topic_key_filter: Option<String>,
    /// Number of events the subscription's checkpoint is behind the topic head.
    pub checkpoint_lag: i64,
    /// Sequence number of the last event this subscription has processed, if any.
    pub last_seq: Option<i64>,
    /// Timestamp of the last successfully processed event, if any.
    pub last_processed_at: Option<String>,
}

/// Summary of a single Photon event for list views and dashboards.
#[derive(Debug, Clone, PartialEq, Eq)]
pub struct EventSummary {
    /// Unique event identifier.
    pub event_id: String,
    /// Name of the topic the event was published to.
    pub topic_name: String,
    /// Optional key the event was published under.
    pub topic_key: Option<String>,
    /// Sequence number of the event within its topic.
    pub seq: i64,
    /// RFC3339 timestamp of when the event was created.
    pub created_at: String,
    /// Short, human-readable preview of the event's delivery status/payload.
    pub payload_preview: String,
}

/// Aggregate counters shown on the Photon dashboard.
#[derive(Debug, Clone, Copy, PartialEq, Eq)]
pub struct DashboardStats {
    /// Total number of registered topics.
    pub topic_count: u32,
    /// Total number of registered subscriptions.
    pub subscription_count: u32,
    /// Number of events published across all topics in the last 24 hours.
    pub event_count_24h: u64,
}

/// Full detail record for a single event, including payload and actor context.
#[derive(Debug, Clone, PartialEq, Eq)]
pub struct EventDetail {
    /// Unique event identifier.
    pub event_id: String,
    /// Name of the topic the event was published to.
    pub topic_name: String,
    /// Optional key the event was published under.
    pub topic_key: Option<String>,
    /// Sequence number of the event within its topic.
    pub seq: i64,
    /// RFC3339 timestamp of when the event was created.
    pub created_at: String,
    /// Delivery status recorded for the event (e.g. delivered, dead-lettered).
    pub delivery_status: String,
    /// Raw event payload JSON, if the transport record is still available.
    pub payload_json: serde_json::Value,
    /// Raw actor JSON captured at publish time, if the transport record is still available.
    pub actor_json: serde_json::Value,
    /// True when the transport record is no longer available for this event id.
    pub transport_expired: bool,
}

/// A topic name, subscription id, or event id rejected before Photon lookups:
/// blank, oversized, or unsafe as a path segment.
#[derive(Debug, Clone, Copy, PartialEq, Eq, Structural)]
#[non_exhaustive]
pub enum PhotonIdError {
    /// Topic name was empty or whitespace-only.
    EmptyTopicName,
    /// Topic name was longer than the id limit.
    TopicNameTooLong,
    /// Topic name held a path separator, a control character, or was `.` / `..`.
    UnsafeTopicName,
    /// Subscription id was empty or whitespace-only.
    EmptySubscriptionId,
    /// Subscription id was longer than the id limit.
    SubscriptionIdTooLong,
    /// Subscription id held a path separator, a control character, or was `.` / `..`.
    UnsafeSubscriptionId,
    /// Event id was empty or whitespace-only.
    EmptyEventId,
    /// Event id was longer than the id limit.
    EventIdTooLong,
    /// Event id held a path separator, a control character, or was `.` / `..`.
    UnsafeEventId,
}

impl PhotonIdError {
    /// The operator-facing text of each error.
    pub open spec fn text(self) -> Seq<char> {
        match self {
            PhotonIdError::EmptyTopicName => "Photon topic name is required"@,
            PhotonIdError::TopicNameTooLong => "Photon topic name is too long"@,
            PhotonIdError::UnsafeTopicName => "Photon topic name is not a safe id"@,
            PhotonIdError::EmptySubscriptionId => "Photon subscription id is required"@,
            PhotonIdError::SubscriptionIdTooLong => "Photon subscription id is too long"@,
            PhotonIdError::UnsafeSubscriptionId => "Photon subscription id is not a safe id"@,
            PhotonIdError::EmptyEventId => "Photon event id is required"@,
            PhotonIdError::EventIdTooLong => "Photon event id is too long"@,
            PhotonIdError::UnsafeEventId => "Photon event id is not a safe id"@,
        }
    }

    /// Operator-facing message for this error (its display text).
    pub fn message(&self) -> (m: String)
        ensures
            m@ == self.text(),
    {
        match self {
            PhotonIdError::EmptyTopicName => String::from_str("Photon topic name is required"),
            PhotonIdError::TopicNameTooLong => String::from_str("Photon topic name is too long"),
            PhotonIdError::UnsafeTopicName => String::from_str(
                "Photon topic name is not a safe id",
            ),
            PhotonIdError::EmptySubscriptionId => String::from_str(
                "Photon subscription id is required",
            ),
            PhotonIdError::SubscriptionIdTooLong => String::from_str(
                "Photon subscription id is too long",
            ),
            PhotonIdError::UnsafeSubscriptionId => String::from_str(
                "Photon subscription id is not a safe id",
            ),
            PhotonIdError::EmptyEventId => String::from_str("Photon event id is required"),
            PhotonIdError::EventIdTooLong => String::from_str("Photon event id is too long"),
            PhotonIdError::UnsafeEventId => String::from_str("Photon event id is not a safe id"),
        }
    }

    /// True for the three "blank id" errors.
    pub open spec fn is_blank_error(self) -> bool {
        ||| self == PhotonIdError::EmptyTopicName
        ||| self == PhotonIdError::EmptySubscriptionId
        ||| self == PhotonIdError::EmptyEventId
    }
}

} // verus!
