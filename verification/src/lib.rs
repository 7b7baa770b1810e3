//! Verified contracts for the Photon operations console backend.
//!
//! - **Id validation**: blank, oversized, or path-unsafe topic names,
//!   subscription ids, and event ids are refused before registry or store
//!   lookups ([`validate_topic_name`], [`validate_subscription_id`],
//!   [`validate_event_id`]).
//! - **Ops path encoding**: percent-encoded path segments for `/photon` hrefs
//!   ([`encode_ops_path_segment`], [`photon_topic_path`],
//!   [`photon_subscription_path`], [`photon_event_path`]).
//! - **Topic / subscription / event mapping**: the DTOs the UI renders, built
//!   from registry rows, admin-snapshot handlers, and transport events.
//! - **Dashboard aggregates**: KPI counters and 24-hour event windows
//!   ([`dashboard_stats`], [`count_since`]).
//! - **Event list limits**: [`clamp_event_list_limit`] caps list sizes at
//!   [`MAX_EVENT_LIST_LIMIT`].
//! - **Ops reads** ([`ops`]): auth guards and what becomes of each Photon read.
//! - **List filters** ([`filters`]): the search and status filters of the
//!   topic and subscription index pages.

pub mod filters;
pub mod mapping;
pub mod ops;
pub mod permissions;
pub mod text;
pub mod time;
pub mod types;
pub mod validate;

pub use mapping::{
    count_since, dashboard_stats, event_detail_from_transport, event_detail_transport_expired,
    event_summary_from_meta, event_summary_from_transport, filter_subscriptions_by_topic,
    find_checkpoint_seq, find_subscription_by_id, find_topic_by_name, format_delivery_preview,
    sort_topics_by_name, stub_checkpoint_lag, subscription_summary_from_handler, topic_summary,
};
pub use permissions::{PhotonPermission, PHOTON_ADMIN_PERMISSION};
pub use time::Timestamp;
pub use types::{
    DashboardStats, EventDetail, EventSummary, PhotonIdError, SubscriptionSummary, TopicSummary,
};
pub use validate::{
    clamp_event_list_limit, encode_ops_path_segment, photon_event_path, photon_subscription_path,
    photon_topic_path, validate_event_id, validate_subscription_id, validate_topic_name,
    MAX_EVENT_LIST_LIMIT, MAX_PHOTON_ID_CHARS,
};
