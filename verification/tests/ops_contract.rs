use chrono::{DateTime, Utc};
use photon_backend::ops::{
    event_lookup, list_subscriptions, load_dashboard_stats, load_event, load_events,
    load_recent_events, load_topics, photon_failure, subscription_lookup, topic_lookup, require_photon, require_photon_admin, require_session_user,
    AdminSnapshot, EventQuery, OpsError, PhotonRead, SnapshotHandler, TopicDescriptor,
    TransportEvent,
};
use photon_backend::{find_subscription_by_id, PhotonIdError, Timestamp};

fn instant(rfc3339: &str) -> Timestamp {
    let dt = DateTime::parse_from_rfc3339(rfc3339).unwrap().with_timezone(&Utc);
    Timestamp::from_unix_parts(dt.timestamp(), dt.timestamp_subsec_nanos()).unwrap()
}

fn handler(key: &str, name: Option<&str>, group: Option<&str>, topic: &str) -> SnapshotHandler {
    SnapshotHandler {
        registry_key: key.into(),
        subscription_name: name.map(str::to_string),
        consumer_group: group.map(str::to_string),
        topic_name: topic.into(),
        mode: "durable".into(),
    }
}

fn transport(id: &str, topic: &str, at: &str) -> TransportEvent {
    TransportEvent {
        event_id: id.into(),
        topic_name: topic.into(),
        topic_key: Some("k".into()),
        seq: 3,
        created_at: instant(at),
        payload_json: serde_json::from_str(r#"{"value":42}"#).unwrap(),
        actor_json: serde_json::Value::Null,
    }
}

#[test]
fn auth_guards_fail_closed() {
    assert_eq!(
        require_session_user(None).unwrap_err(),
        OpsError::AuthenticationRequired
    );
    assert!(require_session_user(Some("user:admin")).is_ok());
    assert_eq!(
        require_photon_admin(false).unwrap_err(),
        OpsError::PermissionDenied
    );
    assert!(require_photon_admin(true).is_ok());
    assert_eq!(require_photon::<u8>(None).err(), Some(OpsError::PhotonNotInContext));
    assert_eq!(require_photon(Some(7u8)), Ok(7));
}

#[test]
fn ops_error_messages() {
    assert_eq!(OpsError::AuthenticationRequired.message(), "Authentication required");
    assert_eq!(OpsError::PhotonNotInContext.message(), "Photon not in request context");
    assert_eq!(OpsError::PermissionDenied.message(), "Permission denied");
    assert_eq!(
        OpsError::InvalidId(PhotonIdError::EmptyEventId).message(),
        "Photon event id is required"
    );
    assert_eq!(OpsError::Photon("boom".into()).message(), "boom");
    assert_eq!(
        OpsError::from(PhotonIdError::UnsafeTopicName),
        OpsError::InvalidId(PhotonIdError::UnsafeTopicName)
    );
}

#[test]
fn photon_failures_name_the_read() {
    assert_eq!(
        photon_failure(PhotonRead::AdminSnapshot, "down"),
        OpsError::Photon("Failed to load admin snapshot: down".into())
    );
    assert_eq!(
        photon_failure(PhotonRead::RecentEvents, "x").message(),
        "Failed to list recent events: x"
    );
    assert_eq!(
        photon_failure(PhotonRead::TopicEvents, "y").message(),
        "Failed to list events: y"
    );
    assert_eq!(
        photon_failure(PhotonRead::TransportEvent, "z").message(),
        "Failed to get transport event: z"
    );
}

#[test]
fn snapshot_handlers_become_subscriptions() {
    let snapshot = AdminSnapshot {
        handlers: vec![
            handler("orders:audit", Some("audit"), Some("grp"), "orders"),
            handler("orders:mail", None, Some("mailers"), "orders"),
            handler("pay:ledger", None, None, "pay"),
        ],
        checkpoints: vec![
            ("audit".into(), "orders".into(), None, Some(12)),
            ("mailers".into(), "orders".into(), None, Some(4)),
        ],
    };
    let subs = list_subscriptions(&snapshot);
    assert_eq!(subs.len(), 3);
    assert_eq!(subs[0].subscription_id, "orders:audit");
    assert_eq!(subs[0].subscription_name, "audit");
    assert_eq!(subs[0].last_seq, Some(12));
    assert_eq!(subs[1].subscription_name, "mailers");
    assert_eq!(subs[1].last_seq, None);
    assert_eq!(subs[2].subscription_name, "pay:ledger");
    assert!(subs.iter().all(|s| s.enabled && s.checkpoint_lag == 0));
    let found = find_subscription_by_id(&subs, "orders:mail").expect("listed");
    assert_eq!(found.topic_name, "orders");
}

#[test]
fn dashboard_counts_recent_events_in_the_window() {
    let stamps = [
        instant("2026-01-01T00:00:00Z"),
        instant("2026-01-02T00:00:00Z"),
        instant("2026-01-02T12:00:00Z"),
    ];
    let stats = load_dashboard_stats(4, 2, &stamps, instant("2026-01-01T12:00:00Z"));
    assert_eq!(stats.topic_count, 4);
    assert_eq!(stats.subscription_count, 2);
    assert_eq!(stats.event_count_24h, 2);
}

#[test]
fn registry_topics_are_counted_and_sorted() {
    let subs = list_subscriptions(&AdminSnapshot {
        handlers: vec![
            handler("orders:a", Some("a"), None, "orders"),
            handler("orders:b", Some("b"), None, "orders"),
            handler("pay:c", Some("c"), None, "pay"),
        ],
        checkpoints: vec![],
    });
    let registry = vec![
        (
            TopicDescriptor {
                topic_name: "pay".into(),
                keyed_by: None,
                schema_json: "{}".into(),
            },
            vec![instant("2026-01-02T00:00:00Z")],
        ),
        (
            TopicDescriptor {
                topic_name: "orders".into(),
                keyed_by: Some("order_id".into()),
                schema_json: r#"{"type":"object"}"#.into(),
            },
            vec![instant("2025-12-01T00:00:00Z"), instant("2026-01-03T00:00:00Z")],
        ),
    ];
    let topics = load_topics(registry, &subs, instant("2026-01-01T00:00:00Z"));
    assert_eq!(topics.len(), 2);
    assert_eq!(topics[0].topic_name, "orders");
    assert_eq!(topics[0].subscription_count, 2);
    assert_eq!(topics[0].event_count_24h, 1);
    assert_eq!(topics[0].keyed_by.as_deref(), Some("order_id"));
    assert_eq!(topics[1].topic_name, "pay");
    assert_eq!(topics[1].subscription_count, 1);
    assert_eq!(topics[1].event_count_24h, 1);
}

#[test]
fn event_queries_cap_and_validate() {
    assert_eq!(load_events(None, 5000), Ok(EventQuery::Recent { limit: 100 }));
    assert_eq!(
        load_events(Some("orders"), 20),
        Ok(EventQuery::ByTopic {
            topic_name: "orders".into(),
            limit: 20
        })
    );
    assert_eq!(
        load_events(Some(" "), 20),
        Err(OpsError::InvalidId(PhotonIdError::EmptyTopicName))
    );
    assert_eq!(
        load_events(Some("a/b"), 20),
        Err(OpsError::InvalidId(PhotonIdError::UnsafeTopicName))
    );
}

#[test]
fn transport_events_become_list_rows() {
    let rows = load_recent_events(&[
        transport("e1", "orders", "2026-01-01T00:00:00Z"),
        transport("e2", "pay", "2026-01-01T00:00:01.5Z"),
    ]);
    assert_eq!(rows.len(), 2);
    assert_eq!(rows[0].event_id, "e1");
    assert_eq!(rows[0].created_at, "2026-01-01T00:00:00+00:00");
    assert_eq!(rows[0].payload_preview, "[stored]");
    assert_eq!(rows[0].topic_key.as_deref(), Some("k"));
    assert_eq!(rows[1].created_at, "2026-01-01T00:00:01.500+00:00");
}

#[test]
fn transport_event_becomes_detail() {
    assert!(load_event(None).is_none());
    let detail = load_event(Some(transport("e1", "orders", "2026-01-01T00:00:00Z")))
        .expect("detail");
    assert_eq!(detail.event_id, "e1");
    assert_eq!(detail.topic_name, "orders");
    assert_eq!(detail.delivery_status, "stored");
    assert_eq!(detail.created_at, "2026-01-01T00:00:00+00:00");
    assert!(!detail.transport_expired);
    assert_eq!(detail.payload_json["value"], 42);
    assert!(detail.actor_json.is_null());
}

#[test]
fn lookups_hand_back_the_validated_id() {
    assert_eq!(topic_lookup("orders"), Ok("orders".to_string()));
    assert_eq!(subscription_lookup("orders:audit"), Ok("orders:audit".to_string()));
    assert_eq!(event_lookup("evt-1"), Ok("evt-1".to_string()));
}

#[test]
fn lookups_refuse_invalid_ids_before_any_read() {
    assert_eq!(
        topic_lookup("  "),
        Err(OpsError::InvalidId(PhotonIdError::EmptyTopicName))
    );
    assert_eq!(
        subscription_lookup("a/b"),
        Err(OpsError::InvalidId(PhotonIdError::UnsafeSubscriptionId))
    );
    assert_eq!(
        event_lookup(""),
        Err(OpsError::InvalidId(PhotonIdError::EmptyEventId))
    );
    assert_eq!(
        event_lookup(&"e".repeat(513)),
        Err(OpsError::InvalidId(PhotonIdError::EventIdTooLong))
    );
}

#[test]
fn the_unix_epoch_is_representable() {
    let t = Timestamp::from_unix_parts(0, 0).unwrap();
    assert_eq!(t.unix_seconds(), 0);
    assert_eq!(t.unix_subsec_nanos(), 0);
    assert_eq!(t.to_rfc3339(), "1970-01-01T00:00:00+00:00");
}
