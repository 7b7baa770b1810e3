use photon_backend::{
    count_since, filter_subscriptions_by_topic, find_checkpoint_seq, find_topic_by_name,
    sort_topics_by_name, stub_checkpoint_lag, subscription_summary_from_handler, topic_summary,
    SubscriptionSummary, Timestamp, TopicSummary,
};

fn at(secs: i64, nanos: u32) -> Timestamp {
    Timestamp::from_unix_parts(secs, nanos).expect("representable")
}

fn sub(id: &str, topic: &str) -> SubscriptionSummary {
    SubscriptionSummary {
        subscription_id: id.into(),
        subscription_name: id.into(),
        topic_name: topic.into(),
        enabled: true,
        mode: "durable".into(),
        topic_key_filter: None,
        checkpoint_lag: stub_checkpoint_lag(),
        last_seq: None,
        last_processed_at: None,
    }
}

#[test]
fn later_cutoff_counts_no_more() {
    let stamps = [at(10, 0), at(20, 5), at(20, 9), at(30, 0)];
    let mut previous = u64::MAX;
    for cutoff in [at(0, 0), at(20, 5), at(20, 6), at(30, 0), at(31, 0)] {
        let n = count_since(&stamps, cutoff);
        assert!(n <= previous && n as usize <= stamps.len());
        previous = n;
    }
    assert_eq!(count_since(&stamps, at(20, 5)), 3);
    assert_eq!(count_since(&[], at(0, 0)), 0);
}

#[test]
fn instants_order_by_seconds_then_nanoseconds() {
    assert!(at(5, 0).is_at_or_after(&at(4, 999_999_999)));
    assert!(at(5, 1).is_at_or_after(&at(5, 1)));
    assert!(!at(5, 0).is_at_or_after(&at(5, 1)));
    assert_eq!(at(5, 7).unix_seconds(), 5);
    assert_eq!(at(5, 7).unix_subsec_nanos(), 7);
    assert_eq!(at(0, 0).to_rfc3339(), "1970-01-01T00:00:00+00:00");
}

#[test]
fn unrepresentable_instants_are_refused() {
    assert!(Timestamp::from_unix_parts(i64::MAX, 0).is_none());
    assert!(Timestamp::from_unix_parts(0, 2_000_000_000).is_none());
    assert!(Timestamp::from_unix_parts(59, 1_500_000_000).is_some());
}

#[test]
fn topic_filter_keeps_exactly_its_subscriptions() {
    let subs = vec![sub("a", "t1"), sub("b", "t2"), sub("c", "t1"), sub("d", "t1")];
    let kept = filter_subscriptions_by_topic(&subs, "t1");
    let ids: Vec<&str> = kept.iter().map(|s| s.subscription_id.as_str()).collect();
    assert_eq!(ids, vec!["a", "c", "d"]);
}

#[test]
fn find_returns_the_first_match() {
    let topics = vec![
        topic_summary("dup", None, "first", 0, 0),
        topic_summary("dup", None, "second", 0, 0),
    ];
    assert_eq!(find_topic_by_name(&topics, "dup").unwrap().schema_json, "first");
    let cps = vec![
        ("s".to_string(), "t".to_string(), None, None),
        ("s".to_string(), "t".to_string(), None, Some(5)),
    ];
    assert_eq!(find_checkpoint_seq(&cps, Some("s"), "t"), None);
}

#[test]
fn sorting_is_stable_and_keeps_every_topic() {
    let mut topics: Vec<TopicSummary> = vec![
        topic_summary("b", None, "b1", 0, 0),
        topic_summary("a", None, "a1", 0, 0),
        topic_summary("b", None, "b2", 0, 0),
        topic_summary("B", None, "B1", 0, 0),
        topic_summary("a", None, "a2", 0, 0),
        topic_summary("é", None, "e1", 0, 0),
    ];
    let before = topics.clone();
    sort_topics_by_name(&mut topics);
    let order: Vec<&str> = topics.iter().map(|t| t.schema_json.as_str()).collect();
    assert_eq!(order, vec!["B1", "a1", "a2", "b1", "b2", "e1"]);
    for t in &before {
        assert!(find_topic_by_name(&topics, &t.topic_name).is_some());
    }
}

#[test]
fn handler_name_falls_back_to_registry_key() {
    let sub = subscription_summary_from_handler("t:h", None, "t", "durable", None);
    assert_eq!(sub.subscription_name, "t:h");
    assert_eq!(sub.mode, "durable");
    assert!(sub.topic_key_filter.is_none() && sub.last_processed_at.is_none());
}

#[test]
fn sorting_a_sorted_list_changes_nothing() {
    let mut topics = vec![
        topic_summary("a", None, "1", 0, 0),
        topic_summary("a", None, "2", 0, 0),
        topic_summary("b", Some("k".into()), "3", 1, 2),
    ];
    let before = topics.clone();
    sort_topics_by_name(&mut topics);
    assert_eq!(topics, before);
}
