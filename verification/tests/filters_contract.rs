use photon_backend::filters::{
    filter_subscriptions, filter_topics, parse_status_filter, subscriptions_empty_message,
    topics_empty_message,
};
use photon_backend::{stub_checkpoint_lag, SubscriptionSummary, TopicSummary};

fn topic(name: &str, schema: &str) -> TopicSummary {
    TopicSummary {
        topic_name: name.into(),
        keyed_by: None,
        schema_json: schema.into(),
        event_count_24h: 0,
        subscription_count: 0,
    }
}

fn sub(name: &str, topic: &str, enabled: bool) -> SubscriptionSummary {
    SubscriptionSummary {
        subscription_id: format!("{topic}:{name}"),
        subscription_name: name.into(),
        topic_name: topic.into(),
        enabled,
        mode: "durable".into(),
        topic_key_filter: None,
        checkpoint_lag: stub_checkpoint_lag(),
        last_seq: None,
        last_processed_at: None,
    }
}

fn names(ts: &[TopicSummary]) -> Vec<&str> {
    ts.iter().map(|t| t.topic_name.as_str()).collect()
}

fn sub_names(ss: &[SubscriptionSummary]) -> Vec<&str> {
    ss.iter().map(|s| s.subscription_name.as_str()).collect()
}

#[test]
fn topic_search_matches_name_or_schema_case_insensitively() {
    let topics = vec![
        topic("Orders.Created", "{}"),
        topic("payments", r#"{"order_id":"string"}"#),
        topic("users", "{}"),
    ];
    let shown = filter_topics(topics, "  ORDER ");
    assert_eq!(names(&shown), vec!["Orders.Created", "payments"]);
}

#[test]
fn blank_topic_search_shows_every_topic() {
    let topics = vec![topic("b", "{}"), topic("a", "{}")];
    let shown = filter_topics(topics.clone(), " \t ");
    assert_eq!(shown, topics);
}

#[test]
fn topic_search_without_match_is_empty() {
    let topics = vec![topic("orders", "{}")];
    assert!(filter_topics(topics, "zzz").is_empty());
}

#[test]
fn status_select_values() {
    assert_eq!(parse_status_filter("on"), Some(true));
    assert_eq!(parse_status_filter("off"), Some(false));
    assert_eq!(parse_status_filter(""), None);
    assert_eq!(parse_status_filter("ON"), None);
    assert_eq!(parse_status_filter("o"), None);
}

#[test]
fn subscription_filter_combines_search_and_status() {
    let subs = vec![
        sub("orders-audit", "orders", true),
        sub("orders-mail", "orders", false),
        sub("billing", "Payments", true),
    ];
    assert_eq!(
        sub_names(&filter_subscriptions(subs.clone(), "", "on")),
        vec!["orders-audit", "billing"]
    );
    assert_eq!(
        sub_names(&filter_subscriptions(subs.clone(), "orders", "off")),
        vec!["orders-mail"]
    );
    assert_eq!(
        sub_names(&filter_subscriptions(subs.clone(), "PAY", "")),
        vec!["billing"]
    );
    assert_eq!(filter_subscriptions(subs.clone(), "  ", "all"), subs);
}

#[test]
fn empty_state_messages() {
    assert_eq!(topics_empty_message(""), "No topics");
    assert_eq!(topics_empty_message("  "), "No topics");
    assert_eq!(topics_empty_message("x"), "No topics match your search");
    assert_eq!(subscriptions_empty_message("\t"), "No subscriptions");
    assert_eq!(
        subscriptions_empty_message(" a "),
        "No subscriptions match your filters"
    );
}
