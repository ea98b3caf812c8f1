use hotaru_mqtt::topic::{filter_matches, split_levels};
use hotaru_mqtt::{validate_publish_topic, validate_subscribe_filter, MqttError, Violation};

#[test]
fn filter_matches_literal() {
    let segs: Vec<&str> = "a/b/c".split('/').collect();
    assert!(filter_matches("a/b/c", &segs));
    assert!(!filter_matches("a/b/d", &segs));
}

#[test]
fn filter_matches_plus() {
    let segs: Vec<&str> = "a/b/c".split('/').collect();
    assert!(filter_matches("a/+/c", &segs));
    assert!(filter_matches("+/+/+", &segs));
    assert!(!filter_matches("a/+/d", &segs));
    assert!(!filter_matches("a/+", &segs));
}

#[test]
fn filter_matches_hash() {
    let segs: Vec<&str> = "a/b/c".split('/').collect();
    assert!(filter_matches("a/#", &segs));
    assert!(filter_matches("#", &segs));
    assert!(filter_matches("a/b/#", &segs));
    assert!(!filter_matches("b/#", &segs));
}

#[test]
fn filter_matches_partial() {
    let segs: Vec<&str> = "a/b".split('/').collect();
    assert!(!filter_matches("a/b/c", &segs));
    assert!(filter_matches("a/b", &segs));
}

#[test]
fn hash_stands_for_no_level_too() {
    let segs: Vec<&str> = "a".split('/').collect();
    assert!(filter_matches("a/#", &segs));
    assert!(!filter_matches("a/+", &segs));
    let segs: Vec<&str> = "a/".split('/').collect();
    assert!(filter_matches("a/+", &segs));
}

#[test]
fn wildcards_at_the_beginning_leave_reserved_topics_alone() {
    let segs: Vec<&str> = "$SYS/uptime".split('/').collect();
    assert!(!filter_matches("#", &segs));
    assert!(!filter_matches("+/uptime", &segs));
    assert!(filter_matches("$SYS/#", &segs));
    assert!(filter_matches("$SYS/+", &segs));
    assert!(filter_matches("$SYS/uptime", &segs));
    let segs: Vec<&str> = "a/$SYS".split('/').collect();
    assert!(filter_matches("#", &segs));
    assert!(filter_matches("+/+", &segs));
    assert!(filter_matches("#", &[""]));
}

#[test]
fn topics_split_into_levels() {
    let levels: Vec<String> =
        split_levels("/a//b").into_iter().map(|l| l.into_iter().collect()).collect();
    assert_eq!(levels, vec!["", "a", "", "b"]);
    assert_eq!(split_levels("").len(), 1);
}

fn topic_violation(topic: &str) -> Option<Violation> {
    match validate_publish_topic(topic) {
        Ok(()) => None,
        Err(MqttError::Protocol(v)) => Some(v),
        Err(e) => panic!("unexpected error {:?}", e),
    }
}

fn filter_violation(filter: &str) -> Option<Violation> {
    match validate_subscribe_filter(filter) {
        Ok(()) => None,
        Err(MqttError::Protocol(v)) => Some(v),
        Err(e) => panic!("unexpected error {:?}", e),
    }
}

#[test]
fn topic_names_are_validated() {
    assert_eq!(topic_violation("sensors/temp"), None);
    assert_eq!(topic_violation(""), Some(Violation::EmptyTopic));
    assert_eq!(topic_violation("a/+"), Some(Violation::WildcardInPublishTopic));
    assert_eq!(topic_violation("a/#"), Some(Violation::WildcardInPublishTopic));
    assert_eq!(topic_violation(&"x".repeat(65_535)), None);
    assert_eq!(topic_violation(&"x".repeat(65_536)), Some(Violation::TopicTooLong));
}

#[test]
fn topic_filters_are_validated() {
    assert_eq!(filter_violation("a/+/b/#"), None);
    assert_eq!(filter_violation("#"), None);
    assert_eq!(filter_violation(""), Some(Violation::EmptyTopic));
    assert_eq!(filter_violation("a/#/b"), Some(Violation::HashWildcardNotTerminal));
    assert_eq!(filter_violation("a/b+"), Some(Violation::WildcardMixedWithLiteral));
    assert_eq!(filter_violation("a/#b"), Some(Violation::WildcardMixedWithLiteral));
    assert_eq!(filter_violation(&"x".repeat(65_536)), Some(Violation::TopicTooLong));
}
