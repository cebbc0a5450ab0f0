use p2p_failover::timestamp::has_oversized_zone;
use p2p_failover::config::{Config, ConfigMetadata, ExecutionInstructions, ProviderNode};
use p2p_failover::timestamp::Timestamp;

fn ts(secs: i64) -> Timestamp {
    Timestamp { secs, nanos: 0 }
}

fn peer(name: &str, priority: u32, port: u32) -> ProviderNode {
    ProviderNode {
        name: name.to_string(),
        ddns: format!("{}.example.org", name.to_lowercase()),
        ip: "127.0.0.1".to_string(),
        port,
        preference: 1,
        priority,
        last_updated: ts(100),
    }
}

fn config(own: &str, nodes: Vec<ProviderNode>, instructions: &str, updated: i64) -> Config {
    Config {
        nodes,
        config_metadata: ConfigMetadata { name: own.to_string(), last_updated: ts(updated) },
        execution: ExecutionInstructions { instructions: instructions.to_string(), last_updated: ts(100) },
    }
}

fn names(c: &Config) -> Vec<String> {
    c.nodes.iter().map(|n| n.name.clone()).collect()
}

#[test]
fn older_pulled_config_is_discarded() {
    let mut a = config("A", vec![peer("A", 10, 9001), peer("B", 20, 9002)], "/bin/sleep 60", 1000);
    let b = config("B", vec![peer("B", 20, 9002), peer("C", 5, 9003)], "/bin/true", 999);
    assert!(!a.merge_at(b, ts(5000)));
    assert_eq!(a.execution.instructions, "/bin/sleep 60");
    assert_eq!(names(&a), vec!["A", "B"]);
    assert_eq!(a.config_metadata.last_updated, ts(1000));
    assert_eq!(a.nodes[0].last_updated, ts(100));
}

#[test]
fn newer_pulled_config_is_merged() {
    let mut a = config("A", vec![peer("A", 10, 9001), peer("B", 20, 9002)], "/bin/sleep 60", 1000);
    let b = config(
        "B",
        vec![peer("A", 99, 1), peer("B", 21, 9002), peer("C", 5, 9003), peer("C", 6, 9004)],
        "/bin/true",
        1001,
    );
    assert!(a.merge_at(b, ts(5000)));
    assert_eq!(a.execution.instructions, "/bin/true");
    assert_eq!(names(&a), vec!["A", "B", "C"]);
    assert_eq!(a.nodes[0].priority, 10);
    assert_eq!(a.nodes[1].priority, 20);
    assert_eq!(a.nodes[2].port, 9003);
    assert_eq!(a.config_metadata.last_updated, ts(1001));
    assert_eq!(a.config_metadata.name, "A");
    assert_eq!(a.nodes[0].last_updated, ts(5000));
    assert_eq!(a.nodes[1].last_updated, ts(100));
}

#[test]
fn equal_update_times_merge() {
    let mut a = config("A", vec![peer("A", 10, 9001)], "x", 1000);
    let b = config("B", vec![peer("B", 20, 9002)], "y", 1000);
    assert!(a.merge_at(b, ts(7)));
    assert_eq!(names(&a), vec!["A", "B"]);
}

#[test]
fn merge_time_is_not_earlier_than_either_input() {
    for (local, incoming) in [(1000, 999), (1000, 1001), (1000, 1000)] {
        let mut a = config("A", vec![peer("A", 10, 9001)], "x", local);
        let b = config("B", vec![peer("B", 20, 9002)], "y", incoming);
        a.merge_at(b, ts(1));
        assert!(a.config_metadata.last_updated.secs >= local);
        assert!(a.config_metadata.last_updated.secs >= incoming);
    }
}

#[test]
fn merge_keeps_every_name() {
    let mut a = config("A", vec![peer("A", 10, 9001), peer("D", 1, 9004)], "x", 10);
    let b = config("B", vec![peer("B", 20, 9002)], "y", 20);
    a.merge_pulled(b);
    let after = names(&a);
    for n in ["A", "D", "B"] {
        assert!(after.iter().any(|x| x == n));
    }
}

#[test]
fn merge_now_stamps_local_entry() {
    let mut a = config("A", vec![peer("A", 10, 9001)], "x", 10);
    let b = config("B", vec![], "y", 20);
    assert!(a.merge_pulled(b));
    assert!(a.nodes[0].last_updated.secs > 100);
}

#[test]
fn local_port_is_that_of_own_entry() {
    let a = config("B", vec![peer("A", 10, 9001), peer("B", 20, 9002)], "x", 10);
    assert_eq!(a.local_port(), Some(9002));
    let c = config("Z", vec![peer("A", 10, 9001)], "x", 10);
    assert_eq!(c.local_port(), None);
}

#[test]
fn timestamps_read_and_compare() {
    let t = Timestamp::parse("2024-03-20 00:00:00 UTC").unwrap();
    assert_eq!(t, ts(1710892800));
    assert_eq!(t.to_text().unwrap(), "2024-03-20 00:00:00 UTC");
    assert!(ts(2).is_later_than(&ts(1)));
    assert!(!ts(1).is_later_than(&ts(1)));
    assert!(Timestamp { secs: 1, nanos: 5 }.is_later_than(&Timestamp { secs: 1, nanos: 4 }));
    assert!(Timestamp::parse("not a date").is_none());
    assert!(Timestamp::now().is_later_than(&t));
}

#[test]
fn timestamps_order_by_seconds_then_nanoseconds() {
    assert!(ts(2) > ts(1));
    assert!(Timestamp { secs: 1, nanos: 1 } < Timestamp { secs: 2, nanos: 0 });
    assert!(Timestamp { secs: 1, nanos: 9 } > Timestamp { secs: 1, nanos: 8 });
    assert_eq!(ts(3).partial_cmp(&ts(3)), Some(std::cmp::Ordering::Equal));
    assert!(ts(-5) < ts(0));
}

#[test]
fn zone_offsets_of_a_day_or_more_are_refused() {
    assert!(Timestamp::parse("2021-05-01 12:00:00 +99:00").is_none());
    assert!(Timestamp::parse("2021-05-01 +9900").is_none());
    assert!(Timestamp::parse("2021-05-01-2400").is_none());
    assert!(has_oversized_zone("2021-05-01 12:00:00 +24:00"));
    assert!(!has_oversized_zone("2021-05-01 12:00:00 +23:59"));
    assert!(!has_oversized_zone("2024-03-25"));
    assert!(!has_oversized_zone("2024-03-25 00:00:00 UTC"));
    let t = Timestamp::parse("2021-05-01 12:00:00 +02:00").unwrap();
    assert_eq!(t, ts(1619863200));
    assert_eq!(Timestamp::parse("2024-03-25 00:00:00 UTC").unwrap(), ts(1711324800));
}

#[test]
fn text_form_exists_within_common_era() {
    assert_eq!(ts(0).to_text().unwrap(), "1970-01-01 00:00:00 UTC");
    assert_eq!(ts(253_402_300_799).to_text().unwrap(), "9999-12-31 23:59:59 UTC");
    assert!(ts(i64::MAX).to_text().is_none());
    let now = Timestamp::now();
    assert!(now.secs >= 0 && now.nanos < 1_000_000_000);
}
