use y2kexplorer::config::SchemaRegistryConfig;
use y2kexplorer::kafka::{reset_target, sort_fetched, topic_counts, FetchCollector, FetchedMessage, LiveBatch, ResetStrategy};
use y2kexplorer::registry::{SchemaRegistryClient, SchemaVersionDetail};

fn msg(partition: i32, offset: i64, ts: Option<i64>) -> FetchedMessage {
    FetchedMessage { partition, offset, timestamp_ms: ts, key: None, payload: None, headers: vec![] }
}

fn positions(v: &[FetchedMessage]) -> Vec<(i32, i64)> {
    v.iter().map(|m| (m.partition, m.offset)).collect()
}

#[test]
fn topic_counts_add_up_partitions() {
    assert_eq!(topic_counts(2, &[(0, 3), (1, 4), (0, 5), (7, 1)]), vec![8, 4]);
    assert_eq!(topic_counts(3, &[(2, 9)]), vec![0, 0, 9]);
    assert_eq!(topic_counts(0, &[(0, 1)]), Vec::<u64>::new());
    // the sum wraps as an atomic counter does
    assert_eq!(topic_counts(1, &[(0, u64::MAX), (0, 2)]), vec![1]);
}

#[test]
fn fetch_collector_reports_each_partition() {
    let mut c = FetchCollector::new(3);
    assert!(!c.complete());
    let (p1, r1) = c.take(Ok(vec![msg(0, 4, None), msg(0, 7, None)]));
    assert_eq!(p1, (1, 3));
    assert!(r1.is_ok());
    let (p2, _) = c.take(Ok(vec![]));
    assert_eq!(p2, (2, 3));
    let (p3, _) = c.take(Ok(vec![msg(1, 2, None)]));
    assert_eq!(p3, (3, 3));
    assert!(c.complete());
    let out = c.finish(false, false, 2);
    assert_eq!(positions(&out), vec![(1, 2), (0, 7)]);
}

#[test]
fn fetch_collector_stops_on_error() {
    let mut c = FetchCollector::new(2);
    let (p, r) = c.take(Err("broker down".to_string()));
    assert_eq!(p, (1, 2));
    assert_eq!(r, Err("broker down".to_string()));
    assert!(c.out.is_empty());
}

#[test]
fn fetch_collector_with_nothing_selected_is_done() {
    let c = FetchCollector::new(0);
    assert!(c.complete());
    assert!(c.finish(true, false, 10).is_empty());
}

#[test]
fn live_batch_keeps_messages_in_range() {
    let mut b = LiveBatch::new(200, None, vec![(0, 5), (1, 0)]);
    assert_eq!(b.cap, 150);
    assert!(!b.wants_nothing());
    assert!(!b.offer(msg(0, 4, None), 10)); // before the next offset
    assert!(b.offer(msg(0, 5, None), 10));
    assert!(!b.offer(msg(0, 10, None), 10)); // at the high watermark
    assert!(!b.offer(msg(2, 0, None), 10)); // partition not followed
    assert!(b.offer(msg(1, 0, Some(3)), 1));
    assert_eq!(positions(&b.out), vec![(0, 5), (1, 0)]);
    assert_eq!(positions(&b.finish(false, false)), vec![(1, 0), (0, 5)]);
}

#[test]
fn live_batch_respects_partition_and_cap() {
    let mut b = LiveBatch::new(1, Some(1), vec![(0, 0), (1, 0)]);
    assert_eq!(b.cap, 1);
    assert!(!b.offer(msg(0, 0, None), 5)); // another partition than the selected one
    assert!(b.offer(msg(1, 0, None), 5));
    assert!(!b.offer(msg(1, 1, None), 5)); // no room left
    assert_eq!(b.out.len(), 1);
}

#[test]
fn live_batch_wanting_nothing() {
    assert!(LiveBatch::new(0, None, vec![(0, 1)]).wants_nothing());
    assert!(LiveBatch::new(5, None, vec![]).wants_nothing());
    assert!(!LiveBatch::new(5, Some(0), vec![(0, 1)]).wants_nothing());
}

#[test]
fn sorting_keeps_equal_messages_in_order() {
    let mut v = vec![msg(0, 1, Some(10)), msg(1, 0, Some(20)), msg(2, 5, Some(10))];
    sort_fetched(&mut v, false, true);
    assert_eq!(positions(&v), vec![(1, 0), (0, 1), (2, 5)]);
    let mut w = vec![msg(2, 5, Some(10)), msg(1, 0, Some(20)), msg(0, 1, Some(10))];
    sort_fetched(&mut w, false, true);
    assert_eq!(positions(&w), vec![(1, 0), (2, 5), (0, 1)]);
    // by position, newest first; messages without a timestamp go last
    let mut x = vec![msg(0, 3, None), msg(1, 1, Some(1)), msg(1, 2, None)];
    sort_fetched(&mut x, false, true);
    assert_eq!(positions(&x), vec![(1, 1), (1, 2), (0, 3)]);
}

#[test]
fn reset_targets() {
    assert_eq!(reset_target(ResetStrategy::Earliest, 5, 3), Some(5));
    assert_eq!(reset_target(ResetStrategy::Latest, 5, 3), Some(3));
    assert_eq!(reset_target(ResetStrategy::ToOffset(10), 0, 7), Some(7));
    assert_eq!(reset_target(ResetStrategy::ToOffset(-4), 2, 7), Some(2));
    assert_eq!(reset_target(ResetStrategy::ToOffset(4), 2, 7), Some(4));
    assert_eq!(reset_target(ResetStrategy::ToTimestamp(1_000), 2, 7), None);
}

fn detail(version: i32, schema_type: &str) -> SchemaVersionDetail {
    SchemaVersionDetail {
        subject: "s".to_string(),
        version,
        id: 11,
        schema_type: schema_type.to_string(),
        schema: "{}".to_string(),
    }
}

#[test]
fn subject_summary_uses_largest_version() {
    let c = SchemaRegistryClient::new(&SchemaRegistryConfig {
        url: "http://sr:8081".into(),
        username: None,
        password: None,
        tls: false,
    })
    .unwrap();
    let s = c.summarize_subject("s", &[1, 3, 2], detail(3, "PROTOBUF")).unwrap();
    assert_eq!(s.subject, "s");
    assert_eq!(s.latest_version, 3);
    assert_eq!(s.schema_type, "PROTOBUF");
    assert_eq!(s.version_count, 3);
    assert_eq!(c.summarize_subject("s", &[], detail(1, "AVRO")).unwrap_err(), "subject s has no versions");
    assert_eq!(c.summarize_subject("s", &[0, -1], detail(1, "AVRO")).unwrap_err(), "subject s has no versions");
}

fn group(id: &str, state: &str) -> y2kexplorer::kafka::ConsumerGroupInfo {
    y2kexplorer::kafka::ConsumerGroupInfo {
        id: id.to_string(),
        state: state.to_string(),
        members: 0,
        protocol: String::new(),
        protocol_type: String::new(),
    }
}

#[test]
fn group_sort_keeps_equal_ids_in_order() {
    let sorted = y2kexplorer::kafka::sort_groups(vec![group("b", "1"), group("a", "2"), group("b", "3"), group("a", "4")]);
    let seen: Vec<(String, String)> = sorted.into_iter().map(|g| (g.id, g.state)).collect();
    assert_eq!(
        seen,
        vec![
            ("a".to_string(), "2".to_string()),
            ("a".to_string(), "4".to_string()),
            ("b".to_string(), "1".to_string()),
            ("b".to_string(), "3".to_string()),
        ]
    );
}
