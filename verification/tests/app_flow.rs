use y2kexplorer::app::{format_partitions, parse_reset_spec, App, Effect, WorkerMsg, Key};
use y2kexplorer::config::AppConfig;
use y2kexplorer::kafka::{ConsumerGroupInfo, FetchedMessage, PartitionInfo, ResetStrategy, TopicInfo};
use y2kexplorer::modal::Modal;
use y2kexplorer::views::ViewStack;

fn app() -> App {
    App::new(AppConfig::default_with_example(), None, None).unwrap()
}

fn connected_app() -> App {
    let mut a = app();
    let r = a.connected(Ok(()));
    assert!(matches!(r.as_slice(), [Effect::ListTopics]));
    a
}

fn topic(name: &str) -> TopicInfo {
    TopicInfo { name: name.into(), partitions: 3, replication: 1, message_count: 10, internal: false }
}

fn msg(partition: i32, offset: i64) -> FetchedMessage {
    FetchedMessage {
        partition,
        offset,
        timestamp_ms: None,
        key: None,
        payload: Some(format!("p{offset}")),
        headers: vec![],
    }
}

fn type_text(a: &mut App, text: &str) {
    for c in text.chars() {
        a.handle_event(Key::Char(c), 0);
    }
}

fn is_topics(a: &App) -> bool {
    matches!(a.current(), ViewStack::Topics(_))
}

#[test]
fn new_app_lists_clusters() {
    let a = app();
    assert_eq!(a.status, "clusters: [local]");
    assert!(a.loading);
    assert!(is_topics(&a));
    let b = App::new(AppConfig::default_with_example(), Some("/cfg.toml".into()), None).unwrap();
    assert_eq!(b.status, "config: /cfg.toml  clusters: [local]");
}

#[test]
fn connecting_asks_with_configured_options() {
    let mut a = app();
    let r = a.init_connection();
    assert!(matches!(r.as_slice(), [Effect::Connect { fetch_watermarks: true, parallelism: 16 }]));
    let r = a.connected(Err("boom".into()));
    assert!(r.is_empty());
    assert_eq!(a.status, "connect failed: boom");
    assert!(!a.loading);
}

#[test]
fn splash_swallows_first_key() {
    let mut a = App::new(AppConfig::default_with_example(), None, Some(1000)).unwrap();
    let r = a.handle_event(Key::Char('q'), 10);
    assert!(r.is_empty());
    assert!(!a.should_quit());
    assert!(a.splash_until.is_none());
    a.handle_event(Key::Char('q'), 20);
    assert!(a.should_quit());
}

#[test]
fn topics_reply_fills_the_list() {
    let mut a = connected_app();
    let r = a.on_worker_msg(WorkerMsg::Topics(Ok(vec![topic("orders"), topic("payments")])));
    assert!(r.is_empty());
    assert_eq!(a.status, "ready");
    assert!(!a.loading);
    assert_eq!(a.cached_topics.len(), 2);
    match a.current() {
        ViewStack::Topics(v) => assert_eq!(v.table.rows.len(), 2),
        _ => panic!("not on topics"),
    }
}

#[test]
fn failed_replies_name_the_error() {
    let mut a = connected_app();
    a.on_worker_msg(WorkerMsg::Topics(Err("no brokers".into())));
    assert_eq!(a.status, "topics error: no brokers");
    a.on_worker_msg(WorkerMsg::Op(Err("denied".into())));
    assert_eq!(a.status, "error: denied");
    a.on_worker_msg(WorkerMsg::Groups(Err("x".into())));
    assert_eq!(a.status, "groups error: x");
}

#[test]
fn created_topic_reloads_topic_list() {
    let mut a = connected_app();
    let r = a.on_worker_msg(WorkerMsg::Op(Ok("created topic 'x' (3 partitions)".into())));
    assert!(matches!(r.as_slice(), [Effect::ListTopics]));
    assert_eq!(a.status, "loading topics…");
    let r = a.on_worker_msg(WorkerMsg::Op(Ok("something else".into())));
    assert!(r.is_empty());
    assert_eq!(a.status, "something else");
}

#[test]
fn command_palette_switches_screens() {
    let mut a = connected_app();
    a.handle_event(Key::Char(':'), 0);
    assert!(matches!(a.modal, Some(Modal::Command)));
    type_text(&mut a, "Groups");
    let r = a.handle_event(Key::Enter, 0);
    assert!(a.modal.is_none());
    assert!(matches!(a.current(), ViewStack::Groups(_)));
    assert!(matches!(r.as_slice(), [Effect::ListGroups]));
}

#[test]
fn unknown_command_is_reported() {
    let mut a = app();
    let r = a.execute_command("frobnicate now");
    assert!(r.is_empty());
    assert_eq!(a.status, "unknown command 'frobnicate' — try :help");
    let r = a.execute_command("   ");
    assert!(r.is_empty());
}

#[test]
fn limit_command_validates_range() {
    let mut a = app();
    a.execute_command("limit 5");
    assert_eq!(a.status, "limit must be 10–10000");
    a.execute_command("limit");
    assert_eq!(a.status, "usage: :limit <N>  (10–10000)");
    let r = a.execute_command("limit 500");
    assert!(matches!(r.as_slice(), [Effect::SaveConfig]));
    assert_eq!(a.config.defaults.message_limit, 500);
    a.config_saved(Ok(()));
    assert_eq!(a.status, "message limit → 500 (saved)");
}

#[test]
fn poll_command_clamps_and_reports() {
    let mut a = app();
    a.execute_command("poll");
    assert_eq!(a.status, "live poll interval: 3s  (:poll <1-30>)");
    let r = a.execute_command("poll 99");
    assert!(matches!(r.as_slice(), [Effect::SaveConfig]));
    assert_eq!(a.config.defaults.live_poll_secs, 30);
    a.config_saved(Err("disk full".into()));
    assert_eq!(a.status, "live poll interval → 30s (not saved: disk full)");
    a.execute_command("poll x");
    assert_eq!(a.status, "poll must be seconds (1–30)");
}

#[test]
fn context_command_with_unknown_cluster() {
    let mut a = app();
    let r = a.execute_command("context nowhere");
    assert!(r.is_empty());
    assert_eq!(a.status, "cluster 'nowhere' not found (available: local)");
}

#[test]
fn filter_dialog_sets_table_filter() {
    let mut a = connected_app();
    a.on_worker_msg(WorkerMsg::Topics(Ok(vec![topic("orders"), topic("payments")])));
    a.handle_event(Key::Char('/'), 0);
    assert!(matches!(a.modal, Some(Modal::Filter)));
    type_text(&mut a, "ord");
    a.handle_event(Key::Backspace, 0);
    a.handle_event(Key::Enter, 0);
    assert!(a.modal.is_none());
    match a.current() {
        ViewStack::Topics(v) => assert_eq!(v.table.filter, "or"),
        _ => panic!("not on topics"),
    }
}

#[test]
fn create_topic_dialog_checks_fields() {
    let mut a = connected_app();
    a.handle_event(Key::Char('c'), 0);
    assert!(matches!(&a.modal, Some(Modal::CreateTopic { partitions, .. }) if partitions == "3"));
    a.handle_event(Key::Enter, 0);
    assert_eq!(a.status, "topic name is required");
    assert!(a.modal.is_some());
    type_text(&mut a, " new-topic ");
    a.handle_event(Key::Tab, 0);
    a.handle_event(Key::Backspace, 0);
    type_text(&mut a, "0");
    a.handle_event(Key::Enter, 0);
    assert_eq!(a.status, "partitions must be a positive number");
    a.handle_event(Key::Backspace, 0);
    type_text(&mut a, "6");
    let r = a.handle_event(Key::Enter, 0);
    assert!(a.modal.is_none());
    match r.as_slice() {
        [Effect::CreateTopic { name, partitions }] => {
            assert_eq!(name, "new-topic");
            assert_eq!(*partitions, 6);
        },
        _ => panic!("expected create"),
    }
    assert_eq!(a.status, "creating topic new-topic…");
}

#[test]
fn escape_closes_dialog() {
    let mut a = app();
    a.handle_event(Key::Char(':'), 0);
    type_text(&mut a, "abc");
    a.handle_event(Key::Esc, 0);
    assert!(a.modal.is_none());
    assert_eq!(a.command_buf, "");
}

#[test]
fn internal_topics_cannot_be_deleted() {
    let mut a = connected_app();
    a.on_worker_msg(WorkerMsg::Topics(Ok(vec![topic("__consumer_offsets")])));
    a.handle_event(Key::Char('d'), 0);
    assert_eq!(a.status, "cannot delete internal topics");
    assert!(a.modal.is_none());
}

#[test]
fn delete_topic_needs_confirmation() {
    let mut a = connected_app();
    a.on_worker_msg(WorkerMsg::Topics(Ok(vec![topic("orders")])));
    a.handle_event(Key::Char('d'), 0);
    assert!(matches!(&a.modal, Some(Modal::DeleteConfirm { topic }) if topic == "orders"));
    let r = a.handle_event(Key::Char('x'), 0);
    assert!(r.is_empty());
    assert!(a.modal.is_some());
    let r = a.handle_event(Key::Char('y'), 0);
    assert!(matches!(r.as_slice(), [Effect::DeleteTopic { name }] if name == "orders"));
    assert!(a.modal.is_none());
}

#[test]
fn live_group_cannot_be_deleted() {
    let mut a = connected_app();
    a.handle_event(Key::Char('2'), 0);
    let g = ConsumerGroupInfo {
        id: "g1".into(),
        state: "Stable".into(),
        members: 2,
        protocol: "range".into(),
        protocol_type: "consumer".into(),
    };
    a.on_worker_msg(WorkerMsg::Groups(Ok(vec![g])));
    a.handle_event(Key::Char('d'), 0);
    assert_eq!(a.status, "cannot delete: group is Stable (must be Empty/Dead)");
    assert!(a.modal.is_none());
}

#[test]
fn opening_messages_and_following_live() {
    let mut a = connected_app();
    a.on_worker_msg(WorkerMsg::Topics(Ok(vec![topic("orders")])));
    let r = a.handle_event(Key::Enter, 0);
    assert!(matches!(r.as_slice(), [Effect::OpenMessages { topic }] if topic == "orders"));
    let r = a.messages_opened("orders".into(), Ok(vec![0, 1]));
    assert!(matches!(r.as_slice(), [Effect::FetchMessages { from_end: true, limit: 100, .. }]));
    a.on_worker_msg(WorkerMsg::Messages { topic: "orders".into(), result: Ok(vec![msg(0, 5), msg(1, 7)]) });
    assert_eq!(a.status, "2 messages");
    let r = a.handle_event(Key::Char('f'), 0);
    assert!(r.is_empty());
    assert_eq!(a.status, "live on · poll every 3s (f off, [/] interval)");
    let r = a.tick(10_000);
    match r.as_slice() {
        [Effect::PollLive { topic, after, max_messages, .. }] => {
            assert_eq!(topic, "orders");
            assert_eq!(*max_messages, 100);
            assert_eq!(after.len(), 2);
        },
        _ => panic!("expected a live poll"),
    }
    assert!(a.tick(20_000).is_empty());
    a.on_worker_msg(WorkerMsg::LiveMessages { topic: "orders".into(), result: Ok(vec![msg(0, 6)]) });
    assert_eq!(a.status, "live · 3 msgs (+1) · 3s");
    assert!(a.tick(11_000).is_empty());
    assert_eq!(a.tick(13_000).len(), 1);
}

#[test]
fn message_limit_keys_step_by_fifty() {
    let mut a = connected_app();
    a.on_worker_msg(WorkerMsg::Topics(Ok(vec![topic("orders")])));
    a.handle_event(Key::Enter, 0);
    a.messages_opened("orders".into(), Ok(vec![0]));
    let r = a.handle_event(Key::Char('+'), 0);
    assert!(matches!(r.as_slice(), [Effect::SaveConfig]));
    assert_eq!(a.config.defaults.message_limit, 150);
    a.handle_event(Key::Char('-'), 0);
    a.handle_event(Key::Char('-'), 0);
    a.handle_event(Key::Char('-'), 0);
    assert_eq!(a.config.defaults.message_limit, 10);
}

#[test]
fn theme_key_cycles_palette() {
    let mut a = app();
    a.handle_event(Key::Char('T'), 0);
    assert_eq!(a.status, "theme: cream");
    a.handle_event(Key::Char('T'), 0);
    assert_eq!(a.status, "theme: mono");
}

#[test]
fn partitions_popup_closes_with_escape() {
    let mut a = connected_app();
    a.partitions_shown("orders", Ok(vec![PartitionInfo { id: 0, leader: 1, replicas: vec![1, 2], isr: vec![1] }]));
    assert!(a.show_partitions_popup);
    a.handle_event(Key::Char('j'), 0);
    assert!(a.show_partitions_popup);
    a.handle_event(Key::Esc, 0);
    assert!(!a.show_partitions_popup);
}

#[test]
fn partition_table_is_padded() {
    let lines = format_partitions(&[PartitionInfo { id: 0, leader: 1, replicas: vec![1, 2], isr: vec![1] }]);
    assert_eq!(lines[0], "PART  LEADER  REPLICAS           ISR");
    assert_eq!(lines[2], "   0       1  [                1,                 2]  [                1]");
}

#[test]
fn reset_specs_parse() {
    assert_eq!(parse_reset_spec(" Earliest "), Ok(ResetStrategy::Earliest));
    assert_eq!(parse_reset_spec("latest"), Ok(ResetStrategy::Latest));
    assert_eq!(parse_reset_spec("offset:42"), Ok(ResetStrategy::ToOffset(42)));
    assert_eq!(parse_reset_spec("offset= 7"), Ok(ResetStrategy::ToOffset(7)));
    assert_eq!(parse_reset_spec("timestamp:1700000000000"), Ok(ResetStrategy::ToTimestamp(1700000000000)));
    assert_eq!(parse_reset_spec("ts:5"), Ok(ResetStrategy::ToTimestamp(5)));
    assert_eq!(parse_reset_spec("offset:x"), Err("invalid offset 'x', expected integer".to_string()));
    assert_eq!(parse_reset_spec("ts:y"), Err("invalid timestamp 'y', expected unix millis".to_string()));
    assert_eq!(
        parse_reset_spec("soon"),
        Err("invalid spec 'soon'; use earliest | latest | offset:N | timestamp:UNIX_MS".to_string())
    );
}

#[test]
fn marking_twice_unmarks() {
    let mut a = connected_app();
    a.on_worker_msg(WorkerMsg::Topics(Ok(vec![topic("orders"), topic("payments")])));
    a.handle_event(Key::Char(' '), 0);
    assert_eq!(a.status, "1 topic(s) marked (Space toggle, D clear)");
    a.handle_event(Key::Char(' '), 0);
    assert_eq!(a.status, "mark cleared");
    match a.current() {
        ViewStack::Topics(v) => assert!(v.table.marked.is_empty()),
        _ => panic!("not on topics"),
    }
}

#[test]
fn label_dialog_needs_a_topic() {
    let mut a = connected_app();
    a.on_worker_msg(WorkerMsg::Topics(Ok(vec![])));
    a.handle_event(Key::Char('L'), 0);
    assert_eq!(a.status, "select topic(s) first");
    a.on_worker_msg(WorkerMsg::Topics(Ok(vec![topic("orders")])));
    a.handle_event(Key::Char('L'), 0);
    assert!(matches!(&a.modal, Some(Modal::TopicLabel { add: true, topic_count: 1, .. })));
    type_text(&mut a, "Billing");
    let r = a.handle_event(Key::Enter, 0);
    assert!(matches!(r.as_slice(), [Effect::SaveConfig]));
    assert_eq!(a.config.topic_labels.labels_for("local", "orders"), vec!["billing"]);
}

#[test]
fn poll_interval_stays_within_bounds() {
    let mut a = connected_app();
    a.on_worker_msg(WorkerMsg::Topics(Ok(vec![topic("orders")])));
    a.handle_event(Key::Enter, 0);
    a.messages_opened("orders".into(), Ok(vec![0]));
    for _ in 0..5 {
        a.handle_event(Key::Char('['), 0);
    }
    assert_eq!(a.config.defaults.live_poll_secs, 1);
    for _ in 0..40 {
        a.handle_event(Key::Char(']'), 0);
    }
    assert_eq!(a.config.defaults.live_poll_secs, 30);
}

#[test]
fn schema_versions_reply_loads_latest() {
    let mut cfg = AppConfig::default_with_example();
    cfg.clusters[0].1.schema_registry = Some(y2kexplorer::config::SchemaRegistryConfig {
        url: "http://sr".into(),
        username: None,
        password: None,
        tls: false,
    });
    let mut a = App::new(cfg, None, None).unwrap();
    a.handle_event(Key::Char('6'), 0);
    let r = a.open_schema_detail("orders-value".into());
    assert!(matches!(r.as_slice(), [Effect::SchemaVersions { subject }] if subject == "orders-value"));
    let r = a.on_worker_msg(WorkerMsg::SchemaVersions { subject: "orders-value".into(), result: Ok(vec![3, 1, 2]) });
    assert!(matches!(r.as_slice(), [Effect::SchemaVersion { version: 3, .. }]));
    assert_eq!(a.status, "loading orders-value v3…");
}

#[test]
fn offsets_reply_reports_lag() {
    let mut a = connected_app();
    let o = |p: i32, lag: i64| y2kexplorer::kafka::GroupOffset {
        topic: "orders".into(),
        partition: p,
        current_offset: Some(1),
        log_end_offset: 1 + lag,
        lag,
    };
    let info = ConsumerGroupInfo {
        id: "g1".into(),
        state: "Empty".into(),
        members: 0,
        protocol: String::new(),
        protocol_type: "consumer".into(),
    };
    a.on_worker_msg(WorkerMsg::GroupOffsets { group: "g1".into(), result: Ok((info, vec![o(0, 4), o(1, 6)])) });
    assert_eq!(a.status, "g1 · Empty · 2 part · total lag 10");
}
