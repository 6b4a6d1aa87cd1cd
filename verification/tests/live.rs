use y2kexplorer::kafka::FetchedMessage;
use y2kexplorer::messages::MessagesView;

fn at(partition: i32, offset: i64, ts: Option<i64>, payload: &str) -> FetchedMessage {
    FetchedMessage { partition, offset, timestamp_ms: ts, key: None, payload: Some(payload.to_string()), headers: vec![] }
}

#[test]
fn live_append_keeps_first_rows_in_display_order() {
    let mut v = MessagesView::new("t".to_string(), 3);
    v.messages = vec![at(0, 1, Some(10), "old")];
    // the repeated position keeps the copy read first; equal timestamps stay in position order
    let added = v.append_live(
        vec![at(0, 1, Some(10), "again"), at(1, 5, Some(20), "a"), at(0, 2, Some(20), "b"), at(2, 0, Some(5), "c")],
        3,
        true,
        false,
    );
    let shown: Vec<(i32, i64)> = v.messages.iter().map(|m| (m.partition, m.offset)).collect();
    assert_eq!(shown, vec![(0, 2), (1, 5), (0, 1)]);
    assert_eq!(v.messages[2].payload.as_deref(), Some("old"));
    assert_eq!(added, 2);
    assert_eq!(v.selected, Some(0));
    assert_eq!(v.append_live(vec![], 3, true, false), 0);
}
