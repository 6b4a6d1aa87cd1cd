use y2kexplorer::detail::{lines_of, message_detail_lines, payload_lines};
use y2kexplorer::kafka::FetchedMessage;
use y2kexplorer::messages::{format_timestamp, message_clipboard_text, truncate, try_pretty_json};
use y2kexplorer::styled::{SpanStyle, StyledLine};

fn texts(lines: &[StyledLine]) -> Vec<String> {
    lines.iter().map(|l| l.spans.iter().map(|s| s.text.clone()).collect()).collect()
}

#[test]
fn text_lines_like_str_lines() {
    assert_eq!(lines_of("a\nb\r\n\nc\n"), vec!["a", "b", "", "c"]);
    assert!(lines_of("").is_empty());
    assert_eq!(lines_of("x"), vec!["x"]);
}

#[test]
fn payload_lines_pretty_prints_json() {
    assert_eq!(texts(&payload_lines("", false)), vec!["<empty>"]);
    assert_eq!(texts(&payload_lines("{\"a\":1}", true)), vec!["{", "  \"a\": 1", "}"]);
    assert_eq!(texts(&payload_lines("{\"a\":1}", false)), vec!["{\"a\":1}"]);
    assert_eq!(texts(&payload_lines("not json", true)), vec!["not json"]);
}

#[test]
fn json_pretty_print() {
    assert_eq!(try_pretty_json("  "), None);
    assert_eq!(try_pretty_json("[1,2]"), Some("[\n  1,\n  2\n]".to_string()));
    assert_eq!(try_pretty_json("nope"), None);
}

#[test]
fn timestamps_are_utc() {
    assert_eq!(format_timestamp(0), "1970-01-01 00:00:00.000");
}

#[test]
fn long_text_is_cut_with_ellipsis() {
    assert_eq!(truncate("abcdef", 3), "abc…");
    assert_eq!(truncate("abc", 3), "abc");
}

fn message() -> FetchedMessage {
    FetchedMessage {
        partition: 2,
        offset: 15,
        timestamp_ms: Some(0),
        key: Some("{\"id\":1}".into()),
        payload: None,
        headers: vec![("h".into(), "v".into())],
    }
}

#[test]
fn detail_pane_lines() {
    let lines = message_detail_lines(&message(), true);
    assert_eq!(
        texts(&lines),
        vec![
            "partition 2  offset 15",
            "timestamp 1970-01-01 00:00:00.000",
            "key",
            "{",
            "  \"id\": 1",
            "}",
            "headers",
            "  h: v",
            "payload",
            "<null>",
        ]
    );
    assert_eq!(lines[0].spans[0].style, SpanStyle::Key);
    let plain = message_detail_lines(&message(), false);
    assert_eq!(texts(&plain)[3], "{\"id\":1}");
    assert_eq!(plain[3].spans[0].style, SpanStyle::Value);
}

#[test]
fn clipboard_text_of_message() {
    let m = FetchedMessage {
        partition: 0,
        offset: 1,
        timestamp_ms: None,
        key: None,
        payload: Some("x".into()),
        headers: vec![],
    };
    let t = message_clipboard_text(&m, false);
    assert!(t.starts_with("partition: 0\noffset: 1\n"));
    assert!(t.contains("payload:\nx"));
}
