use y2kexplorer::help::{footer_lines, pack_help};

fn line_text(l: &y2kexplorer::styled::StyledLine) -> String {
    l.spans.iter().map(|s| s.text.clone()).collect()
}

#[test]
fn footer_lines_respects_terminal_height() {
    assert_eq!(footer_lines(&["q", "quit"], 80, 8, true), 1);
    assert!(footer_lines(&["q", "quit"], 80, 24, true) >= 1);
}

#[test]
fn packs_into_multiple_lines_when_narrow() {
    let pairs = &["j/k", "nav", "Enter", "open", "q", "quit"];
    let lines = pack_help(pairs, 28, 4);
    assert!(lines.len() >= 2);
}

#[test]
fn shows_overflow_when_too_many_for_height() {
    let pairs = &["a", "1", "b", "2", "c", "3", "d", "4", "e", "5", "f", "6", "g", "7"];
    let lines = pack_help(pairs, 24, 1);
    assert_eq!(lines.len(), 1);
    let text = line_text(&lines[0]);
    assert!(text.contains("…"));
}

#[test]
fn wide_footer_fits_on_one_line() {
    let lines = pack_help(&["q", "quit"], 80, 3);
    assert_eq!(lines.len(), 1);
}
