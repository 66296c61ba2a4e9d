use codex_acp::bridge::slice_lines;
use codex_acp::read::{
    build_file_read_hint, prepare_read_snippet, read_bounds, render_read,
    truncate_to_char_boundary,
};

fn numbered(n: u32) -> String {
    let lines: Vec<String> = (1..=n).map(|i| format!("line {i}")).collect();
    lines.join("\n")
}

#[test]
fn paged_read_of_long_file() {
    let file = numbered(2000);
    let b = read_bounds(Some(1), Some(1000));
    assert_eq!((b.start_line, b.requested_limit, b.bridge_limit), (1, 1000, 1001));
    let raw = slice_lines(&file, Some(1), Some(b.bridge_limit));
    let r = render_read(&raw, &b);
    let expected_head = numbered(1000);
    assert!(r.text.starts_with(&expected_head));
    assert!(r.text.ends_with(
        "<file-read-info>Read lines 1-1000 (showing up to 1000 lines) Continue with line=1001 limit=1000.</file-read-info>"
    ));
    assert_eq!(r.next_line, Some(1001));
    assert!(r.truncated);
    assert!(r.truncated_by_line_limit);
    assert_eq!(r.lines_returned, 1000);
    assert_eq!(r.end_line, 1000);
    assert_eq!(r.max_bytes, None);
}

#[test]
fn short_file_is_read_whole() {
    let b = read_bounds(None, None);
    assert_eq!((b.start_line, b.requested_limit), (1, 1000));
    let r = render_read("a\nb\n", &b);
    assert_eq!(r.text, "a\nb\n");
    assert!(!r.truncated);
    assert_eq!(r.next_line, None);
    assert_eq!(r.bytes_returned, 4);
}

#[test]
fn byte_cap_cuts_on_char_boundary() {
    let s = prepare_read_snippet("ab\néé\nz", 5, 10, 5);
    assert_eq!(s.text, "ab\né");
    assert!(s.truncated_by_bytes);
    assert!(s.additional_lines_available);
    assert_eq!(s.lines_returned, 2);
    assert_eq!(s.end_line, 6);
    assert_eq!(s.bytes_returned, 5);
    let hint = build_file_read_hint(&s, 5, 10, 5).unwrap();
    assert_eq!(
        hint,
        "<file-read-info>Read lines 5-6 (hit 5 byte cap) Continue with line=7 limit=10.</file-read-info>"
    );
}

#[test]
fn empty_read_gives_empty_snippet() {
    let s = prepare_read_snippet("", 3, 10, 100);
    assert_eq!(s.text, "");
    assert_eq!(s.end_line, 2);
    assert_eq!(build_file_read_hint(&s, 3, 10, 100), None);
}

#[test]
fn truncation_respects_utf8_boundaries() {
    assert_eq!(truncate_to_char_boundary("aé", 2), 1);
    assert_eq!(truncate_to_char_boundary("aé", 3), 3);
    assert_eq!(truncate_to_char_boundary("aé", 10), 3);
    assert_eq!(truncate_to_char_boundary("€", 2), 0);
}

#[test]
fn line_window_of_local_read() {
    assert_eq!(slice_lines("a\r\nb\nc\n", Some(2), Some(5)), "b\nc");
    assert_eq!(slice_lines("a\nb", Some(9), Some(1)), "");
    assert_eq!(slice_lines("a\nb", None, Some(1)), "a\nb");
    assert_eq!(slice_lines("a\nb\nc", Some(0), Some(2)), "a\nb");
}
