use codex_acp::reasoning::ReasoningAggregator;

#[test]
fn take_text_none_when_empty() {
    let mut r = ReasoningAggregator::new();
    assert_eq!(r.take_text(), None, "empty aggregator should return None");
}

#[test]
fn append_and_take_single_section() {
    let mut r = ReasoningAggregator::new();
    r.append_delta("hello");
    r.append_delta(" world  ");
    let out = r.take_text();
    assert_eq!(out.as_deref(), Some("hello world"));
    assert_eq!(r.take_text(), None);
}

#[test]
fn multiple_sections_joined_with_blank_line() {
    let mut r = ReasoningAggregator::new();
    r.append_delta("first line");
    r.append_delta("\nmore");
    r.section_break();
    r.append_delta("second");
    r.append_delta(" section  ");
    let out = r.take_text().unwrap();
    assert_eq!(out, "first line\nmore\n\nsecond section");
}

#[test]
fn empty_sections_are_skipped_on_aggregation() {
    let mut r = ReasoningAggregator::new();
    r.append_delta("   \n  ");
    r.section_break();
    r.append_delta("actual");
    r.append_delta(" content  ");
    let out = r.take_text().unwrap();
    assert_eq!(out, "actual content");
}

#[test]
fn choose_final_text_prefers_longer_final() {
    let mut r = ReasoningAggregator::new();
    r.append_delta("short");
    r.section_break();
    let chosen = r.choose_final_text(Some("this is longer".to_string()));
    assert_eq!(chosen.as_deref(), Some("this is longer"));
}

#[test]
fn choose_final_text_prefers_aggregated_when_longer() {
    let mut r = ReasoningAggregator::new();
    r.append_delta("alpha");
    r.section_break();
    r.append_delta("beta gamma");
    let chosen = r.choose_final_text(Some("short".to_string()));
    assert_eq!(chosen.as_deref(), Some("alpha\n\nbeta gamma"));
}

#[test]
fn choose_final_text_handles_only_final() {
    let mut r = ReasoningAggregator::new();
    let chosen = r.choose_final_text(Some("only final".to_string()));
    assert_eq!(chosen.as_deref(), Some("only final"));
}

#[test]
fn choose_final_text_handles_both_none() {
    let mut r = ReasoningAggregator::new();
    r.section_break();
    let chosen = r.choose_final_text(None);
    assert_eq!(chosen, None);
}

#[test]
fn take_text_trims_trailing_whitespace_and_preserves_internal_newlines() {
    let mut r = ReasoningAggregator::new();
    r.append_delta("line1  ");
    r.append_delta("\nline2\t\n");
    r.section_break();
    r.append_delta("  line3");
    r.append_delta("\n\nline4   ");
    let out = r.take_text().unwrap();
    assert_eq!(out, "line1  \nline2\n\n  line3\n\nline4");
}

#[test]
fn repeated_take_after_sections_is_none() {
    let mut r = ReasoningAggregator::new();
    r.append_delta("one");
    r.section_break();
    r.append_delta("two  ");
    r.section_break();
    let first = r.choose_final_text(None);
    assert_eq!(first.as_deref(), Some("one\n\ntwo"));
    assert_eq!(r.take_text(), None);
    assert_eq!(r.choose_final_text(None), None);
}

#[test]
fn final_text_of_equal_trimmed_length_keeps_aggregate() {
    let mut r = ReasoningAggregator::new();
    r.append_delta("abc");
    let chosen = r.choose_final_text(Some("  xyz  ".to_string()));
    assert_eq!(chosen.as_deref(), Some("abc"));
}

#[test]
fn final_text_compares_utf8_lengths() {
    let mut r = ReasoningAggregator::new();
    r.append_delta("abc");
    // two characters, four bytes: longer in bytes than the three-byte aggregate
    let chosen = r.choose_final_text(Some("éé".to_string()));
    assert_eq!(chosen.as_deref(), Some("éé"));
}

#[test]
fn reset_discards_everything() {
    let mut r = ReasoningAggregator::new();
    r.append_delta("kept?");
    r.section_break();
    r.append_delta("no");
    r.reset();
    assert_eq!(r.take_text(), None);
}

#[test]
fn unicode_whitespace_is_trimmed() {
    let mut r = ReasoningAggregator::new();
    r.append_delta("text\u{3000}\u{a0}");
    assert_eq!(r.take_text().as_deref(), Some("text"));
}

#[test]
fn inner_trailing_spaces_of_a_section_are_kept() {
    let mut r = ReasoningAggregator::new();
    r.append_delta("a \nb  ");
    assert_eq!(r.take_text().as_deref(), Some("a \nb"));
}

#[test]
fn blank_final_text_without_aggregate_gives_nothing() {
    let mut r = ReasoningAggregator::new();
    assert_eq!(r.choose_final_text(Some(" \n ".to_string())), None);
    let mut r = ReasoningAggregator::new();
    r.append_delta("  ");
    assert_eq!(r.choose_final_text(Some("\t".to_string())), None);
}
