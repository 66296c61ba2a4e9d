use codex_acp::edits::{
    apply_edits, choose_write_content, format_diff_for_path, is_missing_file_error, plan_edits, render_diff,
    EditError, EditInstruction, EditPlan, StagedEdits,
};

fn edit(old: &str, new: &str, all: bool) -> EditInstruction {
    EditInstruction { old_text: old.to_string(), new_text: new.to_string(), replace_all: all }
}

#[test]
fn replaces_first_occurrence_only() {
    let r = apply_edits("a b a", &[edit("a", "x", false)]);
    assert_eq!(r, Ok("x b a".to_string()));
}

#[test]
fn replace_all_replaces_every_occurrence() {
    let r = apply_edits("a b a", &[edit("a", "x", true)]);
    assert_eq!(r, Ok("x b x".to_string()));
}

#[test]
fn replace_all_is_non_overlapping() {
    let r = apply_edits("aaa", &[edit("aa", "b", true)]);
    assert_eq!(r, Ok("ba".to_string()));
}

#[test]
fn edits_apply_in_sequence() {
    let r = apply_edits("one two", &[edit("one", "two", false), edit("two two", "done", false)]);
    assert_eq!(r, Ok("done".to_string()));
}

#[test]
fn empty_old_string_is_refused() {
    let r = apply_edits("abc", &[edit("", "x", false)]);
    assert_eq!(r, Err(EditError::EmptyOldString));
    assert_eq!(
        EditError::EmptyOldString.message(),
        "the provided `old_string` is empty. No edits were applied."
    );
}

#[test]
fn later_failure_discards_earlier_edits() {
    let r = apply_edits("abc", &[edit("a", "z", false), edit("nope", "x", false)]);
    assert_eq!(r, Err(EditError::OldStringNotFound));
}

#[test]
fn replace_all_with_same_text_succeeds() {
    let r = apply_edits("abc", &[edit("b", "b", true)]);
    assert_eq!(r, Ok("abc".to_string()));
    match plan_edits("f.txt", "ab", &[edit("ab", "ab", true)]) {
        EditPlan::Unchanged => {}
        _ => panic!("expected no change"),
    }
}

#[test]
fn replace_all_of_absent_text_is_refused() {
    let r = apply_edits("abc", &[edit("z", "y", true)]);
    assert_eq!(r, Err(EditError::OldStringNotFound));
}

#[test]
fn multibyte_text_is_edited_by_characters() {
    let r = apply_edits("héllo wörld", &[edit("ö", "o", false)]);
    assert_eq!(r, Ok("héllo world".to_string()));
}

#[test]
fn edit_with_missing_old_string_keeps_staged_content() {
    let mut staged = StagedEdits::new();
    staged.stage("".to_string(), "abc\n".to_string());
    let base = staged.get("").unwrap();
    match plan_edits("", &base, &[edit("xyz", "q", false)]) {
        EditPlan::Rejected(e) => assert_eq!(
            e.message(),
            "The provided `old_string` does not appear in the file. No edits were applied."
        ),
        _ => panic!("edit should be rejected"),
    }
    assert_eq!(staged.get("").as_deref(), Some("abc\n"));
}

#[test]
fn unchanged_plan_when_edit_is_identity() {
    match plan_edits("f.txt", "abc", &[edit("b", "b", false)]) {
        EditPlan::Unchanged => {}
        _ => panic!("expected no change"),
    }
}

#[test]
fn diff_reported_applies_back_to_the_edited_content() {
    let before = "one\ntwo\nthree\n";
    let plan = plan_edits("notes.txt", before, &[edit("two", "2", false)]);
    let (content, diff) = match plan {
        EditPlan::Write { content, diff } => (content, diff),
        _ => panic!("expected a write"),
    };
    assert_eq!(content, "one\n2\nthree\n");
    assert!(diff.starts_with("--- notes.txt\n+++ notes.txt\n"));
    let body = diff.splitn(3, '\n').nth(2).unwrap();
    let patch = diffy::Patch::from_str(body).unwrap();
    assert_eq!(diffy::apply(before, &patch).unwrap(), content);
}

#[test]
fn diff_of_identical_text_has_no_hunks() {
    let d = format_diff_for_path("p", "same\n", "same\n");
    assert!(!d.contains("@@"));
}

#[test]
fn render_diff_frames_or_reports_nothing() {
    assert_eq!(render_diff("a.rs", "  \n"), "No textual differences for a.rs.");
    assert_eq!(render_diff("a.rs", "@@ -1 +1 @@\n"), "--- a.rs\n+++ a.rs\n@@ -1 +1 @@\n");
}

#[test]
fn staging_keeps_latest_content_per_path() {
    let mut s = StagedEdits::new();
    assert_eq!(s.get("a"), None);
    s.stage("a".to_string(), "1".to_string());
    s.stage("b".to_string(), "2".to_string());
    s.stage("a".to_string(), "3".to_string());
    assert_eq!(s.get("a").as_deref(), Some("3"));
    assert_eq!(s.get("b").as_deref(), Some("2"));
}

#[test]
fn missing_file_errors_are_recognized() {
    assert!(is_missing_file_error("failed to read /x: No such file or directory (os error 2)"));
    assert!(is_missing_file_error("Resource NOT FOUND"));
    assert!(!is_missing_file_error("permission denied"));
}

#[test]
fn writes_prefer_staged_content_when_empty_or_equal() {
    assert_eq!(choose_write_content(Some("s".to_string()), String::new()), ("s".to_string(), true));
    assert_eq!(choose_write_content(Some("s".to_string()), "s".to_string()), ("s".to_string(), true));
    assert_eq!(choose_write_content(Some("s".to_string()), "t".to_string()), ("t".to_string(), false));
    assert_eq!(choose_write_content(None, String::new()), (String::new(), false));
}
