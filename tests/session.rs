use codex_acp::session::{
    decide_read_text_file, decide_write_text_file, is_custom_provider, is_read_only_mode,
    ClientOpDecision, SessionModeLookup,
};

#[test]
fn is_custom_provider_detection() {
    assert!(!is_custom_provider("openai"));
    assert!(is_custom_provider("anthropic"));
    assert!(is_custom_provider("custom-llm"));
    assert!(is_custom_provider("my-provider"));
    assert!(is_custom_provider(""));
}

#[test]
fn modes_test_is_read_only_mode_basic() {
    assert!(is_read_only_mode("read-only"));
    assert!(!is_read_only_mode("not-read-only"));
}

#[test]
fn session_modes_test_is_read_only_mode_basic() {
    assert!(is_read_only_mode("read-only"));
    assert!(!is_read_only_mode("not-read-only"));
}

fn store() -> SessionModeLookup {
    let mut l = SessionModeLookup::new();
    l.insert("acp-1".to_string(), "fs-1".to_string(), "auto".to_string());
    l.insert("acp-2".to_string(), "fs-2".to_string(), "read-only".to_string());
    l
}

#[test]
fn resolve_acp_session_id_by_acp_and_fs_id() {
    let l = store();
    assert_eq!(l.resolve_acp_session_id("acp-1").as_deref(), Some("acp-1"));
    assert_eq!(l.resolve_acp_session_id("fs-2").as_deref(), Some("acp-2"));
    assert_eq!(l.resolve_acp_session_id("nobody"), None);
}

#[test]
fn current_mode_resolves_fs_ids() {
    let l = store();
    assert_eq!(l.current_mode("fs-1").as_deref(), Some("auto"));
    assert_eq!(l.current_mode("acp-2").as_deref(), Some("read-only"));
    assert!(l.is_read_only("fs-2"));
    assert!(!l.is_read_only("acp-1"));
    assert!(!l.is_read_only("nobody"));
}

#[test]
fn read_only_write_is_rejected() {
    let mut l = SessionModeLookup::new();
    l.insert("s".to_string(), "fs".to_string(), "auto".to_string());
    assert!(l.set_mode("s", "read-only".to_string()));
    match decide_write_text_file(&l, "s") {
        ClientOpDecision::Reject(msg) => {
            assert_eq!(msg, "write_text_file is disabled while session mode is read-only")
        }
        ClientOpDecision::Forward(_) => panic!("write must not be forwarded"),
    }
    match decide_write_text_file(&l, "fs") {
        ClientOpDecision::Reject(msg) => {
            assert_eq!(msg, "write_text_file is disabled while session mode is read-only")
        }
        ClientOpDecision::Forward(_) => panic!("write must not be forwarded"),
    }
}

#[test]
fn writes_forwarded_in_other_modes() {
    let l = store();
    match decide_write_text_file(&l, "fs-1") {
        ClientOpDecision::Forward(id) => assert_eq!(id, "acp-1"),
        ClientOpDecision::Reject(m) => panic!("unexpected rejection {m}"),
    }
    match decide_write_text_file(&l, "ghost") {
        ClientOpDecision::Reject(m) => assert_eq!(m, "unknown session for write_text_file"),
        ClientOpDecision::Forward(_) => panic!("unknown session forwarded"),
    }
}

#[test]
fn reads_resolve_or_fail() {
    let l = store();
    match decide_read_text_file(&l, "fs-2") {
        ClientOpDecision::Forward(id) => assert_eq!(id, "acp-2"),
        ClientOpDecision::Reject(m) => panic!("unexpected rejection {m}"),
    }
    match decide_read_text_file(&l, "ghost") {
        ClientOpDecision::Reject(m) => assert_eq!(m, "unknown session for read_text_file"),
        ClientOpDecision::Forward(_) => panic!("unknown session forwarded"),
    }
}

#[test]
fn insert_replaces_existing_session() {
    let mut l = store();
    l.insert("acp-1".to_string(), "fs-9".to_string(), "read-only".to_string());
    assert_eq!(l.current_mode("acp-1").as_deref(), Some("read-only"));
    assert_eq!(l.resolve_acp_session_id("fs-9").as_deref(), Some("acp-1"));
    assert_eq!(l.resolve_acp_session_id("fs-1"), None);
}

#[test]
fn set_mode_on_unknown_session_changes_nothing() {
    let mut l = store();
    assert!(!l.set_mode("ghost", "read-only".to_string()));
    assert_eq!(l.current_mode("acp-1").as_deref(), Some("auto"));
}

#[test]
fn insert_and_set_mode_leave_other_sessions_alone() {
    let mut l = store();
    l.insert("acp-3".to_string(), "fs-3".to_string(), "full-access".to_string());
    assert_eq!(l.resolve_acp_session_id("fs-3").as_deref(), Some("acp-3"));
    assert_eq!(l.current_mode("fs-1").as_deref(), Some("auto"));
    assert_eq!(l.current_mode("acp-2").as_deref(), Some("read-only"));
    assert!(l.set_mode("fs-3", "auto".to_string()));
    assert_eq!(l.current_mode("acp-3").as_deref(), Some("auto"));
    assert_eq!(l.current_mode("acp-2").as_deref(), Some("read-only"));
    assert_eq!(l.resolve_acp_session_id("fs-2").as_deref(), Some("acp-2"));
}
