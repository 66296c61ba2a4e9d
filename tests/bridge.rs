use codex_acp::bridge::{
    after_client_write, complete_read, complete_write, plan_bridge_request, BridgeAction, BridgeOp,
    BridgeRequest, ClientFailure, WriteFollowUp,
};

fn req(op: BridgeOp, path: &str, content: Option<&str>) -> BridgeRequest {
    BridgeRequest {
        id: 7,
        session_id: "fs".to_string(),
        op,
        path: path.to_string(),
        line: None,
        limit: None,
        content: content.map(|c| c.to_string()),
    }
}

#[test]
fn escaping_read_is_answered_with_error() {
    match plan_bridge_request("/w", &req(BridgeOp::Read, "../../etc/passwd", None)) {
        BridgeAction::Reply(r) => {
            assert_eq!(r.id, 7);
            assert!(!r.success);
            assert_eq!(r.content, None);
            assert_eq!(r.error.as_deref(), Some("path escapes workspace root"));
        }
        _ => panic!("expected an immediate reply"),
    }
}

#[test]
fn write_without_content_is_refused() {
    match plan_bridge_request("/w", &req(BridgeOp::Write, "a.txt", None)) {
        BridgeAction::Reply(r) => assert_eq!(r.error.as_deref(), Some("missing content for write")),
        _ => panic!("expected an immediate reply"),
    }
}

#[test]
fn reads_and_writes_go_to_resolved_paths() {
    match plan_bridge_request("/w", &req(BridgeOp::Read, "src/../a.txt", None)) {
        BridgeAction::Read { path, .. } => assert_eq!(path, "/w/a.txt"),
        _ => panic!("expected a read"),
    }
    match plan_bridge_request("/w", &req(BridgeOp::Write, "b.txt", Some("x"))) {
        BridgeAction::Write { path, content } => {
            assert_eq!(path, "/w/b.txt");
            assert_eq!(content, "x");
        }
        _ => panic!("expected a write"),
    }
}

#[test]
fn completions_carry_results() {
    let ok = complete_read(3, Ok("text".to_string()));
    assert!(ok.success);
    assert_eq!(ok.content.as_deref(), Some("text"));
    let err = complete_write(4, Err("disk full".to_string()));
    assert_eq!(err.id, 4);
    assert!(!err.success);
    assert_eq!(err.error.as_deref(), Some("disk full"));
    assert!(complete_write(5, Ok(())).success);
}

#[test]
fn read_only_refusal_is_not_written_locally() {
    let refused = ClientFailure {
        message: "Invalid params".to_string(),
        data: Some("write_text_file is disabled while session mode is read-only".to_string()),
    };
    match after_client_write(Err(refused)) {
        WriteFollowUp::Fail(m) => assert_eq!(m, "write_text_file is disabled while session mode is read-only"),
        _ => panic!("a read-only refusal must not fall back to disk"),
    }
    let other = ClientFailure { message: "client gone".to_string(), data: None };
    assert!(matches!(after_client_write(Err(other)), WriteFollowUp::WriteLocally));
    let unknown = ClientFailure {
        message: "Invalid params".to_string(),
        data: Some("unknown session for write_text_file".to_string()),
    };
    assert!(matches!(after_client_write(Err(unknown)), WriteFollowUp::WriteLocally));
    assert!(matches!(after_client_write(Ok(())), WriteFollowUp::Done));
}
