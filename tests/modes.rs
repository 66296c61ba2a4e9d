use std::collections::HashSet;

use codex_acp::session::is_read_only_mode;
use codex_acp::modes::{
    available_modes, current_mode_id_for_config, find_preset_by_mode_id, ApprovalPolicy,
    ApprovalPreset, SandboxMode,
};

fn preset(id: &str, label: &str, description: &str, approval: ApprovalPolicy, sandbox: SandboxMode) -> ApprovalPreset {
    ApprovalPreset {
        id: id.to_string(),
        label: label.to_string(),
        description: description.to_string(),
        approval,
        sandbox,
    }
}

/// Three modes of the backend, the one with the widest access first.
fn presets() -> Vec<ApprovalPreset> {
    vec![
        preset("full-access", "Full Access", "Can edit files outside the workspace and use the network.", ApprovalPolicy::Never, SandboxMode::FullAccess),
        preset("read-only", "Read Only", "Can read files; asks before editing or running commands.", ApprovalPolicy::OnRequest, SandboxMode::ReadOnly),
        preset("auto", "Auto", "Can read and edit files in the workspace and run commands.", ApprovalPolicy::OnRequest, SandboxMode::WorkspaceWrite),
    ]
}

#[test]
fn current_mode_id_for_config_matches_read_only_if_available() {
    let ps = presets();
    if let Some(ro) = ps.iter().find(|p| p.id == "read-only") {
        let mid = current_mode_id_for_config(&ps, ro.approval, ro.sandbox);
        assert_eq!(mid.as_deref(), Some("read-only"));
    }
}

#[test]
fn current_mode_id_for_config_none_on_mismatch() {
    let ps = presets();
    if ps.len() >= 2 {
        let a = &ps[0];
        let b = &ps[1];
        let mid = current_mode_id_for_config(&ps, a.approval, b.sandbox);
        assert!(mid.is_none(), "expected None for mismatched approval/sandbox");
    }
}

#[test]
fn available_modes_match_presets() {
    let ps = presets();
    assert!(!ps.is_empty(), "approval presets must not be empty");
    let available = available_modes(&ps);
    assert_eq!(available.len(), ps.len(), "available_modes length should match presets length");
    let preset_ids: HashSet<String> = ps.iter().map(|p| p.id.clone()).collect();
    let mode_ids: HashSet<String> = available.iter().map(|m| m.id.clone()).collect();
    assert_eq!(preset_ids, mode_ids, "available mode IDs must equal preset IDs");
    for m in available {
        assert!(!m.name.trim().is_empty(), "mode name should not be empty for id={}", m.id);
        assert!(!m.description.trim().is_empty(), "mode description should not be empty for id={}", m.id);
    }
}

#[test]
fn available_modes_non_empty() {
    let available = available_modes(&presets());
    assert!(!available.is_empty(), "available_modes should not be empty");
    for m in available {
        assert!(!m.name.trim().is_empty(), "mode name should not be empty for id={}", m.id);
        assert!(!m.description.trim().is_empty(), "mode description should not be empty for id={}", m.id);
    }
}

fn roundtrip() {
    let ps = presets();
    for mode in available_modes(&ps) {
        let found = find_preset_by_mode_id(&ps, &mode.id);
        assert!(found.is_some(), "find_preset_by_mode_id should return Some for id={}", mode.id);
        let p = found.unwrap();
        assert_eq!(p.id, mode.id, "preset id should match mode id");
        assert_eq!(mode.name, p.label, "mode name should match preset label");
        assert_eq!(mode.description, p.description, "mode description should match preset description");
    }
    assert!(find_preset_by_mode_id(&ps, "no-such-mode").is_none());
}

#[test]
fn modes_test_find_preset_roundtrip() {
    roundtrip();
}

#[test]
fn session_modes_test_find_preset_roundtrip() {
    roundtrip();
}

fn unique_ids() {
    let available = available_modes(&presets());
    let mut uniq = HashSet::new();
    for mode in &available {
        assert!(uniq.insert(mode.id.clone()), "duplicate mode id encountered: {}", mode.id);
    }
    assert_eq!(uniq.len(), available.len(), "unique mode id count should match available modes count");
}

#[test]
fn modes_test_mode_ids_unique() {
    unique_ids();
}

#[test]
fn session_modes_test_mode_ids_unique() {
    unique_ids();
}

fn read_only_detection() {
    assert!(is_read_only_mode("read-only"));
    let non_read_only = available_modes(&presets()).into_iter().map(|m| m.id).find(|id| id != "read-only");
    if let Some(id) = non_read_only {
        assert!(!is_read_only_mode(&id), "expected false for non-read-only id={}, got true", id);
    }
}

#[test]
fn modes_test_is_read_only_detection() {
    read_only_detection();
}

#[test]
fn session_modes_test_is_read_only_detection() {
    read_only_detection();
}
