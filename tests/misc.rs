use codex_acp::commands::{classify_command, parse_slash_command, CommandKind};
use codex_acp::config::{append_fs_guidance, disabled_fs_tools, session_instructions};
use codex_acp::lifecycle::{auth_methods, decide_authentication, AuthDecision};
use codex_acp::models::{
    available_models_from_profiles, parse_and_validate_model, ModelContext, ModelProfile, ProviderInfo,
    ReasoningEffort,
};
use codex_acp::events::{
    default_permission_options, exec_end_summary, patch_approval_title, patch_diff_contents,
    ExecEndArgs, FileChange, ToolCallStatus,
};

#[test]
fn slash_commands_parse() {
    let c = parse_slash_command("  /Model  gpt-5  ").unwrap();
    assert_eq!(c.name, "model");
    assert_eq!(c.rest, "gpt-5");
    assert_eq!(classify_command(&c.name), CommandKind::Model);
    assert!(parse_slash_command("hello /new").is_none());
    let bare = parse_slash_command("/").unwrap();
    assert_eq!(bare.name, "");
    assert_eq!(classify_command("frobnicate"), CommandKind::Unknown);
    assert_eq!(classify_command("quit"), CommandKind::Quit);
}

#[test]
fn guidance_is_added_once() {
    assert_eq!(append_fs_guidance("Be nice.", "Use acp_fs."), "Be nice.\n\nUse acp_fs.");
    assert_eq!(append_fs_guidance("already acp_fs", "Use acp_fs."), "already acp_fs");
    assert_eq!(append_fs_guidance("  ", "G"), "  G");
    let (b, u) = session_instructions(None, None, "G");
    assert_eq!((b, u.as_deref()), (None, Some("G")));
    let (b, u) = session_instructions(Some("B".to_string()), Some("U".to_string()), "G");
    assert_eq!((b.as_deref(), u.as_deref()), (Some("B\n\nG"), Some("U")));
}

#[test]
fn tools_disabled_by_capabilities() {
    assert_eq!(disabled_fs_tools(true, true), None);
    assert_eq!(disabled_fs_tools(false, true), Some(vec!["read_text_file".to_string()]));
    assert_eq!(
        disabled_fs_tools(true, false),
        Some(vec!["write_text_file".to_string(), "edit_text_file".to_string(), "multi_edit_text_file".to_string()])
    );
}

#[test]
fn authentication_decisions() {
    assert!(matches!(decide_authentication("apikey", true, false, "openai", true), AuthDecision::Accepted));
    assert!(matches!(decide_authentication("chatgpt", true, false, "openai", true), AuthDecision::AuthRequired(_)));
    match decide_authentication("bogus", true, true, "openai", true) {
        AuthDecision::InvalidParams(m) => assert_eq!(m, "unknown auth method: bogus"),
        _ => panic!("expected invalid params"),
    }
    match decide_authentication("custom_provider", true, false, "acme", false) {
        AuthDecision::AuthRequired(m) => assert_eq!(m, "Custom provider 'acme' is not configured in model_providers"),
        _ => panic!("expected auth required"),
    }
    assert!(matches!(decide_authentication("custom_provider", false, false, "openai", true), AuthDecision::InvalidParams(_)));
    let methods = auth_methods("acme", "Acme");
    assert_eq!(methods.len(), 3);
    assert_eq!(methods[2].description, "Authenticate with custom provider: acme");
    assert_eq!(auth_methods("openai", "OpenAI").len(), 2);
}

#[test]
fn model_ids_are_validated() {
    let providers = vec!["openai".to_string(), "acme".to_string()];
    let current = ModelContext { provider_id: "openai".to_string(), model_name: "gpt".to_string(), effort: Some(ReasoningEffort::High) };
    let profiles = vec![
        ModelProfile { model: Some("m1".to_string()), model_provider: Some("acme".to_string()), effort: Some(ReasoningEffort::Low) },
    ];
    let c = parse_and_validate_model(&providers, &current, &profiles, "openai@gpt").unwrap();
    assert_eq!(c.effort, Some(ReasoningEffort::High));
    let c = parse_and_validate_model(&providers, &current, &profiles, "acme@m1").unwrap();
    assert_eq!((c.provider_id.as_str(), c.model_name.as_str(), c.effort), ("acme", "m1", Some(ReasoningEffort::Low)));
    assert_eq!(c.to_model_id(), "acme@m1");
    assert!(parse_and_validate_model(&providers, &current, &profiles, "acme@m2").is_none());
    assert!(parse_and_validate_model(&providers, &current, &profiles, "nope@m1").is_none());
    assert!(parse_and_validate_model(&providers, &current, &profiles, "a@b@c").is_none());
    assert!(parse_and_validate_model(&providers, &current, &profiles, "plain").is_none());
}

#[test]
fn exec_end_output_is_merged() {
    let mk = |code: i32, agg: &str, out: &str, err: &str| ExecEndArgs {
        call_id: "c".to_string(),
        exit_code: code,
        aggregated_output: agg.to_string(),
        stdout: out.to_string(),
        stderr: err.to_string(),
        duration_ms: 5,
        formatted_output: String::new(),
    };
    let (s, o) = exec_end_summary(&mk(0, "all", "x", "y"));
    assert_eq!((s, o.as_deref()), (ToolCallStatus::Completed, Some("all")));
    let (s, o) = exec_end_summary(&mk(2, "", "out", "err"));
    assert_eq!((s, o.as_deref()), (ToolCallStatus::Failed, Some("out\nerr")));
    let (_, o) = exec_end_summary(&mk(0, "", "out", ""));
    assert_eq!(o.as_deref(), Some("out"));
    let (_, o) = exec_end_summary(&mk(0, "", "", ""));
    assert_eq!(o, None);
}

#[test]
fn patch_approvals_show_diffs() {
    let changes = vec![
        ("a".to_string(), FileChange::Add { content: "new".to_string() }),
        ("b".to_string(), FileChange::Delete { content: "old".to_string() }),
        ("c".to_string(), FileChange::Update { unified_diff: "@@".to_string() }),
    ];
    let d = patch_diff_contents(&changes);
    assert_eq!(d[0].old_text, None);
    assert_eq!(d[0].new_text, "new");
    assert_eq!(d[1].old_text.as_deref(), Some("old"));
    assert_eq!(d[1].new_text, "");
    assert_eq!(d[2].old_text.as_deref(), Some("@@"));
    assert_eq!(d[2].new_text, "@@");
    assert_eq!(patch_approval_title(1), "Apply changes");
    assert_eq!(patch_approval_title(3), "Edit 3 files");
    let opts = default_permission_options();
    let ids: Vec<&str> = opts.iter().map(|o| o.id.as_str()).collect();
    assert_eq!(ids, vec!["approved-for-session", "approved", "abort"]);
}

#[test]
fn offered_models_skip_builtin_unknown_and_duplicates() {
    let providers = vec![
        ProviderInfo { id: "openai".to_string(), name: "OpenAI".to_string() },
        ProviderInfo { id: "acme".to_string(), name: "Acme".to_string() },
    ];
    let current = ModelContext { provider_id: "acme".to_string(), model_name: "big".to_string(), effort: None };
    let prof = |m: Option<&str>, p: Option<&str>| ModelProfile {
        model: m.map(str::to_string),
        model_provider: p.map(str::to_string),
        effort: None,
    };
    let profiles = vec![
        prof(Some("m1"), Some("acme")),
        prof(Some("big"), Some("acme")),
        prof(Some("x"), Some("openai")),
        prof(Some("m"), Some("zz")),
        prof(None, Some("acme")),
        prof(Some("m1"), Some("acme")),
    ];
    let models = available_models_from_profiles(&providers, &current, &profiles);
    let ids: Vec<&str> = models.iter().map(|m| m.model_id.as_str()).collect();
    assert_eq!(ids, vec!["acme@big", "acme@m1"]);
    assert_eq!(models[1].name, "Acme@m1");
    assert_eq!(models[1].description, "Provider: Acme, Model: m1");
}
