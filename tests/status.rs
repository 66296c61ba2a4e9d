use codex_acp::commands::built_in_commands;
use codex_acp::status::{render_status, title_case, StatusInfo};

#[test]
fn title_case_uppercases_first_character() {
    assert_eq!(title_case("openai"), "Openai");
    assert_eq!(title_case(""), "");
    assert_eq!(title_case("élan"), "Élan");
}

#[test]
fn status_report_lists_sections() {
    let info = StatusInfo {
        workspace: "~/w".to_string(),
        approval_mode: "on-request".to_string(),
        sandbox: "read-only".to_string(),
        agents_files: String::new(),
        auth_mode: "API key".to_string(),
        login: "(none)".to_string(),
        plan: "(unknown)".to_string(),
        model: "gpt".to_string(),
        provider: "openai".to_string(),
        effort: "medium".to_string(),
        summaries: "auto".to_string(),
        session_id: "s-1".to_string(),
        input_tokens: 12,
        output_tokens: 3,
        total_tokens: 15,
    };
    let text = render_status(&info);
    assert!(text.starts_with("\n📂 Workspace\n\n    Path:          ~/w\n"));
    assert!(text.contains("    AGENTS files:  (none)\n"));
    assert!(text.contains("    Provider:            Openai\n"));
    assert!(text.contains("    Reasoning Effort:    Medium\n"));
    assert!(text.ends_with("    Input:          12\n    Output:         3\n    Total:          15\n"));
}

#[test]
fn built_in_command_names() {
    let cmds = built_in_commands();
    let names: Vec<&str> = cmds.iter().map(|c| c.name.as_str()).collect();
    assert_eq!(names, vec!["new", "init", "compact", "review", "model", "approvals", "status", "quit"]);
    assert_eq!(cmds[5].hint.as_deref(), Some("read-only|auto|full-access"));
    assert!(cmds[0].hint.is_none());
}
