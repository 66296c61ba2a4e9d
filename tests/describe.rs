use codex_acp::descriptor::{describe_mcp_tool, format_command_call, fs_tool_metadata, ParsedCommand, ToolKind};
use codex_acp::diff_ranges::{parse_diff_line_ranges, parse_range_token, LineRange};

#[test]
fn range_tokens_parse() {
    assert_eq!(parse_range_token("3,4"), Some(LineRange { start: 3, end: 6 }));
    assert_eq!(parse_range_token("7"), Some(LineRange { start: 7, end: 7 }));
    assert_eq!(parse_range_token("0,0"), None);
    assert_eq!(parse_range_token("0,2"), Some(LineRange { start: 1, end: 2 }));
    assert_eq!(parse_range_token("5,x"), Some(LineRange { start: 5, end: 5 }));
    assert_eq!(parse_range_token("x,2"), None);
    assert_eq!(parse_range_token(""), None);
    assert_eq!(parse_range_token("-4,2"), Some(LineRange { start: 1, end: 2 }));
    assert_eq!(parse_range_token("99999999999999999999"), None);
    assert_eq!(parse_range_token("4294967300,2"), Some(LineRange { start: u32::MAX, end: u32::MAX }));
    assert_eq!(parse_range_token("10,8589934592"), Some(LineRange { start: 10, end: u32::MAX }));
}

#[test]
fn hunk_headers_yield_ranges() {
    let diff = "--- a\n+++ a\n@@ -1,2 +1,3 @@\n a\n-b\n+c\n+d\n@@ -10 +11,0 @@ fn x\n";
    let (new_ranges, old_ranges) = parse_diff_line_ranges(diff);
    assert_eq!(new_ranges, vec![LineRange { start: 1, end: 3 }]);
    assert_eq!(
        old_ranges,
        vec![LineRange { start: 1, end: 2 }, LineRange { start: 10, end: 10 }]
    );
}

#[test]
fn commands_are_summarized() {
    let cmds = vec![
        ParsedCommand::Read { cmd: "cat a".to_string(), name: "a".to_string(), path: "a".to_string() },
        ParsedCommand::Search { cmd: "rg x".to_string(), query: Some("x".to_string()), path: Some("/src".to_string()) },
        ParsedCommand::ListFiles { cmd: "ls".to_string(), path: None },
    ];
    let f = format_command_call("/w", &cmds);
    assert_eq!(f.title, "Read a, Search x in /src, List /w");
    assert_eq!(f.locations, vec!["/w/a".to_string(), "/src".to_string()]);
    assert_eq!(f.kind, ToolKind::Search);
    assert!(!f.terminal_output);
}

#[test]
fn unknown_commands_need_a_terminal() {
    let cmds = vec![ParsedCommand::Unknown { cmd: "make".to_string() }];
    let f = format_command_call("/w", &cmds);
    assert_eq!(f.title, "Run make");
    assert!(f.terminal_output);
    assert_eq!(f.kind, ToolKind::Execute);
    assert!(f.locations.is_empty());
}

#[test]
fn fs_tools_get_display_paths() {
    let m = fs_tool_metadata("acp_fs", "read_text_file", Some("/w/src/lib.rs"), Some(12), "/w").unwrap();
    assert_eq!(m.display_path, "src/lib.rs");
    assert_eq!(m.location_path, "/w/src/lib.rs");
    assert_eq!(m.line, Some(12));
    assert!(fs_tool_metadata("other", "read_text_file", Some("/w/a"), None, "/w").is_none());
    assert!(fs_tool_metadata("acp_fs", "multi_edit_text_file", Some("/w/a"), None, "/w").is_none());
    let (title, locs) = describe_mcp_tool("acp_fs", "edit_text_file", Some("/w/a.rs"), None, "/w");
    assert_eq!(title, "acp_fs.edit_text_file (a.rs)");
    assert_eq!(locs.len(), 1);
    let (title, locs) = describe_mcp_tool("search", "query", None, None, "/w");
    assert_eq!(title, "search.query");
    assert!(locs.is_empty());
}
