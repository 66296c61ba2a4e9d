use codex_acp::paths::{display_fs_path, resolve_path};

#[test]
fn path_escape_is_refused() {
    assert_eq!(resolve_path("/w", "../../etc/passwd"), Err("path escapes workspace root".to_string()));
    assert_eq!(resolve_path("/w", "../x"), Err("path escapes workspace root".to_string()));
}

#[test]
fn relative_paths_are_normalized_under_root() {
    assert_eq!(resolve_path("/w", "a/./b/../c.txt"), Ok("/w/a/c.txt".to_string()));
    assert_eq!(resolve_path("/w/", "a//b"), Ok("/w/a/b".to_string()));
    assert_eq!(resolve_path("/w", "a/.."), Ok("/w".to_string()));
    assert_eq!(resolve_path("/w", "a/../../b"), Err("path escapes workspace root".to_string()));
}

#[test]
fn absolute_paths_pass_through() {
    assert_eq!(resolve_path("/w", "/etc/hosts"), Ok("/etc/hosts".to_string()));
}

#[test]
fn display_path_is_relative_under_cwd() {
    assert_eq!(display_fs_path("/w", "/w/src/main.rs"), "src/main.rs");
    assert_eq!(display_fs_path("/w", "/other/file.txt"), "file.txt");
    assert_eq!(display_fs_path("/w", "/w"), "w");
    assert_eq!(display_fs_path("/w", ".."), "..");
}
