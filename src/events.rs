//! Client updates built from backend events: tool-call statuses, exec
//! output, patch-approval contents and the fixed permission options.
use vstd::prelude::*;
use crate::read::push_decimal;
use crate::read::decimal;
use crate::text::{chars_of, push_all, string_of};

verus! {

/// The status of a tool call.
#[derive(Clone, Copy, Debug, PartialEq, Eq, Structural)]
pub enum ToolCallStatus {
    Pending,
    InProgress,
    Completed,
    Failed,
}

/// `Completed` for a success, `Failed` otherwise.
pub fn status_of(success: bool) -> (r: ToolCallStatus)
    ensures
        r == (if success { ToolCallStatus::Completed } else { ToolCallStatus::Failed }),
{
    if success {
        ToolCallStatus::Completed
    } else {
        ToolCallStatus::Failed
    }
}

/// What the backend reports when a command finished.
pub struct ExecEndArgs {
    pub call_id: String,
    pub exit_code: i32,
    pub aggregated_output: String,
    pub stdout: String,
    pub stderr: String,
    pub duration_ms: u128,
    pub formatted_output: String,
}

/// The output shown for a finished command: the aggregated output when
/// there is any, else stdout and stderr joined by a newline (stdout alone
/// when stderr is empty), else nothing.
pub open spec fn exec_output(aggregated: Seq<char>, stdout: Seq<char>, stderr: Seq<char>) -> Option<Seq<char>> {
    if aggregated.len() > 0 {
        Some(aggregated)
    } else if stdout.len() > 0 || stderr.len() > 0 {
        if stderr.len() > 0 {
            Some(stdout + seq!['\n'] + stderr)
        } else {
            Some(stdout)
        }
    } else {
        None
    }
}

pub open spec fn opt_view(o: Option<String>) -> Option<Seq<char>> {
    match o {
        Some(s) => Some(s@),
        None => None,
    }
}

/// Status and shown output of a finished command; it succeeded when its exit code is 0.
pub fn exec_end_summary(end: &ExecEndArgs) -> (r: (ToolCallStatus, Option<String>))
    ensures
        r.0 == (if end.exit_code == 0 { ToolCallStatus::Completed } else { ToolCallStatus::Failed }),
        opt_view(r.1) == exec_output(end.aggregated_output@, end.stdout@, end.stderr@),
{
    let status = status_of(end.exit_code == 0);
    let agg = end.aggregated_output.as_str();
    let out = end.stdout.as_str();
    let err = end.stderr.as_str();
    if !agg.is_empty() {
        return (status, Some(end.aggregated_output.clone()));
    }
    if out.is_empty() && err.is_empty() {
        return (status, None);
    }
    if !err.is_empty() {
        let mut v = chars_of(out);
        v.push('\n');
        push_all(&mut v, &chars_of(err));
        (status, Some(string_of(&v)))
    } else {
        (status, Some(end.stdout.clone()))
    }
}

/// One file change of a patch.
pub enum FileChange {
    Add { content: String },
    Delete { content: String },
    Update { unified_diff: String },
}

/// A diff shown in a permission request.
pub struct DiffContent {
    pub path: String,
    pub old_text: Option<String>,
    pub new_text: String,
}

/// Whether `d` shows change `c` of `path`: an addition has no old text, a
/// deletion an empty new text, and an update shows its unified diff on both sides.
pub open spec fn shows_change(d: DiffContent, path: Seq<char>, c: FileChange) -> bool {
    &&& d.path@ == path
    &&& match c {
        FileChange::Add { content } => d.old_text is None && d.new_text@ == content@,
        FileChange::Delete { content } => (d.old_text matches Some(o) && o@ == content@)
            && d.new_text@.len() == 0,
        FileChange::Update { unified_diff } => (d.old_text matches Some(o) && o@ == unified_diff@)
            && d.new_text@ == unified_diff@,
    }
}

/// The diffs shown for the changes of a patch, in order.
pub fn patch_diff_contents(changes: &[(String, FileChange)]) -> (r: Vec<DiffContent>)
    ensures
        r@.len() == changes@.len(),
        forall|i: int| 0 <= i < r@.len() ==> shows_change(#[trigger] r@[i], changes@[i].0@, changes@[i].1),
{
    let mut out: Vec<DiffContent> = Vec::new();
    let n = changes.len();
    let mut i: usize = 0;
    while i < n
        invariant
            n == changes@.len(),
            i <= n,
            out@.len() == i,
            forall|k: int| 0 <= k < i ==> shows_change(#[trigger] out@[k], changes@[k].0@, changes@[k].1),
        decreases n - i,
    {
        let (path, change) = &changes[i];
        let d = match change {
            FileChange::Add { content } => DiffContent { path: path.clone(), old_text: None, new_text: content.clone() },
            FileChange::Delete { content } => DiffContent {
                path: path.clone(),
                old_text: Some(content.clone()),
                new_text: String::new(),
            },
            FileChange::Update { unified_diff } => DiffContent {
                path: path.clone(),
                old_text: Some(unified_diff.clone()),
                new_text: unified_diff.clone(),
            },
        };
        out.push(d);
        i = i + 1;
    }
    out
}

/// The title of a patch approval: "Apply changes" for one file, else "Edit N files".
pub open spec fn patch_title(n: nat) -> Seq<char> {
    if n == 1 {
        "Apply changes"@
    } else {
        "Edit "@ + decimal(n) + " files"@
    }
}

pub fn patch_approval_title(n_changes: usize) -> (r: String)
    ensures
        r@ == patch_title(n_changes as nat),
{
    if n_changes == 1 {
        return "Apply changes".to_owned();
    }
    let mut v = chars_of("Edit ");
    push_decimal(&mut v, n_changes as u64);
    push_all(&mut v, &chars_of(" files"));
    string_of(&v)
}

/// What choosing a permission option means.
#[derive(Clone, Copy, Debug, PartialEq, Eq, Structural)]
pub enum PermissionOptionKind {
    AllowOnce,
    AllowAlways,
    RejectOnce,
}

/// One choice offered with a permission request.
pub struct PermissionOption {
    pub id: String,
    pub name: String,
    pub kind: PermissionOptionKind,
}

/// The fixed choices of every permission request: allow always, allow
/// once, reject.
pub fn default_permission_options() -> (r: Vec<PermissionOption>)
    ensures
        r@.len() == 3,
        r@[0].id@ == "approved-for-session"@ && r@[0].name@ == "Approved Always"@ && r@[0].kind
            == PermissionOptionKind::AllowAlways,
        r@[1].id@ == "approved"@ && r@[1].name@ == "Approved"@ && r@[1].kind
            == PermissionOptionKind::AllowOnce,
        r@[2].id@ == "abort"@ && r@[2].name@ == "Reject"@ && r@[2].kind
            == PermissionOptionKind::RejectOnce,
{
    let mut v: Vec<PermissionOption> = Vec::new();
    v.push(PermissionOption {
        id: "approved-for-session".to_owned(),
        name: "Approved Always".to_owned(),
        kind: PermissionOptionKind::AllowAlways,
    });
    v.push(PermissionOption {
        id: "approved".to_owned(),
        name: "Approved".to_owned(),
        kind: PermissionOptionKind::AllowOnce,
    });
    v.push(PermissionOption {
        id: "abort".to_owned(),
        name: "Reject".to_owned(),
        kind: PermissionOptionKind::RejectOnce,
    });
    v
}

} // verus!
