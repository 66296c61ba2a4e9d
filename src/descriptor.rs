//! Titles, kinds and locations of tool calls shown to the client.
use vstd::prelude::*;
use crate::edits::string_eq;
use crate::paths::{display_choice, display_fs_path, is_absolute, join_part, path_file_name, path_relative_to};
use crate::text::{chars_of, push_all, string_of};

verus! {

/// A shell command as the backend parsed it.
pub enum ParsedCommand {
    Read { cmd: String, name: String, path: String },
    ListFiles { cmd: String, path: Option<String> },
    Search { cmd: String, query: Option<String>, path: Option<String> },
    Unknown { cmd: String },
}

/// The kind of a tool call, as the client shows it.
#[derive(Clone, Copy, Debug, PartialEq, Eq, Structural)]
pub enum ToolKind {
    Read,
    Edit,
    Search,
    Execute,
    Fetch,
}

/// A file location a tool call touches, with an optional line.
pub struct ToolLocation {
    pub path: String,
    pub line: Option<u32>,
}

/// Title, locations, terminal flag and kind summarizing a list of commands.
pub struct FormatCommandCall {
    pub title: String,
    pub terminal_output: bool,
    pub locations: Vec<String>,
    pub kind: ToolKind,
}

/// `p` resolved against `base` as `Path::join` does: an absolute `p` replaces `base`.
pub open spec fn join_path(base: Seq<char>, p: Seq<char>) -> Seq<char> {
    if is_absolute(p) {
        p
    } else {
        join_part(base, p)
    }
}

pub open spec fn command_title(cwd: Seq<char>, c: ParsedCommand) -> Seq<char> {
    match c {
        ParsedCommand::Read { name, .. } => "Read "@ + name@,
        ParsedCommand::ListFiles { path, .. } => "List "@ + match path {
            Some(p) => join_path(cwd, p@),
            None => cwd,
        },
        ParsedCommand::Search { cmd, query, path } => match (query, path) {
            (Some(q), Some(p)) => "Search "@ + q@ + " in "@ + p@,
            (Some(q), None) => "Search "@ + q@,
            _ => "Search "@ + cmd@,
        },
        ParsedCommand::Unknown { cmd } => "Run "@ + cmd@,
    }
}

/// The path a command names, if any.
pub open spec fn command_path(c: ParsedCommand) -> Option<Seq<char>> {
    match c {
        ParsedCommand::Read { path, .. } => Some(path@),
        ParsedCommand::ListFiles { path, .. } => match path {
            Some(p) => Some(p@),
            None => None,
        },
        ParsedCommand::Search { path, .. } => match path {
            Some(p) => Some(p@),
            None => None,
        },
        ParsedCommand::Unknown { .. } => None,
    }
}

/// Titles of `cs`, joined by `, `.
pub open spec fn joined_titles(cwd: Seq<char>, cs: Seq<ParsedCommand>) -> Seq<char>
    decreases cs.len(),
{
    if cs.len() == 0 {
        Seq::empty()
    } else if cs.len() == 1 {
        command_title(cwd, cs[0])
    } else {
        joined_titles(cwd, cs.drop_last()) + ", "@ + command_title(cwd, cs.last())
    }
}

/// Locations of `cs`: each named path, relative ones resolved against `cwd`.
pub open spec fn command_locations(cwd: Seq<char>, cs: Seq<ParsedCommand>) -> Seq<Seq<char>>
    decreases cs.len(),
{
    if cs.len() == 0 {
        Seq::empty()
    } else {
        let prev = command_locations(cwd, cs.drop_last());
        match command_path(cs.last()) {
            Some(p) => prev.push(join_path(cwd, p)),
            None => prev,
        }
    }
}

/// The kind set by the last command that sets one; `Execute` when none does.
pub open spec fn commands_kind(cs: Seq<ParsedCommand>) -> ToolKind
    decreases cs.len(),
{
    if cs.len() == 0 {
        ToolKind::Execute
    } else {
        match cs.last() {
            ParsedCommand::Read { .. } => ToolKind::Read,
            ParsedCommand::ListFiles { .. } => ToolKind::Search,
            ParsedCommand::Search { .. } => ToolKind::Search,
            ParsedCommand::Unknown { .. } => commands_kind(cs.drop_last()),
        }
    }
}

/// Whether any command is one the backend could not classify.
pub open spec fn needs_terminal(cs: Seq<ParsedCommand>) -> bool {
    exists|i: int| 0 <= i < cs.len() && cs[i] is Unknown
}

fn push_str(out: &mut Vec<char>, s: &str)
    ensures
        final(out)@ == old(out)@ + s@,
{
    let v = chars_of(s);
    push_all(out, &v);
}

fn join_path_exec(base: &str, p: &str) -> (r: Vec<char>)
    ensures
        r@ == join_path(base@, p@),
{
    let pv = chars_of(p);
    if pv.len() > 0 && pv[0] == '/' {
        return pv;
    }
    let mut out = chars_of(base);
    if out.len() > 0 && out[out.len() - 1] != '/' {
        out.push('/');
    }
    push_all(&mut out, &pv);
    out
}

fn title_exec(cwd: &str, c: &ParsedCommand) -> (r: Vec<char>)
    ensures
        r@ == command_title(cwd@, *c),
{
    let mut out: Vec<char> = Vec::new();
    match c {
        ParsedCommand::Read { name, .. } => {
            push_str(&mut out, "Read ");
            push_str(&mut out, name.as_str());
        },
        ParsedCommand::ListFiles { path, .. } => {
            push_str(&mut out, "List ");
            match path {
                Some(p) => {
                    let j = join_path_exec(cwd, p.as_str());
                    push_all(&mut out, &j);
                },
                None => push_str(&mut out, cwd),
            }
        },
        ParsedCommand::Search { cmd, query, path } => {
            push_str(&mut out, "Search ");
            match (query, path) {
                (Some(q), Some(p)) => {
                    push_str(&mut out, q.as_str());
                    push_str(&mut out, " in ");
                    push_str(&mut out, p.as_str());
                },
                (Some(q), None) => push_str(&mut out, q.as_str()),
                _ => push_str(&mut out, cmd.as_str()),
            }
        },
        ParsedCommand::Unknown { cmd } => {
            push_str(&mut out, "Run ");
            push_str(&mut out, cmd.as_str());
        },
    }
    assert(out@ =~= command_title(cwd@, *c));
    out
}

pub open spec fn strings_view(v: Seq<String>) -> Seq<Seq<char>> {
    v.map_values(|s: String| s@)
}

/// Summarizes parsed commands for the client: their titles joined by `, `,
/// the paths they name, whether terminal output should be shown, and a kind.
pub fn format_command_call(cwd: &str, parsed_cmd: &[ParsedCommand]) -> (r: FormatCommandCall)
    ensures
        r.title@ == joined_titles(cwd@, parsed_cmd@),
        strings_view(r.locations@) == command_locations(cwd@, parsed_cmd@),
        r.terminal_output == needs_terminal(parsed_cmd@),
        r.kind == commands_kind(parsed_cmd@),
{
    let mut title: Vec<char> = Vec::new();
    let mut locations: Vec<String> = Vec::new();
    let mut terminal_output = false;
    let mut kind = ToolKind::Execute;
    let n = parsed_cmd.len();
    let mut i: usize = 0;
    let ghost cs = parsed_cmd@;
    assert(cs.subrange(0, 0) =~= Seq::<ParsedCommand>::empty());
    assert(strings_view(locations@) =~= Seq::<Seq<char>>::empty());
    while i < n
        invariant
            n == cs.len(),
            cs == parsed_cmd@,
            i <= n,
            title@ == joined_titles(cwd@, cs.subrange(0, i as int)),
            strings_view(locations@) == command_locations(cwd@, cs.subrange(0, i as int)),
            terminal_output == needs_terminal(cs.subrange(0, i as int)),
            kind == commands_kind(cs.subrange(0, i as int)),
        decreases n - i,
    {
        let c = &parsed_cmd[i];
        let ghost sub = cs.subrange(0, i + 1);
        assert(sub.drop_last() =~= cs.subrange(0, i as int));
        assert(sub.last() == *c);
        let t = title_exec(cwd, c);
        if i > 0 {
            push_str(&mut title, ", ");
        }
        push_all(&mut title, &t);
        let ghost loc_before = strings_view(locations@);
        let named: Option<&String> = match c {
            ParsedCommand::Read { path, .. } => {
                kind = ToolKind::Read;
                Some(path)
            },
            ParsedCommand::ListFiles { path, .. } => {
                kind = ToolKind::Search;
                match path {
                    Some(p) => Some(p),
                    None => None,
                }
            },
            ParsedCommand::Search { path, .. } => {
                kind = ToolKind::Search;
                match path {
                    Some(p) => Some(p),
                    None => None,
                }
            },
            ParsedCommand::Unknown { .. } => {
                terminal_output = true;
                None
            },
        };
        if let Some(p) = named {
            let j = join_path_exec(cwd, p.as_str());
            locations.push(string_of(&j));
            assert(strings_view(locations@) =~= loc_before.push(j@));
        }
        proof {
            if c is Unknown {
                assert(sub[i as int] is Unknown);
            } else {
                assert forall|k: int| 0 <= k < sub.len() && (#[trigger] sub[k]) is Unknown implies k < i by {}
                if needs_terminal(sub) {
                    let k = choose|k: int| 0 <= k < sub.len() && sub[k] is Unknown;
                    assert(cs.subrange(0, i as int)[k] == sub[k]);
                }
            }
            if needs_terminal(cs.subrange(0, i as int)) {
                let k = choose|k: int| 0 <= k < i && cs.subrange(0, i as int)[k] is Unknown;
                assert(sub[k] == cs.subrange(0, i as int)[k]);
            }
        }
        i = i + 1;
    }
    assert(cs.subrange(0, n as int) =~= cs);
    FormatCommandCall { title: string_of(&title), terminal_output, locations, kind }
}

/// What an FS tool call is shown with: a display path, the location path
/// and an optional line.
pub struct FsToolMetadata {
    pub display_path: String,
    pub location_path: String,
    pub line: Option<u32>,
}

pub open spec fn is_fs_tool(server: Seq<char>, tool: Seq<char>) -> bool {
    server == "acp_fs"@ && (tool == "read_text_file"@ || tool == "write_text_file"@ || tool
        == "edit_text_file"@)
}

/// A `line` argument as a line number: its low 32 bits, as `as u32` keeps them.
pub open spec fn line_number(v: u64) -> u32 {
    (v % 0x1_0000_0000) as u32
}

/// Metadata of an invocation of one of the FS tools of the `acp_fs` server,
/// given its `path` and `line` arguments; `None` for any other tool or
/// without a `path`.
pub fn fs_tool_metadata(server: &str, tool: &str, path: Option<&str>, line: Option<u64>, cwd: &str) -> (r: Option<FsToolMetadata>)
    ensures
        r is Some <==> is_fs_tool(server@, tool@) && path is Some,
        r matches Some(m) ==> m.display_path@ == display_choice(
            path->0@,
            path_relative_to(path->0@, cwd@),
            path_file_name(path->0@),
        ) && m.location_path@ == path->0@ && m.line == (match line {
            Some(v) => Some(line_number(v)),
            None => None::<u32>,
        }),
{
    if !string_eq(&server.to_owned(), "acp_fs") {
        return None;
    }
    let t = tool.to_owned();
    if !(string_eq(&t, "read_text_file") || string_eq(&t, "write_text_file") || string_eq(&t, "edit_text_file")) {
        return None;
    }
    let p = match path {
        Some(p) => p,
        None => {
            return None;
        },
    };
    let line = match line {
        Some(v) => Some((v % 4294967296) as u32),
        None => None,
    };
    Some(FsToolMetadata { display_path: display_fs_path(cwd, p), location_path: p.to_owned(), line })
}

pub open spec fn mcp_title(server: Seq<char>, tool: Seq<char>, display: Option<Seq<char>>) -> Seq<char> {
    match display {
        Some(d) => server + "."@ + tool + " ("@ + d + ")"@,
        None => server + "."@ + tool,
    }
}

/// Title and locations of an MCP tool call: FS tools show their display
/// path in the title and their one location; other tools show
/// `server.tool` and no location.
pub fn describe_mcp_tool(server: &str, tool: &str, path: Option<&str>, line: Option<u64>, cwd: &str) -> (r: (String, Vec<ToolLocation>))
    ensures
        is_fs_tool(server@, tool@) && path is Some ==> r.0@ == mcp_title(
            server@,
            tool@,
            Some(display_choice(path->0@, path_relative_to(path->0@, cwd@), path_file_name(path->0@))),
        ) && r.1@.len() == 1 && r.1@[0].path@ == path->0@ && r.1@[0].line == (match line {
            Some(v) => Some(line_number(v)),
            None => None::<u32>,
        }),
        !(is_fs_tool(server@, tool@) && path is Some) ==> r.0@ == mcp_title(server@, tool@, None)
            && r.1@.len() == 0,
{
    let mut title: Vec<char> = Vec::new();
    push_str(&mut title, server);
    push_str(&mut title, ".");
    push_str(&mut title, tool);
    match fs_tool_metadata(server, tool, path, line, cwd) {
        Some(m) => {
            push_str(&mut title, " (");
            push_str(&mut title, m.display_path.as_str());
            push_str(&mut title, ")");
            let mut locs: Vec<ToolLocation> = Vec::new();
            locs.push(ToolLocation { path: m.location_path, line: m.line });
            (string_of(&title), locs)
        },
        None => (string_of(&title), Vec::new()),
    }
}

} // verus!
