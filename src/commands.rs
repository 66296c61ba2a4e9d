//! Slash commands typed as the first text of a prompt.
use vstd::prelude::*;
use crate::edits::string_eq;
use crate::text::{chars_of, is_ws, is_ws_char, string_of, trim, trim_bounds};

verus! {

/// What `str::to_lowercase` makes of a text.
pub uninterp spec fn lowercase_of(s: Seq<char>) -> Seq<char>;

/// Relies on `str::to_lowercase`: the Unicode lower-case form, a function of the text alone.
#[verifier::external_body]
fn lowercase(s: &str) -> (r: String)
    ensures
        r@ == lowercase_of(s@),
{
    s.to_lowercase()
}

/// First index at or after `i` that holds no whitespace (or the length).
pub open spec fn skip_ws_from(b: Seq<char>, i: int) -> int
    decreases b.len() - i,
{
    if i < 0 || i >= b.len() {
        b.len() as int
    } else if !is_ws(b[i]) {
        i
    } else {
        skip_ws_from(b, i + 1)
    }
}

/// First index at or after `i` that holds whitespace (or the length).
pub open spec fn find_ws_from(b: Seq<char>, i: int) -> int
    decreases b.len() - i,
{
    if i < 0 || i >= b.len() {
        b.len() as int
    } else if is_ws(b[i]) {
        i
    } else {
        find_ws_from(b, i + 1)
    }
}

/// The text after the `/` of a trimmed command line.
pub open spec fn command_body(line: Seq<char>) -> Option<Seq<char>> {
    let t = trim(line);
    if t.len() > 0 && t[0] == '/' {
        Some(t.drop_first())
    } else {
        None
    }
}

/// The command name as typed (its first word) and the trimmed rest.
pub open spec fn command_parts(body: Seq<char>) -> (Seq<char>, Seq<char>) {
    let s = skip_ws_from(body, 0);
    let e = find_ws_from(body, s);
    (body.subrange(s, e), trim(body.subrange(e, body.len() as int)))
}

/// A slash command: its lower-cased name and its argument text.
pub struct SlashCommand {
    pub name: String,
    pub rest: String,
}

fn sub_string(v: &Vec<char>, a: usize, b: usize) -> (r: String)
    requires
        a <= b <= v@.len(),
    ensures
        r@ == v@.subrange(a as int, b as int),
{
    let mut out: Vec<char> = Vec::new();
    crate::text::push_range(&mut out, v, a, b);
    string_of(&out)
}

/// Reads a slash command from a prompt's first text: `None` unless the
/// trimmed text starts with `/`.
pub fn parse_slash_command(line: &str) -> (r: Option<SlashCommand>)
    ensures
        command_body(line@) is None ==> r is None,
        command_body(line@) matches Some(body) ==> r matches Some(c) && c.name@ == lowercase_of(
            command_parts(body).0,
        ) && c.rest@ == command_parts(body).1,
{
    let v = chars_of(line);
    let (ts, te) = trim_bounds(&v);
    if ts == te || v[ts] != '/' {
        return None;
    }
    let body = {
        let mut out: Vec<char> = Vec::new();
        crate::text::push_range(&mut out, &v, ts + 1, te);
        out
    };
    assert(body@ =~= trim(line@).drop_first());
    let n = body.len();
    let mut s: usize = 0;
    while s < n && is_ws_char(body[s])
        invariant
            s <= n == body@.len(),
            skip_ws_from(body@, 0) == skip_ws_from(body@, s as int),
        decreases n - s,
    {
        s = s + 1;
    }
    let mut e: usize = s;
    while e < n && !is_ws_char(body[e])
        invariant
            s <= e <= n == body@.len(),
            find_ws_from(body@, s as int) == find_ws_from(body@, e as int),
        decreases n - e,
    {
        e = e + 1;
    }
    let name_raw = sub_string(&body, s, e);
    let tail: Vec<char> = {
        let mut out: Vec<char> = Vec::new();
        crate::text::push_range(&mut out, &body, e, n);
        out
    };
    let (rs, re) = trim_bounds(&tail);
    let rest = sub_string(&tail, rs, re);
    Some(SlashCommand { name: lowercase(name_raw.as_str()), rest })
}

/// The built-in commands.
#[derive(Clone, Copy, Debug, PartialEq, Eq, Structural)]
pub enum CommandKind {
    New,
    Status,
    Model,
    Approvals,
    Compact,
    Review,
    Init,
    Quit,
    Unknown,
}

pub open spec fn command_kind_of(name: Seq<char>) -> CommandKind {
    if name == "new"@ {
        CommandKind::New
    } else if name == "status"@ {
        CommandKind::Status
    } else if name == "model"@ {
        CommandKind::Model
    } else if name == "approvals"@ {
        CommandKind::Approvals
    } else if name == "compact"@ {
        CommandKind::Compact
    } else if name == "review"@ {
        CommandKind::Review
    } else if name == "init"@ {
        CommandKind::Init
    } else if name == "quit"@ {
        CommandKind::Quit
    } else {
        CommandKind::Unknown
    }
}

/// Which built-in command `name` is; `Unknown` falls through to a normal prompt.
pub fn classify_command(name: &str) -> (r: CommandKind)
    ensures
        r == command_kind_of(name@),
{
    let s = name.to_owned();
    if string_eq(&s, "new") {
        CommandKind::New
    } else if string_eq(&s, "status") {
        CommandKind::Status
    } else if string_eq(&s, "model") {
        CommandKind::Model
    } else if string_eq(&s, "approvals") {
        CommandKind::Approvals
    } else if string_eq(&s, "compact") {
        CommandKind::Compact
    } else if string_eq(&s, "review") {
        CommandKind::Review
    } else if string_eq(&s, "init") {
        CommandKind::Init
    } else if string_eq(&s, "quit") {
        CommandKind::Quit
    } else {
        CommandKind::Unknown
    }
}

/// A command advertised to the client, with an input hint for those that take one.
pub struct CommandInfo {
    pub name: String,
    pub description: String,
    pub hint: Option<String>,
}

pub open spec fn built_in_names() -> Seq<Seq<char>> {
    seq!["new"@, "init"@, "compact"@, "review"@, "model"@, "approvals"@, "status"@, "quit"@]
}

pub open spec fn built_in_descriptions() -> Seq<Seq<char>> {
    seq![
        "start a new chat during a conversation"@,
        "create an AGENTS.md file with instructions for Codex"@,
        "summarize conversation to prevent hitting the context limit"@,
        "review my current changes and find issues"@,
        "choose what model and reasoning effort to use"@,
        "choose what Codex can do without approval"@,
        "show current session configuration and token usage"@,
        "exit Codex"@,
    ]
}

/// The input hint of built-in command `i`: only `model` and `approvals` take input.
pub open spec fn built_in_hint(i: int) -> Option<Seq<char>> {
    if i == 4 {
        Some("Model slug, e.g., gpt-codex"@)
    } else if i == 5 {
        Some("read-only|auto|full-access"@)
    } else {
        None
    }
}

pub open spec fn hint_view(h: Option<String>) -> Option<Seq<char>> {
    match h {
        Some(x) => Some(x@),
        None => None,
    }
}

fn command(name: &str, description: &str, hint: Option<&str>) -> (r: CommandInfo)
    ensures
        r.name@ == name@,
        r.description@ == description@,
        match hint {
            Some(h) => r.hint matches Some(x) && x@ == h@,
            None => r.hint is None,
        },
{
    CommandInfo {
        name: name.to_owned(),
        description: description.to_owned(),
        hint: match hint {
            Some(h) => Some(h.to_owned()),
            None => None,
        },
    }
}

/// The commands advertised to every session, in order; only `model` and
/// `approvals` take input.
pub fn built_in_commands() -> (r: Vec<CommandInfo>)
    ensures
        r@.len() == built_in_names().len(),
        forall|i: int|
            0 <= i < r@.len() ==> (#[trigger] r@[i]).name@ == built_in_names()[i] && r@[i].description@
                == built_in_descriptions()[i] && hint_view(r@[i].hint) == built_in_hint(i),
{
    let mut v: Vec<CommandInfo> = Vec::new();
    v.push(command("new", "start a new chat during a conversation", None));
    v.push(command("init", "create an AGENTS.md file with instructions for Codex", None));
    v.push(command("compact", "summarize conversation to prevent hitting the context limit", None));
    v.push(command("review", "review my current changes and find issues", None));
    v.push(command("model", "choose what model and reasoning effort to use", Some("Model slug, e.g., gpt-codex")));
    v.push(command("approvals", "choose what Codex can do without approval", Some("read-only|auto|full-access")));
    v.push(command("status", "show current session configuration and token usage", None));
    v.push(command("quit", "exit Codex", None));
    v
}

} // verus!
