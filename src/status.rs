//! The `/status` report.
use vstd::prelude::*;
use crate::read::{decimal, push_decimal};
use crate::text::{chars_of, push_all, string_of};

verus! {

/// What `str::to_uppercase` makes of a text.
pub uninterp spec fn uppercase_of(s: Seq<char>) -> Seq<char>;

/// Relies on `str::to_uppercase`: the Unicode upper-case form, a function of the text alone.
#[verifier::external_body]
fn uppercase(s: &str) -> (r: String)
    ensures
        r@ == uppercase_of(s@),
{
    s.to_uppercase()
}

/// `s` with its first character upper-cased.
pub open spec fn title_case_of(s: Seq<char>) -> Seq<char> {
    if s.len() == 0 {
        s
    } else {
        uppercase_of(seq![s[0]]) + s.drop_first()
    }
}

pub fn title_case(s: &str) -> (r: String)
    ensures
        r@ == title_case_of(s@),
{
    let v = chars_of(s);
    if v.len() == 0 {
        return s.to_owned();
    }
    let mut first: Vec<char> = Vec::new();
    first.push(v[0]);
    let up = uppercase(string_of(&first).as_str());
    let mut out = chars_of(up.as_str());
    crate::text::push_range(&mut out, &v, 1, v.len());
    assert(first@ =~= seq![s@[0]]);
    assert(v@.subrange(1, v@.len() as int) =~= s@.drop_first());
    string_of(&out)
}

/// What the status report shows.
pub struct StatusInfo {
    pub workspace: String,
    pub approval_mode: String,
    pub sandbox: String,
    /// The instruction files found, or empty.
    pub agents_files: String,
    pub auth_mode: String,
    pub login: String,
    pub plan: String,
    pub model: String,
    pub provider: String,
    pub effort: String,
    pub summaries: String,
    pub session_id: String,
    pub input_tokens: u64,
    pub output_tokens: u64,
    pub total_tokens: u64,
}

pub open spec fn or_none(s: Seq<char>) -> Seq<char> {
    if s.len() == 0 {
        "(none)"@
    } else {
        s
    }
}

/// The status report: workspace, account, model and token usage sections.
pub open spec fn status_text(i: StatusInfo) -> Seq<char> {
    "\n📂 Workspace\n\n    Path:          "@ + i.workspace@
        + "\n    Approval Mode: "@ + i.approval_mode@
        + "\n    Sandbox:       "@ + i.sandbox@
        + "\n    AGENTS files:  "@ + or_none(i.agents_files@)
        + "\n\n👤 Account\n\n    Signed in with: "@ + i.auth_mode@
        + "\n    Login:          "@ + i.login@
        + "\n    Plan:           "@ + i.plan@
        + "\n\n🧠 Model\n\n    Name:                "@ + i.model@
        + "\n    Provider:            "@ + title_case_of(i.provider@)
        + "\n    Reasoning Effort:    "@ + title_case_of(i.effort@)
        + "\n    Reasoning Summaries: "@ + title_case_of(i.summaries@)
        + "\n\n📊 Token Usage\n\n    Session ID:     "@ + i.session_id@
        + "\n    Input:          "@ + decimal(i.input_tokens as nat)
        + "\n    Output:         "@ + decimal(i.output_tokens as nat)
        + "\n    Total:          "@ + decimal(i.total_tokens as nat)
        + "\n"@
}

fn push_str(out: &mut Vec<char>, s: &str)
    ensures
        final(out)@ == old(out)@ + s@,
{
    let v = chars_of(s);
    push_all(out, &v);
}

/// Renders the status report.
pub fn render_status(i: &StatusInfo) -> (r: String)
    ensures
        r@ == status_text(*i),
{
    let mut o: Vec<char> = Vec::new();
    push_str(&mut o, "\n📂 Workspace\n\n    Path:          ");
    push_str(&mut o, i.workspace.as_str());
    push_str(&mut o, "\n    Approval Mode: ");
    push_str(&mut o, i.approval_mode.as_str());
    push_str(&mut o, "\n    Sandbox:       ");
    push_str(&mut o, i.sandbox.as_str());
    push_str(&mut o, "\n    AGENTS files:  ");
    if i.agents_files.as_str().is_empty() {
        push_str(&mut o, "(none)");
    } else {
        push_str(&mut o, i.agents_files.as_str());
    }
    push_str(&mut o, "\n\n👤 Account\n\n    Signed in with: ");
    push_str(&mut o, i.auth_mode.as_str());
    push_str(&mut o, "\n    Login:          ");
    push_str(&mut o, i.login.as_str());
    push_str(&mut o, "\n    Plan:           ");
    push_str(&mut o, i.plan.as_str());
    push_str(&mut o, "\n\n🧠 Model\n\n    Name:                ");
    push_str(&mut o, i.model.as_str());
    push_str(&mut o, "\n    Provider:            ");
    push_str(&mut o, title_case(i.provider.as_str()).as_str());
    push_str(&mut o, "\n    Reasoning Effort:    ");
    push_str(&mut o, title_case(i.effort.as_str()).as_str());
    push_str(&mut o, "\n    Reasoning Summaries: ");
    push_str(&mut o, title_case(i.summaries.as_str()).as_str());
    push_str(&mut o, "\n\n📊 Token Usage\n\n    Session ID:     ");
    push_str(&mut o, i.session_id.as_str());
    push_str(&mut o, "\n    Input:          ");
    push_decimal(&mut o, i.input_tokens);
    push_str(&mut o, "\n    Output:         ");
    push_decimal(&mut o, i.output_tokens);
    push_str(&mut o, "\n    Total:          ");
    push_decimal(&mut o, i.total_tokens);
    push_str(&mut o, "\n");
    assert(o@ =~= status_text(*i));
    string_of(&o)
}

} // verus!
