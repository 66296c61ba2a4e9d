//! Per-session configuration pieces: the filesystem guidance added to the
//! instructions, and the FS tools disabled for a client's capabilities.
use vstd::prelude::*;
use crate::search::{contains, find_first, lemma_contains_first_match};
use crate::text::{chars_of, is_blank, is_blank_chars, push_all, string_of};

verus! {

/// The token whose presence shows that the guidance is already there.
pub open spec fn guidance_sentinel() -> Seq<char> {
    "acp_fs"@
}

/// `existing` with `guidance` appended once: after a blank line when
/// `existing` has text, unchanged when it already mentions the sentinel.
pub open spec fn with_guidance(existing: Seq<char>, guidance: Seq<char>) -> Seq<char> {
    if contains(existing, guidance_sentinel()) {
        existing
    } else if !is_blank(existing) {
        existing + seq!['\n', '\n'] + guidance
    } else {
        existing + guidance
    }
}

pub fn append_fs_guidance(existing: &str, guidance: &str) -> (r: String)
    ensures
        r@ == with_guidance(existing@, guidance@),
{
    let e = chars_of(existing);
    let s = chars_of("acp_fs");
    proof {
        lemma_contains_first_match(e@, s@);
    }
    if find_first(&e, &s).is_some() {
        return existing.to_owned();
    }
    let mut out = e.clone();
    if !is_blank_chars(&e) {
        out.push('\n');
        out.push('\n');
    }
    push_all(&mut out, &chars_of(guidance));
    string_of(&out)
}

pub open spec fn opt_view(o: Option<String>) -> Option<Seq<char>> {
    match o {
        Some(s) => Some(s@),
        None => None,
    }
}

/// Base and user instructions of a session: the guidance goes into the
/// base instructions when there are any, else into the user instructions.
pub fn session_instructions(base: Option<String>, user: Option<String>, guidance: &str) -> (r: (Option<String>, Option<String>))
    ensures
        match base {
            Some(b) => opt_view(r.0) == Some(with_guidance(b@, guidance@)) && opt_view(r.1)
                == opt_view(user),
            None => r.0 is None && opt_view(r.1) == Some(
                match user {
                    Some(u) => with_guidance(u@, guidance@),
                    None => guidance@,
                },
            ),
        },
{
    match base {
        Some(b) => (Some(append_fs_guidance(b.as_str(), guidance)), user),
        None => match user {
            Some(u) => (None, Some(append_fs_guidance(u.as_str(), guidance))),
            None => (None, Some(guidance.to_owned())),
        },
    }
}

pub open spec fn disabled_tools_spec(can_read: bool, can_write: bool) -> Seq<Seq<char>> {
    (if can_read { Seq::empty() } else { seq!["read_text_file"@] }) + (if can_write {
        Seq::empty()
    } else {
        seq!["write_text_file"@, "edit_text_file"@, "multi_edit_text_file"@]
    })
}

/// The FS tools a client cannot serve: reading without read support, the
/// three writing tools without write support; `None` when nothing is disabled.
pub fn disabled_fs_tools(can_read: bool, can_write: bool) -> (r: Option<Vec<String>>)
    ensures
        r is None <==> can_read && can_write,
        r matches Some(v) ==> v@.map_values(|s: String| s@) == disabled_tools_spec(can_read, can_write),
{
    let mut v: Vec<String> = Vec::new();
    if !can_read {
        v.push("read_text_file".to_owned());
    }
    if !can_write {
        v.push("write_text_file".to_owned());
        v.push("edit_text_file".to_owned());
        v.push("multi_edit_text_file".to_owned());
    }
    if v.len() == 0 {
        None
    } else {
        assert(v@.map_values(|s: String| s@) =~= disabled_tools_spec(can_read, can_write));
        Some(v)
    }
}

} // verus!
