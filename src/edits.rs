//! Text edits on staged file content: ordered replacement instructions,
//! the staging store, and the unified diff reported after an edit.
use vstd::prelude::*;
use crate::search::{
    contains, first_match, find_first, lemma_contains_first_match, replace_all,
    replace_all_exec, replace_first, replace_first_exec,
};
use crate::text::{chars_of, is_blank, is_blank_chars, push_all, string_of};

verus! {

/// One replacement: `old_text` by `new_text`, at its first occurrence or,
/// with `replace_all`, at every occurrence.
pub struct EditInstruction {
    pub old_text: String,
    pub new_text: String,
    pub replace_all: bool,
}

/// Why a list of edit instructions was refused.
#[derive(Clone, Copy, Debug, PartialEq, Eq, Structural)]
pub enum EditError {
    EmptyOldString,
    OldStringNotFound,
}

pub open spec fn edit_error_text(e: EditError) -> Seq<char> {
    match e {
        EditError::EmptyOldString => "the provided `old_string` is empty. No edits were applied."@,
        EditError::OldStringNotFound =>
            "The provided `old_string` does not appear in the file. No edits were applied."@,
    }
}

impl EditError {
    /// The message reported for this error.
    pub fn message(&self) -> (r: String)
        ensures
            r@ == edit_error_text(*self),
    {
        match self {
            EditError::EmptyOldString => "the provided `old_string` is empty. No edits were applied.".to_owned(),
            EditError::OldStringNotFound =>
                "The provided `old_string` does not appear in the file. No edits were applied.".to_owned(),
        }
    }
}

/// The result of applying instruction `e` to `content`.
pub open spec fn apply_one(content: Seq<char>, e: EditInstruction) -> Result<Seq<char>, EditError> {
    if e.old_text@.len() == 0 {
        Err(EditError::EmptyOldString)
    } else if e.replace_all {
        if contains(content, e.old_text@) {
            Ok(replace_all(content, e.old_text@, e.new_text@))
        } else {
            Err(EditError::OldStringNotFound)
        }
    } else if first_match(content, e.old_text@) is None {
        Err(EditError::OldStringNotFound)
    } else {
        Ok(replace_first(content, e.old_text@, e.new_text@))
    }
}

/// The result of applying the first `k` instructions of `edits` to `base`,
/// in order, stopping at the first that fails.
pub open spec fn apply_prefix(base: Seq<char>, edits: Seq<EditInstruction>, k: int) -> Result<
    Seq<char>,
    EditError,
>
    decreases k,
{
    if k <= 0 {
        Ok(base)
    } else {
        match apply_prefix(base, edits, k - 1) {
            Ok(c) => apply_one(c, edits[k - 1]),
            Err(e) => Err(e),
        }
    }
}

/// The result of applying every instruction of `edits` to `base`, in order.
pub open spec fn apply_all(base: Seq<char>, edits: Seq<EditInstruction>) -> Result<Seq<char>, EditError> {
    apply_prefix(base, edits, edits.len() as int)
}

pub open spec fn result_view(r: Result<String, EditError>) -> Result<Seq<char>, EditError> {
    match r {
        Ok(s) => Ok(s@),
        Err(e) => Err(e),
    }
}

fn apply_one_exec(content: &Vec<char>, e: &EditInstruction) -> (r: Result<Vec<char>, EditError>)
    ensures
        match r {
            Ok(v) => apply_one(content@, *e) == Ok::<Seq<char>, EditError>(v@),
            Err(err) => apply_one(content@, *e) == Err::<Seq<char>, EditError>(err),
        },
{
    let old = chars_of(e.old_text.as_str());
    let new = chars_of(e.new_text.as_str());
    if old.len() == 0 {
        return Err(EditError::EmptyOldString);
    }
    if e.replace_all {
        proof {
            lemma_contains_first_match(content@, old@);
        }
        if find_first(content, &old).is_none() {
            Err(EditError::OldStringNotFound)
        } else {
            Ok(replace_all_exec(content, &old, &new))
        }
    } else {
        match replace_first_exec(content, &old, &new) {
            None => Err(EditError::OldStringNotFound),
            Some(v) => Ok(v),
        }
    }
}

/// Whether two character vectors hold the same characters.
pub(crate) fn seq_eq(a: &[char], b: &[char]) -> (r: bool)
    ensures
        r == (a@ == b@),
{
    if a.len() != b.len() {
        return false;
    }
    let n = a.len();
    let mut i: usize = 0;
    while i < n
        invariant
            n == a@.len() == b@.len(),
            i <= n,
            forall|k: int| 0 <= k < i ==> a@[k] == b@[k],
        decreases n - i,
    {
        if a[i] != b[i] {
            return false;
        }
        i = i + 1;
    }
    assert(a@ =~= b@);
    true
}

/// Applies `edits` to `base` in order. Fails, with nothing applied, on the
/// first instruction whose `old_text` is empty or does not occur.
pub fn apply_edits(base: &str, edits: &[EditInstruction]) -> (r: Result<String, EditError>)
    ensures
        result_view(r) == apply_all(base@, edits@),
{
    let mut content = chars_of(base);
    let n = edits.len();
    let mut k: usize = 0;
    while k < n
        invariant
            n == edits@.len(),
            k <= n,
            apply_prefix(base@, edits@, k as int) == Ok::<Seq<char>, EditError>(content@),
        decreases n - k,
    {
        match apply_one_exec(&content, &edits[k]) {
            Ok(v) => {
                content = v;
            },
            Err(e) => {
                proof {
                    lemma_error_persists(base@, edits@, k + 1, n as int);
                }
                return Err(e);
            },
        }
        k = k + 1;
    }
    Ok(string_of(&content))
}

proof fn lemma_error_persists(base: Seq<char>, edits: Seq<EditInstruction>, k: int, m: int)
    requires
        0 <= k <= m,
        apply_prefix(base, edits, k) is Err,
    ensures
        apply_prefix(base, edits, m) == apply_prefix(base, edits, k),
    decreases m - k,
{
    if k < m {
        lemma_error_persists(base, edits, k, m - 1);
    }
}

/// Edits are all-or-nothing: once an instruction fails on the content left
/// by those before it, the whole list fails with that same error, so no
/// partially edited content is ever produced.
pub proof fn law_edits_all_or_nothing(base: Seq<char>, edits: Seq<EditInstruction>, k: int)
    requires
        0 <= k < edits.len(),
        apply_prefix(base, edits, k) is Ok,
        apply_one(apply_prefix(base, edits, k)->Ok_0, edits[k]) is Err,
    ensures
        apply_all(base, edits) == apply_one(apply_prefix(base, edits, k)->Ok_0, edits[k]),
{
    lemma_error_persists(base, edits, k + 1, edits.len() as int);
}

/// ASCII lower-casing of one character.
pub open spec fn ascii_lower(c: char) -> char {
    if 'A' <= c && c <= 'Z' {
        (((c as u32) + 32) as u8) as char
    } else {
        c
    }
}

pub open spec fn ascii_lower_seq(s: Seq<char>) -> Seq<char> {
    s.map_values(|c: char| ascii_lower(c))
}

fn ascii_lower_vec(v: &Vec<char>) -> (r: Vec<char>)
    ensures
        r@ == ascii_lower_seq(v@),
{
    let mut out: Vec<char> = Vec::new();
    let n = v.len();
    let mut i: usize = 0;
    while i < n
        invariant
            n == v@.len(),
            i <= n,
            out@ == ascii_lower_seq(v@.subrange(0, i as int)),
        decreases n - i,
    {
        let c = v[i];
        let l = if 'A' <= c && c <= 'Z' {
            ((c as u32 + 32) as u8) as char
        } else {
            c
        };
        out.push(l);
        assert(out@ =~= ascii_lower_seq(v@.subrange(0, i + 1)));
        i = i + 1;
    }
    assert(v@.subrange(0, n as int) =~= v@);
    out
}

/// Whether a bridge error message says the file does not exist.
pub fn is_missing_file_error(message: &str) -> (r: bool)
    ensures
        r == (contains(ascii_lower_seq(message@), "no such file"@) || contains(
            ascii_lower_seq(message@),
            "not found"@,
        )),
{
    let lower = ascii_lower_vec(&chars_of(message));
    let p1 = chars_of("no such file");
    let p2 = chars_of("not found");
    proof {
        lemma_contains_first_match(lower@, p1@);
        lemma_contains_first_match(lower@, p2@);
    }
    find_first(&lower, &p1).is_some() || find_first(&lower, &p2).is_some()
}

/// The unified diff that `diffy` produces between two texts.
pub uninterp spec fn patch_text(before: Seq<char>, after: Seq<char>) -> Seq<char>;

/// Relies on `diffy::create_patch` and `diffy::PatchFormatter::fmt_patch`:
/// the unified diff of `before` against `after`, a function of the two texts.
#[verifier::external_body]
fn unified_patch(before: &str, after: &str) -> (r: String)
    ensures
        r@ == patch_text(before@, after@),
{
    let patch = diffy::create_patch(before, after);
    let formatter = diffy::PatchFormatter::new();
    let text = formatter.fmt_patch(&patch).to_string();
    text
}

/// The diff report for `path` around the diff text `body`.
pub open spec fn diff_report(path: Seq<char>, body: Seq<char>) -> Seq<char> {
    if is_blank(body) {
        "No textual differences for "@ + path + "."@
    } else {
        "--- "@ + path + "\n+++ "@ + path + "\n"@ + body
    }
}

/// Frames the diff text `body` with `---`/`+++` headers naming `path`, or
/// says that there is no textual difference when `body` is blank.
pub fn render_diff(path: &str, body: &str) -> (r: String)
    ensures
        r@ == diff_report(path@, body@),
{
    let p = chars_of(path);
    let b = chars_of(body);
    let mut out: Vec<char> = Vec::new();
    if is_blank_chars(&b) {
        push_all(&mut out, &chars_of("No textual differences for "));
        push_all(&mut out, &p);
        push_all(&mut out, &chars_of("."));
    } else {
        push_all(&mut out, &chars_of("--- "));
        push_all(&mut out, &p);
        push_all(&mut out, &chars_of("\n+++ "));
        push_all(&mut out, &p);
        push_all(&mut out, &chars_of("\n"));
        push_all(&mut out, &b);
    }
    string_of(&out)
}

/// The diff reported after editing `path` from `before` to `after`.
pub fn format_diff_for_path(path: &str, before: &str, after: &str) -> (r: String)
    ensures
        r@ == diff_report(path@, patch_text(before@, after@)),
{
    let body = unified_patch(before, after);
    render_diff(path, &body)
}

/// What to do with a file after a list of edit instructions.
pub enum EditPlan {
    /// An instruction failed: nothing is written.
    Rejected(EditError),
    /// The instructions leave the content as it was: nothing is written.
    Unchanged,
    /// Write `content`, stage it, and report `diff`.
    Write { content: String, diff: String },
}

/// Decides the outcome of applying `edits` to `base`, the current content
/// of `path`.
pub fn plan_edits(path: &str, base: &str, edits: &[EditInstruction]) -> (r: EditPlan)
    ensures
        match apply_all(base@, edits@) {
            Err(e) => r == EditPlan::Rejected(e),
            Ok(c) => if c == base@ {
                r is Unchanged
            } else {
                r matches EditPlan::Write { content, diff } && content@ == c && diff@ == diff_report(
                    path@,
                    patch_text(base@, c),
                )
            },
        },
{
    match apply_edits(base, edits) {
        Err(e) => EditPlan::Rejected(e),
        Ok(content) => {
            if seq_eq(&chars_of(content.as_str()), &chars_of(base)) {
                EditPlan::Unchanged
            } else {
                let diff = format_diff_for_path(path, base, content.as_str());
                EditPlan::Write { content, diff }
            }
        },
    }
}

/// One staged file: its path and most recent content.
pub struct StagedFile {
    pub path: String,
    pub content: String,
}

/// The content most recently staged for `path` in the log `es`.
pub open spec fn staged_lookup(es: Seq<StagedFile>, path: Seq<char>) -> Option<Seq<char>>
    decreases es.len(),
{
    if es.len() == 0 {
        None
    } else if es.last().path@ == path {
        Some(es.last().content@)
    } else {
        staged_lookup(es.drop_last(), path)
    }
}

/// The most recently written or edited content of each path, used as the
/// base of later edits.
pub struct StagedEdits {
    entries: Vec<StagedFile>,
}

impl StagedEdits {
    /// The staged content of `path`, if any.
    pub closed spec fn lookup(&self, path: Seq<char>) -> Option<Seq<char>> {
        staged_lookup(self.entries@, path)
    }

    pub fn new() -> (r: Self)
        ensures
            forall|p: Seq<char>| r.lookup(p) is None,
    {
        StagedEdits { entries: Vec::new() }
    }

    /// The staged content of `path`.
    pub fn get(&self, path: &str) -> (r: Option<String>)
        ensures
            opt_string_view(r) == self.lookup(path@),
    {
        let mut i = self.entries.len();
        assert(self.entries@.subrange(0, i as int) =~= self.entries@);
        while i > 0
            invariant
                i <= self.entries@.len(),
                staged_lookup(self.entries@.subrange(0, i as int), path@) == self.lookup(path@),
            decreases i,
        {
            let ghost es = self.entries@.subrange(0, i as int);
            assert(es.drop_last() =~= self.entries@.subrange(0, i - 1));
            if string_eq(&self.entries[i - 1].path, path) {
                return Some(self.entries[i - 1].content.clone());
            }
            i = i - 1;
        }
        None
    }

    /// Records `content` as the staged content of `path`; other paths keep theirs.
    pub fn stage(&mut self, path: String, content: String)
        ensures
            final(self).lookup(path@) == Some(content@),
            forall|p: Seq<char>| p != path@ ==> final(self).lookup(p) == old(self).lookup(p),
    {
        let mut i = self.entries.len();
        while i > 0
            invariant
                i <= self.entries@.len(),
                self.entries@ == old(self).entries@,
                forall|j: int| i <= j < self.entries@.len() ==> self.entries@[j].path@ != path@,
            decreases i,
        {
            if string_eq(&self.entries[i - 1].path, path.as_str()) {
                let ghost before = self.entries@;
                let ghost x = StagedFile { path, content };
                self.entries.set(i - 1, StagedFile { path, content });
                proof {
                    assert(self.entries@ == before.update(i - 1, x));
                    assert forall|q: Seq<char>| true implies staged_lookup(self.entries@, q) == (if q
                        == x.path@ {
                        Some(x.content@)
                    } else {
                        staged_lookup(before, q)
                    }) by {
                        lemma_lookup_update(before, i - 1, x, q);
                    }
                }
                return;
            }
            i = i - 1;
        }
        self.entries.push(StagedFile { path, content });
        assert(self.entries@.drop_last() =~= old(self).entries@);
    }
}

/// Replacing the last entry for a path changes what that path looks up
/// and nothing else.
proof fn lemma_lookup_update(es: Seq<StagedFile>, i: int, x: StagedFile, q: Seq<char>)
    requires
        0 <= i < es.len(),
        es[i].path@ == x.path@,
        forall|j: int| i < j < es.len() ==> es[j].path@ != x.path@,
    ensures
        staged_lookup(es.update(i, x), q) == (if q == x.path@ {
            Some(x.content@)
        } else {
            staged_lookup(es, q)
        }),
    decreases es.len(),
{
    let u = es.update(i, x);
    if i == es.len() - 1 {
        assert(u.drop_last() =~= es.drop_last());
        assert(u.last() == x);
    } else {
        assert(u.drop_last() =~= es.drop_last().update(i, x));
        assert(u.last() == es.last());
        assert(es.last().path@ != x.path@);
        assert forall|j: int| i < j < es.drop_last().len() implies es.drop_last()[j].path@ != x.path@ by {
            assert(es.drop_last()[j] == es[j]);
        }
        lemma_lookup_update(es.drop_last(), i, x, q);
    }
}

pub open spec fn opt_string_view(o: Option<String>) -> Option<Seq<char>> {
    match o {
        Some(s) => Some(s@),
        None => None,
    }
}

/// Whether `a` and `b` hold the same characters.
pub(crate) fn string_eq(a: &String, b: &str) -> (r: bool)
    ensures
        r == (a@ == b@),
{
    seq_eq(&chars_of(a.as_str()), &chars_of(b))
}

/// The content a write tool call stores, and whether it is the staged
/// content: the staged content wins when the call brings nothing or the
/// same text.
pub open spec fn write_choice(staged: Option<Seq<char>>, content: Seq<char>) -> (Seq<char>, bool) {
    match staged {
        Some(s) => if content.len() == 0 || content == s {
            (s, true)
        } else {
            (content, false)
        },
        None => (content, false),
    }
}

pub fn choose_write_content(staged: Option<String>, content: String) -> (r: (String, bool))
    ensures
        (r.0@, r.1) == write_choice(opt_string_view(staged), content@),
{
    match staged {
        Some(s) => {
            if content.as_str().is_empty() || string_eq(&content, s.as_str()) {
                (s, true)
            } else {
                (content, false)
            }
        },
        None => (content, false),
    }
}

} // verus!
