//! Workspace path resolution for the filesystem bridge, and display paths
//! for tool-call titles. Paths use `/` as separator.
use vstd::prelude::*;
use crate::text::{chars_of, push_all, string_of};

verus! {

/// `s` split at every `/`; always at least one (possibly empty) part.
pub open spec fn split_slash(s: Seq<char>) -> Seq<Seq<char>>
    decreases s.len(),
{
    if s.len() == 0 {
        seq![Seq::empty()]
    } else if s.last() == '/' {
        split_slash(s.drop_last()).push(Seq::empty())
    } else {
        let p = split_slash(s.drop_last());
        p.update(p.len() - 1, p.last().push(s.last()))
    }
}

pub proof fn lemma_split_slash_nonempty(s: Seq<char>)
    ensures
        split_slash(s).len() >= 1,
    decreases s.len(),
{
    if s.len() > 0 {
        lemma_split_slash_nonempty(s.drop_last());
    }
}

pub open spec fn is_cur_dir(c: Seq<char>) -> bool {
    c == seq!['.']
}

pub open spec fn is_parent_dir(c: Seq<char>) -> bool {
    c == seq!['.', '.']
}

/// A component that names a directory entry: not empty, `.` or `..`.
pub open spec fn is_normal_part(c: Seq<char>) -> bool {
    c.len() > 0 && !is_cur_dir(c) && !is_parent_dir(c) && !c.contains('/')
}

/// The effect of one component on the stack of parts below the root:
/// `.` and empty parts are ignored, `..` pops, and popping an empty stack
/// escapes the root.
pub open spec fn component_step(st: Seq<Seq<char>>, c: Seq<char>) -> Option<Seq<Seq<char>>> {
    if c.len() == 0 || is_cur_dir(c) {
        Some(st)
    } else if is_parent_dir(c) {
        if st.len() == 0 {
            None
        } else {
            Some(st.drop_last())
        }
    } else {
        Some(st.push(c))
    }
}

/// The parts below the root that a list of components leads to, or `None`
/// when it climbs above the root.
pub open spec fn normalize(parts: Seq<Seq<char>>) -> Option<Seq<Seq<char>>>
    decreases parts.len(),
{
    if parts.len() == 0 {
        Some(Seq::empty())
    } else {
        match normalize(parts.drop_last()) {
            None => None,
            Some(st) => component_step(st, parts.last()),
        }
    }
}

/// `base` extended by one part, with a `/` between them where needed.
pub open spec fn join_part(base: Seq<char>, part: Seq<char>) -> Seq<char> {
    if base.len() == 0 || base.last() == '/' {
        base + part
    } else {
        base + seq!['/'] + part
    }
}

/// `root` extended by each of `parts` in turn.
pub open spec fn join_under(root: Seq<char>, parts: Seq<Seq<char>>) -> Seq<char>
    decreases parts.len(),
{
    if parts.len() == 0 {
        root
    } else {
        join_part(join_under(root, parts.drop_last()), parts.last())
    }
}

pub open spec fn is_absolute(p: Seq<char>) -> bool {
    p.len() > 0 && p[0] == '/'
}

pub open spec fn escape_error() -> Seq<char> {
    "path escapes workspace root"@
}

/// Where a bridge request for `path` lands, given the workspace root.
pub open spec fn resolve_spec(root: Seq<char>, path: Seq<char>) -> Result<Seq<char>, Seq<char>> {
    if is_absolute(path) {
        Ok(path)
    } else {
        match normalize(split_slash(path)) {
            Some(st) => Ok(join_under(root, st)),
            None => Err(escape_error()),
        }
    }
}

pub open spec fn string_result_view(r: Result<String, String>) -> Result<Seq<char>, Seq<char>> {
    match r {
        Ok(s) => Ok(s@),
        Err(e) => Err(e@),
    }
}

pub open spec fn parts_view(v: Seq<Vec<char>>) -> Seq<Seq<char>> {
    v.map_values(|p: Vec<char>| p@)
}

proof fn lemma_step_keeps_normal(st: Seq<Seq<char>>, c: Seq<char>)
    requires
        forall|i: int| 0 <= i < st.len() ==> is_normal_part(#[trigger] st[i]),
        !c.contains('/'),
        component_step(st, c) is Some,
    ensures
        forall|i: int|
            0 <= i < component_step(st, c)->0.len() ==> is_normal_part(
                #[trigger] component_step(st, c)->0[i],
            ),
{
    let r = component_step(st, c)->0;
    if c.len() == 0 || is_cur_dir(c) {
    } else if is_parent_dir(c) {
        assert forall|i: int| 0 <= i < r.len() implies is_normal_part(#[trigger] r[i]) by {
            assert(r[i] == st[i]);
        }
    } else {
        assert forall|i: int| 0 <= i < r.len() implies is_normal_part(#[trigger] r[i]) by {
            if i < st.len() {
                assert(r[i] == st[i]);
            }
        }
    }
}

/// Every part in a split holds no `/`.
pub proof fn lemma_split_parts_have_no_slash(s: Seq<char>)
    ensures
        forall|i: int| 0 <= i < split_slash(s).len() ==> !(#[trigger] split_slash(s)[i]).contains('/'),
    decreases s.len(),
{
    lemma_split_slash_nonempty(s);
    if s.len() > 0 {
        lemma_split_slash_nonempty(s.drop_last());
        lemma_split_parts_have_no_slash(s.drop_last());
        let p = split_slash(s.drop_last());
        if s.last() != '/' {
            let q = p.last().push(s.last());
            assert(!p.last().contains('/'));
            assert forall|k: int| 0 <= k < q.len() implies q[k] != '/' by {
                if k < p.last().len() {
                    assert(q[k] == p.last()[k]);
                }
            }
        }
    }
}

/// The parts a normalization yields are all normal, when its input parts hold no `/`.
pub proof fn lemma_normalize_normal(parts: Seq<Seq<char>>)
    requires
        forall|i: int| 0 <= i < parts.len() ==> !(#[trigger] parts[i]).contains('/'),
    ensures
        normalize(parts) matches Some(st) ==> forall|i: int|
            0 <= i < st.len() ==> is_normal_part(#[trigger] st[i]),
    decreases parts.len(),
{
    if parts.len() > 0 {
        let prev = parts.drop_last();
        assert forall|i: int| 0 <= i < prev.len() implies !(#[trigger] prev[i]).contains('/') by {
            assert(prev[i] == parts[i]);
        }
        lemma_normalize_normal(prev);
        if normalize(prev) is Some && component_step(normalize(prev)->0, parts.last()) is Some {
            lemma_step_keeps_normal(normalize(prev)->0, parts.last());
        }
    }
}

fn is_dot_part(c: &Vec<char>) -> (r: bool)
    ensures
        r == is_cur_dir(c@),
{
    if c.len() == 1 && c[0] == '.' {
        assert(c@ =~= seq!['.']);
        true
    } else {
        false
    }
}

fn is_dot_dot_part(c: &Vec<char>) -> (r: bool)
    ensures
        r == is_parent_dir(c@),
{
    if c.len() == 2 && c[0] == '.' && c[1] == '.' {
        assert(c@ =~= seq!['.', '.']);
        true
    } else {
        false
    }
}

/// Applies one component to the stack; `false` when it climbs above the root.
fn apply_component(stack: &mut Vec<Vec<char>>, c: Vec<char>) -> (ok: bool)
    ensures
        ok <==> component_step(parts_view(old(stack)@), c@) is Some,
        ok ==> parts_view(final(stack)@) == component_step(parts_view(old(stack)@), c@)->0,
{
    if c.len() == 0 || is_dot_part(&c) {
        true
    } else if is_dot_dot_part(&c) {
        if stack.len() == 0 {
            false
        } else {
            stack.pop();
            assert(parts_view(stack@) =~= parts_view(old(stack)@).drop_last());
            true
        }
    } else {
        stack.push(c);
        assert(parts_view(stack@) =~= parts_view(old(stack)@).push(c@));
        true
    }
}

/// Resolves a bridge request path against `workspace_root`. Absolute paths
/// pass through; relative ones are normalized component by component and
/// may not climb above the root.
pub fn resolve_path(workspace_root: &str, path: &str) -> (r: Result<String, String>)
    ensures
        string_result_view(r) == resolve_spec(workspace_root@, path@),
{
    let p = chars_of(path);
    if p.len() > 0 && p[0] == '/' {
        return Ok(string_of(&p));
    }
    let mut stack: Vec<Vec<char>> = Vec::new();
    let mut cur: Vec<char> = Vec::new();
    let mut escaped = false;
    let n = p.len();
    let mut i: usize = 0;
    assert(p@.subrange(0, 0) =~= Seq::<char>::empty());
    assert(parts_view(stack@) =~= Seq::<Seq<char>>::empty());
    while i < n
        invariant
            n == p@.len(),
            i <= n,
            split_slash(p@.subrange(0, i as int)).len() >= 1,
            cur@ == split_slash(p@.subrange(0, i as int)).last(),
            escaped ==> normalize(split_slash(p@.subrange(0, i as int)).drop_last()) is None,
            !escaped ==> normalize(split_slash(p@.subrange(0, i as int)).drop_last()) == Some(
                parts_view(stack@),
            ),
        decreases n - i,
    {
        let ghost pre = p@.subrange(0, i as int);
        let ghost next = p@.subrange(0, i + 1);
        assert(next.drop_last() =~= pre);
        proof {
            lemma_split_slash_nonempty(pre);
        }
        let c = p[i];
        if c == '/' {
            assert(split_slash(next).drop_last() =~= split_slash(pre));
            let part = cur.clone();
            cur = Vec::new();
            if !escaped {
                let ok = apply_component(&mut stack, part);
                if !ok {
                    escaped = true;
                }
            }
            assert(cur@ =~= split_slash(next).last());
        } else {
            assert(split_slash(next).drop_last() =~= split_slash(pre).drop_last());
            cur.push(c);
        }
        i = i + 1;
    }
    assert(p@.subrange(0, n as int) =~= p@);
    if escaped {
        return Err("path escapes workspace root".to_owned());
    }
    let ok = apply_component(&mut stack, cur);
    if !ok {
        return Err("path escapes workspace root".to_owned());
    }
    let mut out = chars_of(workspace_root);
    let m = stack.len();
    let mut k: usize = 0;
    assert(parts_view(stack@).subrange(0, 0) =~= Seq::<Seq<char>>::empty());
    while k < m
        invariant
            m == stack@.len(),
            k <= m,
            out@ == join_under(workspace_root@, parts_view(stack@).subrange(0, k as int)),
        decreases m - k,
    {
        assert(parts_view(stack@).subrange(0, k + 1).drop_last() =~= parts_view(stack@).subrange(
            0,
            k as int,
        ));
        if out.len() > 0 && out[out.len() - 1] != '/' {
            out.push('/');
        }
        push_all(&mut out, &stack[k]);
        assert(out@ =~= join_under(workspace_root@, parts_view(stack@).subrange(0, k + 1)));
        k = k + 1;
    }
    assert(parts_view(stack@).subrange(0, m as int) =~= parts_view(stack@));
    Ok(string_of(&out))
}

/// A relative request path never leaves the workspace root: it resolves to
/// the root extended by directory-entry names only (no `.`, `..`, empty
/// parts or separators inside a part), or is refused with the escape error.
pub proof fn law_path_containment(root: Seq<char>, path: Seq<char>)
    requires
        !is_absolute(path),
    ensures
        resolve_spec(root, path) is Err ==> resolve_spec(root, path) == Err::<Seq<char>, Seq<char>>(
            escape_error(),
        ),
        resolve_spec(root, path) is Ok ==> exists|parts: Seq<Seq<char>>|
            (forall|i: int| 0 <= i < parts.len() ==> is_normal_part(#[trigger] parts[i]))
                && resolve_spec(root, path) == Ok::<Seq<char>, Seq<char>>(join_under(root, parts)),
{
    lemma_split_parts_have_no_slash(path);
    lemma_normalize_normal(split_slash(path));
}

/// What `Path::strip_prefix` leaves of `raw` below `base`, as displayed text.
pub uninterp spec fn path_relative_to(raw: Seq<char>, base: Seq<char>) -> Option<Seq<char>>;

/// What `Path::file_name` gives for `raw`.
pub uninterp spec fn path_file_name(raw: Seq<char>) -> Option<Seq<char>>;

pub open spec fn opt_view(o: Option<String>) -> Option<Seq<char>> {
    match o {
        Some(s) => Some(s@),
        None => None,
    }
}

/// Relies on `std::path::Path::strip_prefix`: `raw` relative to `base` when
/// `base`'s components begin `raw`'s, as text.
#[verifier::external_body]
fn strip_base(raw: &str, base: &str) -> (r: Option<String>)
    ensures
        opt_view(r) == path_relative_to(raw@, base@),
{
    std::path::Path::new(raw).strip_prefix(base).ok().map(|p| p.display().to_string())
}

/// Relies on `std::path::Path::file_name`: the last normal component of `raw`.
#[verifier::external_body]
fn file_name_of(raw: &str) -> (r: Option<String>)
    ensures
        opt_view(r) == path_file_name(raw@),
{
    std::path::Path::new(raw).file_name().map(|n| n.to_string_lossy().into_owned())
}

/// The display path chosen from a relative form and a file name of `raw`.
pub open spec fn display_choice(raw: Seq<char>, relative: Option<Seq<char>>, name: Option<Seq<char>>) -> Seq<char> {
    match relative {
        Some(rel) if rel.len() > 0 => rel,
        _ => match name {
            Some(n) => n,
            None => raw,
        },
    }
}

/// Picks the display form of `raw`: its non-empty relative form, else its
/// file name, else `raw` itself.
pub fn choose_display_path(raw: &str, relative: Option<String>, file_name: Option<String>) -> (r: String)
    ensures
        r@ == display_choice(raw@, opt_view(relative), opt_view(file_name)),
{
    if let Some(rel) = relative {
        if !rel.as_str().is_empty() {
            return rel;
        }
    }
    match file_name {
        Some(n) => n,
        None => raw.to_owned(),
    }
}

/// A user-facing path for `raw_path`: relative to `cwd` when below it, else
/// its file name, else the raw text.
pub fn display_fs_path(cwd: &str, raw_path: &str) -> (r: String)
    ensures
        r@ == display_choice(raw_path@, path_relative_to(raw_path@, cwd@), path_file_name(raw_path@)),
{
    let relative = strip_base(raw_path, cwd);
    let name = file_name_of(raw_path);
    choose_display_path(raw_path, relative, name)
}

} // verus!
