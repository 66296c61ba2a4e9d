//! Substring search and replacement over character sequences, with the
//! meaning of `str::find`, `str::contains` and `str::replace` on valid text.
use vstd::prelude::*;

verus! {

/// Whether `pat` occurs in `s` starting at index `i`.
pub open spec fn matches_at(s: Seq<char>, pat: Seq<char>, i: int) -> bool {
    0 <= i && i + pat.len() <= s.len() && s.subrange(i, i + pat.len()) == pat
}

/// First index at or after `i` where `pat` occurs in `s`.
pub open spec fn first_match_from(s: Seq<char>, pat: Seq<char>, i: int) -> Option<int>
    decreases s.len() + 1 - i,
{
    if i < 0 || i + pat.len() > s.len() {
        None
    } else if matches_at(s, pat, i) {
        Some(i)
    } else {
        first_match_from(s, pat, i + 1)
    }
}

/// First index where `pat` occurs in `s`.
pub open spec fn first_match(s: Seq<char>, pat: Seq<char>) -> Option<int> {
    first_match_from(s, pat, 0)
}

/// Whether `pat` occurs anywhere in `s`.
pub open spec fn contains(s: Seq<char>, pat: Seq<char>) -> bool {
    exists|i: int| matches_at(s, pat, i)
}

/// `s[i..]` with every non-overlapping occurrence of a non-empty `pat`,
/// scanning from the left, replaced by `rep`.
pub open spec fn replace_all_from(s: Seq<char>, pat: Seq<char>, rep: Seq<char>, i: int) -> Seq<char>
    decreases s.len() - i,
{
    if i < 0 || i >= s.len() {
        Seq::empty()
    } else if pat.len() > 0 && matches_at(s, pat, i) {
        rep + replace_all_from(s, pat, rep, i + pat.len())
    } else {
        seq![s[i]] + replace_all_from(s, pat, rep, i + 1)
    }
}

/// `s` with every non-overlapping occurrence of a non-empty `pat` replaced by `rep`.
pub open spec fn replace_all(s: Seq<char>, pat: Seq<char>, rep: Seq<char>) -> Seq<char> {
    replace_all_from(s, pat, rep, 0)
}

/// `s` with its first occurrence of `pat` replaced by `rep` (unchanged when none).
pub open spec fn replace_first(s: Seq<char>, pat: Seq<char>, rep: Seq<char>) -> Seq<char> {
    match first_match(s, pat) {
        Some(i) => s.subrange(0, i) + rep + s.subrange(i + pat.len(), s.len() as int),
        None => s,
    }
}

pub proof fn lemma_first_match_from(s: Seq<char>, pat: Seq<char>, i: int)
    requires
        0 <= i,
    ensures
        first_match_from(s, pat, i) is Some <==> exists|j: int| i <= j && matches_at(s, pat, j),
        first_match_from(s, pat, i) is Some ==> matches_at(
            s,
            pat,
            first_match_from(s, pat, i)->0,
        ),
    decreases s.len() + 1 - i,
{
    if i + pat.len() > s.len() {
        assert forall|j: int| i <= j implies !matches_at(s, pat, j) by {}
    } else if !matches_at(s, pat, i) {
        lemma_first_match_from(s, pat, i + 1);
        assert forall|j: int| i <= j && matches_at(s, pat, j) implies i + 1 <= j by {}
    }
}

pub proof fn lemma_contains_first_match(s: Seq<char>, pat: Seq<char>)
    ensures
        contains(s, pat) <==> first_match(s, pat) is Some,
{
    lemma_first_match_from(s, pat, 0);
    if contains(s, pat) {
        let j = choose|j: int| matches_at(s, pat, j);
        assert(0 <= j);
    }
}

/// Whether `pat` occurs in `s` at index `i`.
pub(crate) fn matches_at_exec(s: &[char], pat: &[char], i: usize) -> (r: bool)
    ensures
        r == matches_at(s@, pat@, i as int),
{
    if pat.len() > s.len() || i > s.len() - pat.len() {
        return false;
    }
    let m = pat.len();
    let mut j: usize = 0;
    while j < m
        invariant
            i + m <= s.len(),
            s.len() == s@.len(),
            m == pat@.len(),
            j <= m,
            forall|k: int| 0 <= k < j ==> s@[i + k] == pat@[k],
        decreases m - j,
    {
        if s[i + j] != pat[j] {
            assert(s@.subrange(i as int, i + m)[j as int] != pat@[j as int]);
            return false;
        }
        j = j + 1;
    }
    assert(s@.subrange(i as int, i + m) =~= pat@);
    true
}

/// The first index where `pat` occurs in `s`.
pub(crate) fn find_first(s: &[char], pat: &[char]) -> (r: Option<usize>)
    ensures
        r matches Some(i) ==> first_match(s@, pat@) == Some(i as int),
        r is None ==> first_match(s@, pat@) is None,
{
    if pat.len() > s.len() {
        return None;
    }
    let last = s.len() - pat.len();
    let mut i: usize = 0;
    while i <= last
        invariant
            last + pat@.len() == s@.len(),
            first_match_from(s@, pat@, 0) == first_match_from(s@, pat@, i as int),
        decreases last + 1 - i,
    {
        if matches_at_exec(s, pat, i) {
            return Some(i);
        }
        if i == last {
            assert(first_match_from(s@, pat@, i + 1) is None);
            return None;
        }
        i = i + 1;
    }
    None
}

/// `s` with every non-overlapping occurrence of `pat` (non-empty) replaced by `rep`.
pub(crate) fn replace_all_exec(s: &[char], pat: &[char], rep: &[char]) -> (r: Vec<char>)
    requires
        pat@.len() > 0,
    ensures
        r@ == replace_all(s@, pat@, rep@),
{
    let mut out: Vec<char> = Vec::new();
    let mut i: usize = 0;
    let n = s.len();
    while i < n
        invariant
            n == s@.len(),
            pat@.len() > 0,
            i <= n,
            out@ + replace_all_from(s@, pat@, rep@, i as int) == replace_all(s@, pat@, rep@),
        decreases n - i,
    {
        let ghost before = out@;
        if matches_at_exec(s, pat, i) {
            crate::text::push_all(&mut out, rep);
            assert(out@ + replace_all_from(s@, pat@, rep@, i + pat@.len()) =~= before
                + replace_all_from(s@, pat@, rep@, i as int));
            i = i + pat.len();
        } else {
            out.push(s[i]);
            assert(out@ + replace_all_from(s@, pat@, rep@, i + 1) =~= before
                + replace_all_from(s@, pat@, rep@, i as int));
            i = i + 1;
        }
    }
    assert(replace_all_from(s@, pat@, rep@, i as int) =~= Seq::<char>::empty());
    assert(out@ =~= out@ + Seq::<char>::empty());
    out
}

/// `s` with its first occurrence of `pat` replaced by `rep`; `None` when
/// `pat` does not occur.
pub(crate) fn replace_first_exec(s: &[char], pat: &[char], rep: &[char]) -> (r: Option<Vec<char>>)
    ensures
        r is None <==> first_match(s@, pat@) is None,
        r matches Some(v) ==> v@ == replace_first(s@, pat@, rep@),
{
    match find_first(s, pat) {
        None => None,
        Some(i) => {
            proof {
                lemma_first_match_from(s@, pat@, 0);
                assert(matches_at(s@, pat@, i as int));
            }
            let mut out: Vec<char> = Vec::new();
            crate::text::push_range(&mut out, s, 0, i);
            crate::text::push_all(&mut out, rep);
            let n = s.len();
            assert(i + pat@.len() <= n);
            crate::text::push_range(&mut out, s, i + pat.len(), n);
            assert(out@ =~= replace_first(s@, pat@, rep@));
            Some(out)
        },
    }
}

} // verus!
