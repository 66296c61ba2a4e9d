//! Line ranges read from the `@@` hunk headers of a unified diff.
use vstd::prelude::*;
use crate::bridge::{lines_of, strip_line_end};
use crate::read::split_lines;
use crate::search::{find_first, first_match};
use crate::text::{chars_of, is_ws, is_ws_char};

verus! {

/// An inclusive range of line numbers.
#[derive(Clone, Copy, Debug, PartialEq, Eq, Structural)]
pub struct LineRange {
    pub start: u32,
    pub end: u32,
}

pub open spec fn is_digit(c: char) -> bool {
    '0' <= c && c <= '9'
}

pub open spec fn digits_value(d: Seq<char>) -> int
    decreases d.len(),
{
    if d.len() == 0 {
        0
    } else {
        digits_value(d.drop_last()) * 10 + ((d.last() as u32) - ('0' as u32))
    }
}

/// Length of the sign in front of `s`'s digits: 1 for `+` or `-`, else 0.
pub open spec fn sign_len(s: Seq<char>) -> int {
    if s.len() > 0 && (s[0] == '-' || s[0] == '+') {
        1
    } else {
        0
    }
}

/// The integer that `s` spells: an optional sign and one or more ASCII digits.
pub open spec fn parse_int(s: Seq<char>) -> Option<int> {
    let d = s.subrange(sign_len(s), s.len() as int);
    if d.len() == 0 || !(forall|i: int| 0 <= i < d.len() ==> is_digit(#[trigger] d[i])) {
        None
    } else if s[0] == '-' {
        Some(-digits_value(d))
    } else {
        Some(digits_value(d))
    }
}

/// What `str::parse::<i64>` accepts: `parse_int` within the range of `i64`.
pub open spec fn parse_i64(s: Seq<char>) -> Option<i64> {
    match parse_int(s) {
        Some(v) => if i64::MIN <= v <= i64::MAX {
            Some(v as i64)
        } else {
            None
        },
        None => None,
    }
}

proof fn lemma_digits_value_nonneg(d: Seq<char>)
    requires
        forall|i: int| 0 <= i < d.len() ==> is_digit(#[trigger] d[i]),
    ensures
        digits_value(d) >= 0,
        d.len() > 0 ==> digits_value(d) >= digits_value(d.drop_last()),
    decreases d.len(),
{
    if d.len() > 0 {
        assert forall|i: int| 0 <= i < d.len() - 1 implies is_digit(#[trigger] d.drop_last()[i]) by {
            assert(d.drop_last()[i] == d[i]);
        }
        lemma_digits_value_nonneg(d.drop_last());
        assert(is_digit(d[d.len() - 1]));
    }
}

const I64_MAGNITUDE_CAP: i128 = 9223372036854775808;

/// Parses `s` as `str::parse::<i64>` does.
pub fn parse_i64_chars(s: &[char]) -> (r: Option<i64>)
    ensures
        r == parse_i64(s@),
{
    let n = s.len();
    let mut i: usize = 0;
    let mut neg = false;
    if n > 0 && s[0] == '-' {
        neg = true;
        i = 1;
    } else if n > 0 && s[0] == '+' {
        i = 1;
    }
    let ghost d = s@.subrange(i as int, n as int);
    assert(i == sign_len(s@));
    if i == n {
        assert(d.len() == 0);
        return None;
    }
    let start = i;
    let mut acc: i128 = 0;
    let mut over = false;
    assert(s@.subrange(start as int, start as int) =~= Seq::<char>::empty());
    while i < n
        invariant
            start <= i <= n == s@.len(),
            start == sign_len(s@),
            neg == (s@.len() > 0 && s@[0] == '-'),
            d == s@.subrange(start as int, n as int),
            forall|k: int| start <= k < i ==> is_digit(#[trigger] s@[k]),
            !over ==> acc == digits_value(s@.subrange(start as int, i as int)) && acc <= I64_MAGNITUDE_CAP,
            over ==> digits_value(s@.subrange(start as int, i as int)) > I64_MAGNITUDE_CAP,
            0 <= acc,
        decreases n - i,
    {
        let c = s[i];
        if !('0' <= c && c <= '9') {
            assert(d[i - start] == c);
            return None;
        }
        let ghost pre = s@.subrange(start as int, i as int);
        let ghost next = s@.subrange(start as int, i + 1);
        assert(next.drop_last() =~= pre);
        proof {
            assert forall|k: int| 0 <= k < next.len() implies is_digit(#[trigger] next[k]) by {
                assert(next[k] == s@[start + k]);
            }
            lemma_digits_value_nonneg(next);
        }
        if !over {
            let v = acc * 10 + (c as u32 - '0' as u32) as i128;
            if v > I64_MAGNITUDE_CAP {
                over = true;
            } else {
                acc = v;
            }
        }
        i = i + 1;
    }
    proof {
        assert forall|k: int| 0 <= k < d.len() implies is_digit(#[trigger] d[k]) by {
            assert(d[k] == s@[start + k]);
        }
    }
    if over {
        return None;
    }
    if neg {
        Some((0 - acc) as i64)
    } else if acc <= 9223372036854775807 {
        Some(acc as i64)
    } else {
        None
    }
}

/// Index of the first `c` in `s`.
pub open spec fn index_of(s: Seq<char>, c: char) -> Option<int>
    decreases s.len(),
{
    if s.len() == 0 {
        None
    } else if s[0] == c {
        Some(0)
    } else {
        match index_of(s.drop_first(), c) {
            Some(i) => Some(i + 1),
            None => None,
        }
    }
}

/// The first two comma-separated fields of `t` (the second when there is a comma).
pub open spec fn comma_fields(t: Seq<char>) -> (Seq<char>, Option<Seq<char>>) {
    match index_of(t, ',') {
        None => (t, None),
        Some(i) => {
            let rest = t.subrange(i + 1, t.len() as int);
            (t.subrange(0, i), Some(match index_of(rest, ',') {
                None => rest,
                Some(j) => rest.subrange(0, j),
            }))
        },
    }
}

/// The range a hunk-header token (`start[,count]`, sign removed) denotes;
/// `None` when the start does not parse or the count is not positive. A
/// count that does not parse counts as 1; a start below 1 counts as 1; start
/// and count beyond `u32::MAX` are clamped to it, and so is the end.
pub open spec fn range_of_token(t: Seq<char>) -> Option<LineRange> {
    if t.len() == 0 {
        None
    } else {
        let (a, b) = comma_fields(t);
        match parse_i64(a) {
            None => None,
            Some(start) => {
                let count: int = match b {
                    Some(bb) => match parse_i64(bb) {
                        Some(c) => c as int,
                        None => 1,
                    },
                    None => 1,
                };
                if count <= 0 {
                    None
                } else {
                    let s = if start >= 1 { start as int } else { 1 };
                    let s32 = if s <= u32::MAX { s as u32 } else { u32::MAX };
                    let c32 = if count <= u32::MAX { count as u32 } else { u32::MAX };
                    let span = if c32 >= 1 { (c32 - 1) as u32 } else { 0u32 };
                    let e = if s32 + span <= u32::MAX { (s32 + span) as u32 } else { u32::MAX };
                    Some(LineRange { start: s32, end: e })
                }
            },
        }
    }
}

/// What `index_of` gives: the first occurrence, or none anywhere.
pub proof fn lemma_index_of(s: Seq<char>, c: char)
    ensures
        index_of(s, c) matches Some(i) ==> 0 <= i < s.len() && s[i] == c && forall|k: int|
            0 <= k < i ==> s[k] != c,
        index_of(s, c) is None ==> forall|k: int| 0 <= k < s.len() ==> s[k] != c,
    decreases s.len(),
{
    if s.len() > 0 {
        lemma_index_of(s.drop_first(), c);
        assert forall|k: int| 1 <= k < s.len() implies s.drop_first()[k - 1] == s[k] by {}
    }
}

fn index_of_exec(s: &[char], start: usize, c: char) -> (r: Option<usize>)
    requires
        start <= s@.len(),
    ensures
        r is None <==> index_of(s@.subrange(start as int, s@.len() as int), c) is None,
        r matches Some(x) ==> start <= x < s@.len() && index_of(
            s@.subrange(start as int, s@.len() as int),
            c,
        ) == Some(x - start),
{
    let n = s.len();
    let mut i = start;
    proof {
        lemma_index_of(s@.subrange(start as int, n as int), c);
    }
    while i < n
        invariant
            start <= i <= n == s@.len(),
            forall|k: int| start <= k < i ==> s@[k] != c,
        decreases n - i,
    {
        if s[i] == c {
            proof {
                let t = s@.subrange(start as int, n as int);
                lemma_index_of(t, c);
                let m = i - start;
                assert(t[m] == c);
                assert forall|k: int| 0 <= k < m implies t[k] != c by {
                    assert(t[k] == s@[start + k]);
                }
                match index_of(t, c) {
                    None => {
                        assert(t[m] != c);
                    },
                    Some(j) => {
                        if j < m {
                            assert(t[j] != c);
                        } else if j > m {
                            assert(t[m] != c);
                        }
                    },
                }
            }
            return Some(i);
        }
        i = i + 1;
    }
    let ghost t = s@.subrange(start as int, n as int);
    assert forall|k: int| 0 <= k < t.len() implies t[k] != c by {
        assert(t[k] == s@[start + k]);
    }
    None
}

fn sub_vec(s: &[char], a: usize, b: usize) -> (r: Vec<char>)
    requires
        a <= b <= s@.len(),
    ensures
        r@ == s@.subrange(a as int, b as int),
{
    let mut out: Vec<char> = Vec::new();
    crate::text::push_range(&mut out, s, a, b);
    assert(out@ =~= s@.subrange(a as int, b as int));
    out
}

/// The range a hunk-header token denotes (its sign already removed).
pub fn parse_range_token(token: &str) -> (r: Option<LineRange>)
    ensures
        r == range_of_token(token@),
{
    let t = chars_of(token);
    parse_range_chars(&t)
}

fn split_comma_fields(t: &Vec<char>) -> (r: (Vec<char>, Option<Vec<char>>))
    ensures
        r.0@ == comma_fields(t@).0,
        r.1 is None <==> comma_fields(t@).1 is None,
        r.1 matches Some(b) ==> comma_fields(t@).1 == Some(b@),
{
    let n = t.len();
    assert(t@.subrange(0, n as int) =~= t@);
    proof {
        lemma_index_of(t@, ',');
    }
    match index_of_exec(t, 0, ',') {
        None => (sub_vec(t, 0, n), None),
        Some(i) => {
            let rest_start = i + 1;
            let ghost rest = t@.subrange(rest_start as int, n as int);
            let second = match index_of_exec(t, rest_start, ',') {
                None => sub_vec(t, rest_start, n),
                Some(j) => {
                    assert(rest.subrange(0, j - rest_start) =~= t@.subrange(rest_start as int, j as int));
                    sub_vec(t, rest_start, j)
                },
            };
            (sub_vec(t, 0, i), Some(second))
        },
    }
}

fn parse_range_chars(t: &Vec<char>) -> (r: Option<LineRange>)
    ensures
        r == range_of_token(t@),
{
    if t.len() == 0 {
        return None;
    }
    let (a, b) = split_comma_fields(t);
    let start = match parse_i64_chars(&a) {
        None => {
            return None;
        },
        Some(v) => v,
    };
    let count: i64 = match &b {
        Some(bb) => match parse_i64_chars(bb) {
            Some(c) => c,
            None => 1,
        },
        None => 1,
    };
    if count <= 0 {
        return None;
    }
    let s: i64 = if start >= 1 { start } else { 1 };
    let s32: u32 = if s <= 4294967295 { s as u32 } else { 4294967295 };
    let c32: u32 = if count <= 4294967295 { count as u32 } else { 4294967295 };
    let end = s32.saturating_add(c32.saturating_sub(1));
    Some(LineRange { start: s32, end })
}

/// The whitespace-separated tokens of `s`, as `str::split_whitespace` yields them.
pub open spec fn ws_tokens(s: Seq<char>) -> Seq<Seq<char>>
    decreases s.len(),
{
    if s.len() == 0 {
        Seq::empty()
    } else {
        let prev = s.drop_last();
        let p = ws_tokens(prev);
        let c = s.last();
        if is_ws(c) {
            p
        } else if prev.len() > 0 && !is_ws(prev.last()) {
            p.update(p.len() - 1, p.last().push(c))
        } else {
            p.push(seq![c])
        }
    }
}

/// The body of a hunk header line: what lies between the leading `@@` and the next `@@`.
pub open spec fn header_body(line: Seq<char>) -> Option<Seq<char>> {
    if line.len() >= 2 && line[0] == '@' && line[1] == '@' {
        let st = line.subrange(2, line.len() as int);
        match first_match(st, seq!['@', '@']) {
            Some(i) => Some(st.subrange(0, i)),
            None => None,
        }
    } else {
        None
    }
}

/// New-side and old-side ranges of a list of header tokens.
pub open spec fn token_ranges(toks: Seq<Seq<char>>) -> (Seq<LineRange>, Seq<LineRange>)
    decreases toks.len(),
{
    if toks.len() == 0 {
        (Seq::empty(), Seq::empty())
    } else {
        let (nr, or) = token_ranges(toks.drop_last());
        let t = toks.last();
        if t.len() > 0 && t[0] == '+' && range_of_token(t.drop_first()) is Some {
            (nr.push(range_of_token(t.drop_first())->0), or)
        } else if t.len() > 0 && t[0] == '-' && range_of_token(t.drop_first()) is Some {
            (nr, or.push(range_of_token(t.drop_first())->0))
        } else {
            (nr, or)
        }
    }
}

/// New-side and old-side ranges of the hunk headers among `lines`.
pub open spec fn line_ranges(lines: Seq<Seq<char>>) -> (Seq<LineRange>, Seq<LineRange>)
    decreases lines.len(),
{
    if lines.len() == 0 {
        (Seq::empty(), Seq::empty())
    } else {
        let (nr, or) = line_ranges(lines.drop_last());
        match header_body(lines.last()) {
            Some(b) => {
                let (tn, to) = token_ranges(ws_tokens(b));
                (nr + tn, or + to)
            },
            None => (nr, or),
        }
    }
}

/// New-side and old-side line ranges of every hunk header in `diff_text`.
pub open spec fn diff_line_ranges(diff_text: Seq<char>) -> (Seq<LineRange>, Seq<LineRange>) {
    line_ranges(lines_of(diff_text))
}

fn split_tokens(v: &[char]) -> (r: Vec<Vec<char>>)
    ensures
        r@.map_values(|x: Vec<char>| x@) == ws_tokens(v@),
{
    let mut toks: Vec<Vec<char>> = Vec::new();
    let n = v.len();
    let mut i: usize = 0;
    assert(v@.subrange(0, 0) =~= Seq::<char>::empty());
    while i < n
        invariant
            n == v@.len(),
            i <= n,
            toks@.map_values(|x: Vec<char>| x@) == ws_tokens(v@.subrange(0, i as int)),
        decreases n - i,
    {
        let c = v[i];
        let ghost pre = v@.subrange(0, i as int);
        let ghost next = v@.subrange(0, i + 1);
        assert(next.drop_last() =~= pre);
        assert(next.last() == c);
        let ghost p = toks@.map_values(|x: Vec<char>| x@);
        if is_ws_char(c) {
        } else if i > 0 && !is_ws_char(v[i - 1]) {
            assert(pre.last() == v@[i - 1]);
            proof {
                lemma_ws_tokens_open(pre);
            }
            let last = toks.len() - 1;
            let mut t = toks[last].clone();
            t.push(c);
            toks.set(last, t);
            assert(toks@.map_values(|x: Vec<char>| x@) =~= p.update(p.len() - 1, p.last().push(c)));
        } else {
            let mut nt: Vec<char> = Vec::new();
            nt.push(c);
            assert(nt@ =~= seq![c]);
            toks.push(nt);
            assert(toks@.map_values(|x: Vec<char>| x@) =~= p.push(seq![c]));
        }
        i = i + 1;
    }
    assert(v@.subrange(0, n as int) =~= v@);
    toks
}

proof fn lemma_ws_tokens_open(s: Seq<char>)
    requires
        s.len() > 0,
        !is_ws(s.last()),
    ensures
        ws_tokens(s).len() > 0,
    decreases s.len(),
{
    let prev = s.drop_last();
    if prev.len() > 0 && !is_ws(prev.last()) {
        lemma_ws_tokens_open(prev);
    }
}

fn push_token_ranges(toks: &Vec<Vec<char>>, new_ranges: &mut Vec<LineRange>, old_ranges: &mut Vec<LineRange>)
    ensures
        final(new_ranges)@ == old(new_ranges)@ + token_ranges(toks@.map_values(|x: Vec<char>| x@)).0,
        final(old_ranges)@ == old(old_ranges)@ + token_ranges(toks@.map_values(|x: Vec<char>| x@)).1,
{
    let ghost tv = toks@.map_values(|x: Vec<char>| x@);
    let n = toks.len();
    let mut k: usize = 0;
    assert(tv.subrange(0, 0) =~= Seq::<Seq<char>>::empty());
    assert(old(new_ranges)@ + Seq::<LineRange>::empty() =~= old(new_ranges)@);
    assert(old(old_ranges)@ + Seq::<LineRange>::empty() =~= old(old_ranges)@);
    while k < n
        invariant
            n == toks@.len() == tv.len(),
            tv == toks@.map_values(|x: Vec<char>| x@),
            k <= n,
            new_ranges@ == old(new_ranges)@ + token_ranges(tv.subrange(0, k as int)).0,
            old_ranges@ == old(old_ranges)@ + token_ranges(tv.subrange(0, k as int)).1,
        decreases n - k,
    {
        let t = &toks[k];
        assert(tv.subrange(0, k + 1).drop_last() =~= tv.subrange(0, k as int));
        assert(tv.subrange(0, k + 1).last() == t@);
        let ghost nb = new_ranges@;
        let ghost ob = old_ranges@;
        if t.len() > 0 {
            let rest = sub_vec(t, 1, t.len());
            assert(rest@ =~= t@.drop_first());
            let parsed = parse_range_chars(&rest);
            if t[0] == '+' && parsed.is_some() {
                new_ranges.push(parsed.unwrap());
            } else if t[0] == '-' && parsed.is_some() {
                old_ranges.push(parsed.unwrap());
            }
        }
        assert(new_ranges@ =~= old(new_ranges)@ + token_ranges(tv.subrange(0, k + 1)).0);
        assert(old_ranges@ =~= old(old_ranges)@ + token_ranges(tv.subrange(0, k + 1)).1);
        k = k + 1;
    }
    assert(tv.subrange(0, n as int) =~= tv);
}

/// The new-side and old-side line ranges named by the `@@` headers of a unified diff.
pub fn parse_diff_line_ranges(diff_text: &str) -> (r: (Vec<LineRange>, Vec<LineRange>))
    ensures
        r.0@ == diff_line_ranges(diff_text@).0,
        r.1@ == diff_line_ranges(diff_text@).1,
{
    let v = chars_of(diff_text);
    let segs = split_lines(&v);
    let ghost lv = lines_of(diff_text@);
    assert(lv =~= segs@.map_values(|x: Vec<char>| x@).map_values(|seg: Seq<char>| strip_line_end(seg)));
    let mut new_ranges: Vec<LineRange> = Vec::new();
    let mut old_ranges: Vec<LineRange> = Vec::new();
    let at2: Vec<char> = vec!['@', '@'];
    assert(at2@ =~= seq!['@', '@']);
    let n = segs.len();
    let mut k: usize = 0;
    assert(lv.subrange(0, 0) =~= Seq::<Seq<char>>::empty());
    while k < n
        invariant
            n == segs@.len() == lv.len(),
            lv == segs@.map_values(|x: Vec<char>| x@).map_values(|seg: Seq<char>| strip_line_end(seg)),
            at2@ == seq!['@', '@'],
            k <= n,
            new_ranges@ == line_ranges(lv.subrange(0, k as int)).0,
            old_ranges@ == line_ranges(lv.subrange(0, k as int)).1,
        decreases n - k,
    {
        let seg = &segs[k];
        let cut = crate::bridge::strip_line_end_len(seg);
        let line = sub_vec(seg, 0, cut);
        assert(line@ == lv[k as int]);
        assert(lv.subrange(0, k + 1).drop_last() =~= lv.subrange(0, k as int));
        assert(lv.subrange(0, k + 1).last() == line@);
        if line.len() >= 2 && line[0] == '@' && line[1] == '@' {
            let st = sub_vec(&line, 2, line.len());
            match find_first(&st, &at2) {
                Some(i) => {
                    proof {
                        crate::search::lemma_first_match_from(st@, at2@, 0);
                    }
                    let body = sub_vec(&st, 0, i);
                    let toks = split_tokens(&body);
                    push_token_ranges(&toks, &mut new_ranges, &mut old_ranges);
                },
                None => {},
            }
        }
        k = k + 1;
    }
    assert(lv.subrange(0, n as int) =~= lv);
    (new_ranges, old_ranges)
}

} // verus!
