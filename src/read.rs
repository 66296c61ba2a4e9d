//! Paged reads: cutting a file's text into a snippet bounded by a line
//! limit and a byte cap, and describing where to continue.
use vstd::prelude::*;
use crate::text::{
    byte_len, byte_len_range, chars_of, lemma_byte_len_append, push_all, string_of, utf8_width,
    utf8_width_of,
};

verus! {

/// Lines returned by default when a read names no limit.
pub const DEFAULT_READ_LINE_LIMIT: u32 = 1000;

/// Bytes returned at most by one read.
pub const MAX_READ_BYTES: usize = 51200;

/// `s` cut after every `\n`, each piece keeping its `\n`; a last piece
/// without `\n` stands when `s` does not end with one. These pieces are
/// also what `str::lines` counts.
pub open spec fn split_inclusive_nl(s: Seq<char>) -> Seq<Seq<char>>
    decreases s.len(),
{
    if s.len() == 0 {
        Seq::empty()
    } else {
        let p = split_inclusive_nl(s.drop_last());
        if p.len() == 0 || p.last().last() == '\n' {
            p.push(seq![s.last()])
        } else {
            p.update(p.len() - 1, p.last().push(s.last()))
        }
    }
}

/// The longest prefix of `s` whose UTF-8 length is at most `budget`.
pub open spec fn fit_prefix(s: Seq<char>, budget: nat) -> Seq<char>
    decreases s.len(),
{
    if s.len() == 0 || utf8_width(s[0]) > budget {
        Seq::empty()
    } else {
        seq![s[0]] + fit_prefix(s.drop_first(), (budget - utf8_width(s[0])) as nat)
    }
}

/// What a snippet takes of `segs` under a line `limit` and a byte `budget`:
/// whole lines while both allow; a line that does not fit is cut on a
/// character boundary and ends the snippet.
pub struct Taken {
    pub text: Seq<char>,
    pub lines: nat,
    pub by_line_limit: bool,
    pub by_bytes: bool,
}

pub open spec fn take_lines(segs: Seq<Seq<char>>, limit: nat, budget: nat) -> Taken
    decreases segs.len(),
{
    if segs.len() == 0 {
        Taken { text: Seq::empty(), lines: 0, by_line_limit: false, by_bytes: false }
    } else if limit == 0 {
        Taken { text: Seq::empty(), lines: 0, by_line_limit: true, by_bytes: false }
    } else if byte_len(segs[0]) > budget {
        Taken { text: fit_prefix(segs[0], budget), lines: 1, by_line_limit: false, by_bytes: true }
    } else {
        let rest = take_lines(segs.drop_first(), (limit - 1) as nat, (budget - byte_len(segs[0])) as nat);
        Taken { text: segs[0] + rest.text, lines: rest.lines + 1, ..rest }
    }
}

/// Byte index of the largest character boundary of `segment` at or below `max_bytes`.
pub fn truncate_to_char_boundary(segment: &str, max_bytes: usize) -> (r: usize)
    ensures
        r == byte_len(fit_prefix(segment@, max_bytes as nat)),
        r <= max_bytes,
{
    let v = chars_of(segment);
    truncate_chars(&v, max_bytes).1
}

/// Characters and bytes of the longest prefix of `v` that fits in `max_bytes`.
fn truncate_chars(v: &Vec<char>, max_bytes: usize) -> (r: (usize, usize))
    ensures
        r.0 <= v@.len(),
        v@.subrange(0, r.0 as int) == fit_prefix(v@, max_bytes as nat),
        r.1 == byte_len(fit_prefix(v@, max_bytes as nat)),
        r.1 <= max_bytes,
{
    let n = v.len();
    let mut i: usize = 0;
    let mut used: usize = 0;
    assert(v@.subrange(0, 0) =~= Seq::<char>::empty());
    assert(v@.subrange(0, n as int) =~= v@);
    assert(Seq::<char>::empty() + fit_prefix(v@, max_bytes as nat) =~= fit_prefix(v@, max_bytes as nat));
    while i < n
        invariant
            n == v@.len(),
            i <= n,
            used <= max_bytes,
            used == byte_len(v@.subrange(0, i as int)),
            fit_prefix(v@, max_bytes as nat) == v@.subrange(0, i as int) + fit_prefix(
                v@.subrange(i as int, n as int),
                (max_bytes - used) as nat,
            ),
        decreases n - i,
    {
        let w = utf8_width_of(v[i]);
        let ghost rest = v@.subrange(i as int, n as int);
        assert(rest[0] == v@[i as int]);
        if w > max_bytes - used {
            assert(fit_prefix(rest, (max_bytes - used) as nat) =~= Seq::<char>::empty());
            assert(v@.subrange(0, i as int) + Seq::<char>::empty() =~= v@.subrange(0, i as int));
            return (i, used);
        }
        assert(rest.drop_first() =~= v@.subrange(i + 1, n as int));
        assert(v@.subrange(0, i + 1) =~= v@.subrange(0, i as int) + seq![v@[i as int]]);
        assert(v@.subrange(0, i + 1).drop_last() =~= v@.subrange(0, i as int));
        assert(v@.subrange(0, i + 1) + fit_prefix(v@.subrange(i + 1, n as int), (max_bytes - used
            - w) as nat) =~= v@.subrange(0, i as int) + fit_prefix(rest, (max_bytes - used) as nat));
        used = used + w;
        i = i + 1;
    }
    assert(v@.subrange(i as int, n as int) =~= Seq::<char>::empty());
    assert(v@.subrange(0, i as int) + Seq::<char>::empty() =~= v@.subrange(0, i as int));
    (i, used)
}

/// Splits `v` into lines that keep their `\n`.
pub(crate) fn split_lines(v: &Vec<char>) -> (r: Vec<Vec<char>>)
    ensures
        r@.map_values(|x: Vec<char>| x@) == split_inclusive_nl(v@),
{
    let mut segs: Vec<Vec<char>> = Vec::new();
    let mut cur: Vec<char> = Vec::new();
    let n = v.len();
    let mut i: usize = 0;
    assert(v@.subrange(0, 0) =~= Seq::<char>::empty());
    while i < n
        invariant
            n == v@.len(),
            i <= n,
            segs@.len() == 0 || segs@.last()@.len() > 0,
            forall|k: int| 0 <= k < segs@.len() ==> (#[trigger] segs@[k])@.len() > 0 && segs@[k]@.last() == '\n',
            cur@.len() == 0 || cur@.last() != '\n',
            (if cur@.len() == 0 {
                segs@.map_values(|x: Vec<char>| x@)
            } else {
                segs@.map_values(|x: Vec<char>| x@).push(cur@)
            }) == split_inclusive_nl(v@.subrange(0, i as int)),
        decreases n - i,
    {
        let c = v[i];
        let ghost pre = v@.subrange(0, i as int);
        let ghost old_segs = segs@.map_values(|x: Vec<char>| x@);
        assert(v@.subrange(0, i + 1).drop_last() =~= pre);
        assert(v@.subrange(0, i + 1).last() == c);
        proof {
            if segs@.len() > 0 {
                assert(old_segs.last() == segs@[segs@.len() - 1]@);
                assert(segs@[segs@.len() - 1]@.last() == '\n');
            }
        }
        let ghost old_cur = cur@;
        let ghost next = v@.subrange(0, i + 1);
        let ghost p = split_inclusive_nl(pre);
        let ghost target = old_segs.push(old_cur.push(c));
        proof {
            assert(split_inclusive_nl(next) == (if p.len() == 0 || p.last().last() == '\n' {
                p.push(seq![c])
            } else {
                p.update(p.len() - 1, p.last().push(c))
            }));
            if old_cur.len() == 0 {
                assert(p == old_segs);
                assert(old_cur.push(c) =~= seq![c]);
                assert(split_inclusive_nl(next) == target);
            } else {
                assert(p == old_segs.push(old_cur));
                assert(p.last() == old_cur);
                assert(p.update(p.len() - 1, p.last().push(c)) =~= target);
            }
        }
        cur.push(c);
        if c == '\n' {
            let done = cur.clone();
            cur = Vec::new();
            segs.push(done);
            assert(segs@.map_values(|x: Vec<char>| x@) =~= target);
        } else {
            assert(old_segs.push(cur@) =~= target);
        }
        i = i + 1;
    }
    assert(v@.subrange(0, n as int) =~= v@);
    if cur.len() > 0 {
        segs.push(cur);
    }
    assert(segs@.map_values(|x: Vec<char>| x@) =~= split_inclusive_nl(v@));
    segs
}

/// A snippet of a file's text and how it was bounded.
pub struct ReadSnippet {
    pub text: String,
    pub lines_returned: u32,
    pub end_line: u32,
    pub truncated_by_line_limit: bool,
    pub truncated_by_bytes: bool,
    pub additional_lines_available: bool,
    pub bytes_returned: usize,
}

pub open spec fn sat_sub_u32(a: u32, b: u32) -> u32 {
    if a >= b {
        (a - b) as u32
    } else {
        0
    }
}

pub open spec fn sat_add_u32(a: u32, b: u32) -> u32 {
    if a + b <= u32::MAX {
        (a + b) as u32
    } else {
        u32::MAX
    }
}

/// The last line number a snippet of `lines` lines starting at `start_line` covers.
pub open spec fn end_line_of(start_line: u32, lines: nat) -> u32 {
    if lines == 0 {
        sat_sub_u32(start_line, 1)
    } else {
        sat_add_u32(start_line, (lines - 1) as u32)
    }
}

/// Whether `r` is the snippet of `raw` for a read starting at `start_line`
/// with the given line limit and byte cap.
pub open spec fn is_snippet_of(r: ReadSnippet, raw: Seq<char>, start_line: u32, requested_limit: u32, max_bytes: usize) -> bool {
    if raw.len() == 0 || requested_limit == 0 {
        &&& r.text@ == Seq::<char>::empty()
        &&& r.lines_returned == 0
        &&& r.end_line == sat_sub_u32(start_line, 1)
        &&& !r.truncated_by_line_limit && !r.truncated_by_bytes && !r.additional_lines_available
        &&& r.bytes_returned == 0
    } else {
        let segs = split_inclusive_nl(raw);
        let t = take_lines(segs, requested_limit as nat, max_bytes as nat);
        &&& r.text@ == t.text
        &&& r.lines_returned == t.lines
        &&& r.end_line == end_line_of(start_line, t.lines)
        &&& r.truncated_by_line_limit == t.by_line_limit
        &&& r.truncated_by_bytes == t.by_bytes
        &&& r.bytes_returned == byte_len(t.text)
        &&& r.additional_lines_available == (t.by_bytes || segs.len() > t.lines || byte_len(t.text)
            < byte_len(raw))
    }
}

/// Cuts `raw` into a snippet of at most `requested_limit` lines and
/// `max_bytes` bytes, cutting an oversized line on a character boundary.
pub fn prepare_read_snippet(raw: &str, start_line: u32, requested_limit: u32, max_bytes: usize) -> (r: ReadSnippet)
    ensures
        is_snippet_of(r, raw@, start_line, requested_limit, max_bytes),
{
    let v = chars_of(raw);
    if v.len() == 0 || requested_limit == 0 {
        let e: Vec<char> = Vec::new();
        return ReadSnippet {
            text: string_of(&e),
            lines_returned: 0,
            end_line: start_line.saturating_sub(1),
            truncated_by_line_limit: false,
            truncated_by_bytes: false,
            additional_lines_available: false,
            bytes_returned: 0,
        };
    }
    let segs = split_lines(&v);
    let ghost sv = segs@.map_values(|x: Vec<char>| x@);
    let ghost whole = take_lines(sv, requested_limit as nat, max_bytes as nat);
    let mut text: Vec<char> = Vec::new();
    let mut lines_taken: u32 = 0;
    let mut by_limit = false;
    let mut by_bytes = false;
    let mut done = false;
    let mut bytes_used: usize = 0;
    let n = segs.len();
    let mut k: usize = 0;
    assert(sv.subrange(0, n as int) =~= sv);
    while k < n && !done
        invariant
            n == segs@.len() == sv.len(),
            sv == segs@.map_values(|x: Vec<char>| x@),
            whole == take_lines(sv, requested_limit as nat, max_bytes as nat),
            k <= n,
            lines_taken <= requested_limit,
            lines_taken <= n,
            bytes_used <= max_bytes,
            bytes_used == byte_len(text@),
            !done ==> lines_taken == k && !by_limit && !by_bytes && whole == (Taken {
                text: text@ + take_lines(sv.subrange(k as int, n as int), (requested_limit - k) as nat, (max_bytes - bytes_used) as nat).text,
                lines: (k + take_lines(sv.subrange(k as int, n as int), (requested_limit - k) as nat, (max_bytes - bytes_used) as nat).lines) as nat,
                ..take_lines(sv.subrange(k as int, n as int), (requested_limit - k) as nat, (max_bytes - bytes_used) as nat)
            }),
            done ==> whole == (Taken { text: text@, lines: lines_taken as nat, by_line_limit: by_limit, by_bytes: by_bytes }),
        decreases n - k + (if done { 0int } else { 1int }),
    {
        let ghost rest = sv.subrange(k as int, n as int);
        assert(rest[0] == segs@[k as int]@);
        assert(rest.drop_first() =~= sv.subrange(k + 1, n as int));
        assert(text@ + Seq::<char>::empty() =~= text@);
        if lines_taken >= requested_limit {
            by_limit = true;
            done = true;
        } else {
            let seg = &segs[k];
            let seg_bytes_wide = byte_len_range(seg, 0, seg.len());
            assert(seg@.subrange(0, seg@.len() as int) =~= seg@);
            if seg_bytes_wide > (max_bytes - bytes_used) as u128 {
                let remaining = max_bytes - bytes_used;
                let (cut_chars, cut_bytes) = truncate_chars(seg, remaining);
                let ghost before = text@;
                crate::text::push_range(&mut text, seg, 0, cut_chars);
                proof {
                    lemma_byte_len_append(before, fit_prefix(seg@, remaining as nat));
                }
                bytes_used = bytes_used + cut_bytes;
                by_bytes = true;
                lines_taken = lines_taken + 1;
                done = true;
            } else {
                let ghost before = text@;
                push_all(&mut text, seg);
                proof {
                    lemma_byte_len_append(before, seg@);
                    let r2 = take_lines(sv.subrange(k + 1, n as int), (requested_limit - k - 1) as nat, (max_bytes - bytes_used - seg_bytes_wide) as nat);
                    assert(before + (seg@ + r2.text) =~= text@ + r2.text);
                }
                bytes_used = bytes_used + seg_bytes_wide as usize;
                lines_taken = lines_taken + 1;
                k = k + 1;
            }
        }
    }
    proof {
        if !done {
            assert(sv.subrange(k as int, n as int) =~= Seq::<Seq<char>>::empty());
            assert(text@ + Seq::<char>::empty() =~= text@);
        }
    }
    let raw_bytes = byte_len_range(&v, 0, v.len());
    assert(v@.subrange(0, v@.len() as int) =~= v@);
    let additional = by_bytes || n > lines_taken as usize || (bytes_used as u128) < raw_bytes;
    let end_line = if lines_taken == 0 {
        start_line.saturating_sub(1)
    } else {
        start_line.saturating_add(lines_taken - 1)
    };
    ReadSnippet {
        text: string_of(&text),
        lines_returned: lines_taken,
        end_line,
        truncated_by_line_limit: by_limit,
        truncated_by_bytes: by_bytes,
        additional_lines_available: additional,
        bytes_returned: bytes_used,
    }
}

/// The decimal digits of `n`.
pub open spec fn decimal(n: nat) -> Seq<char>
    decreases n,
{
    if n < 10 {
        seq![digit_char(n)]
    } else {
        decimal(n / 10) + seq![digit_char(n % 10)]
    }
}

pub open spec fn digit_char(d: nat) -> char {
    if d == 0 { '0' } else if d == 1 { '1' } else if d == 2 { '2' } else if d == 3 { '3' }
    else if d == 4 { '4' } else if d == 5 { '5' } else if d == 6 { '6' } else if d == 7 { '7' }
    else if d == 8 { '8' } else { '9' }
}

fn digit_of(d: u64) -> (c: char)
    requires
        d < 10,
    ensures
        c == digit_char(d as nat),
{
    if d == 0 { '0' } else if d == 1 { '1' } else if d == 2 { '2' } else if d == 3 { '3' }
    else if d == 4 { '4' } else if d == 5 { '5' } else if d == 6 { '6' } else if d == 7 { '7' }
    else if d == 8 { '8' } else { '9' }
}

/// Appends the decimal digits of `n` to `out`.
pub(crate) fn push_decimal(out: &mut Vec<char>, n: u64)
    ensures
        final(out)@ == old(out)@ + decimal(n as nat),
    decreases n,
{
    if n >= 10 {
        push_decimal(out, n / 10);
    }
    out.push(digit_of(n % 10));
    assert(final(out)@ =~= old(out)@ + decimal(n as nat));
}

/// Appends the characters of `s` to `out`.
fn push_str(out: &mut Vec<char>, s: &str)
    ensures
        final(out)@ == old(out)@ + s@,
{
    let v = chars_of(s);
    push_all(out, &v);
}

pub open spec fn max_u32(a: u32, b: u32) -> u32 {
    if a >= b { a } else { b }
}

/// The `<file-read-info>` line that tells how to continue a bounded read,
/// or `None` when the snippet holds the rest of the file.
pub open spec fn read_hint(snippet: ReadSnippet, start_line: u32, requested_limit: u32, max_bytes: usize) -> Option<Seq<char>> {
    if !(snippet.truncated_by_line_limit || snippet.truncated_by_bytes || snippet.additional_lines_available) {
        None
    } else {
        let effective_end = if snippet.lines_returned == 0 { start_line } else { snippet.end_line };
        let cause = if snippet.truncated_by_bytes {
            " (hit "@ + decimal(max_bytes as nat) + " byte cap)"@
        } else {
            " (showing up to "@ + decimal(requested_limit as nat) + " lines)"@
        };
        let next_line = max_u32(sat_add_u32(snippet.end_line, 1), start_line);
        Some("<file-read-info>Read lines "@ + decimal(start_line as nat) + "-"@ + decimal(effective_end as nat)
            + cause + " Continue with line="@ + decimal(next_line as nat) + " limit="@
            + decimal(requested_limit as nat) + "."@ + "</file-read-info>"@)
    }
}

/// Describes where a bounded read stopped and how to continue it.
pub fn build_file_read_hint(snippet: &ReadSnippet, start_line: u32, requested_limit: u32, max_bytes: usize) -> (r: Option<String>)
    ensures
        opt_string_view(r) == read_hint(*snippet, start_line, requested_limit, max_bytes),
{
    if !(snippet.truncated_by_line_limit || snippet.truncated_by_bytes || snippet.additional_lines_available) {
        return None;
    }
    let effective_end = if snippet.lines_returned == 0 { start_line } else { snippet.end_line };
    let mut out: Vec<char> = Vec::new();
    push_str(&mut out, "<file-read-info>Read lines ");
    push_decimal(&mut out, start_line as u64);
    push_str(&mut out, "-");
    push_decimal(&mut out, effective_end as u64);
    if snippet.truncated_by_bytes {
        push_str(&mut out, " (hit ");
        push_decimal(&mut out, max_bytes as u64);
        push_str(&mut out, " byte cap)");
    } else {
        push_str(&mut out, " (showing up to ");
        push_decimal(&mut out, requested_limit as u64);
        push_str(&mut out, " lines)");
    }
    let next_line = {
        let a = snippet.end_line.saturating_add(1);
        if a >= start_line { a } else { start_line }
    };
    push_str(&mut out, " Continue with line=");
    push_decimal(&mut out, next_line as u64);
    push_str(&mut out, " limit=");
    push_decimal(&mut out, requested_limit as u64);
    push_str(&mut out, ".");
    push_str(&mut out, "</file-read-info>");
    let ghost cause = if snippet.truncated_by_bytes {
        " (hit "@ + decimal(max_bytes as nat) + " byte cap)"@
    } else {
        " (showing up to "@ + decimal(requested_limit as nat) + " lines)"@
    };
    assert(out@ =~= read_hint(*snippet, start_line, requested_limit, max_bytes)->0);
    Some(string_of(&out))
}

pub open spec fn opt_string_view(o: Option<String>) -> Option<Seq<char>> {
    match o {
        Some(s) => Some(s@),
        None => None,
    }
}

/// The first line a read covers: the requested line, at least 1.
pub open spec fn start_line_of(line: Option<u32>) -> u32 {
    match line {
        Some(l) => if l >= 1 { l } else { 1 },
        None => 1,
    }
}

/// The line limit of a read: the requested positive limit, else the default.
pub open spec fn limit_of(limit: Option<u32>) -> u32 {
    match limit {
        Some(l) => if l > 0 { l } else { DEFAULT_READ_LINE_LIMIT },
        None => DEFAULT_READ_LINE_LIMIT,
    }
}

/// The bounds of a read request: first line, line limit, and the one-larger
/// limit asked of the bridge so that further lines can be detected.
pub struct ReadBounds {
    pub start_line: u32,
    pub requested_limit: u32,
    pub bridge_limit: u32,
}

pub fn read_bounds(line: Option<u32>, limit: Option<u32>) -> (r: ReadBounds)
    ensures
        r.start_line == start_line_of(line),
        r.requested_limit == limit_of(limit),
        r.bridge_limit == sat_add_u32(limit_of(limit), 1),
{
    let start_line = match line {
        Some(l) => if l >= 1 { l } else { 1 },
        None => 1,
    };
    let requested_limit = match limit {
        Some(l) => if l > 0 { l } else { DEFAULT_READ_LINE_LIMIT },
        None => DEFAULT_READ_LINE_LIMIT,
    };
    ReadBounds { start_line, requested_limit, bridge_limit: requested_limit.saturating_add(1) }
}

/// What a read tool call returns: the text shown to the model and the
/// structured description of the page.
pub struct ReadResult {
    pub text: String,
    pub start_line: u32,
    pub end_line: u32,
    pub lines_returned: u32,
    pub line_limit: u32,
    pub bytes_returned: usize,
    pub truncated: bool,
    pub truncated_by_line_limit: bool,
    pub truncated_by_bytes: bool,
    pub additional_lines_available: bool,
    /// Where to continue, present when the page is truncated.
    pub next_line: Option<u32>,
    /// The byte cap, present when it cut the page.
    pub max_bytes: Option<usize>,
}

/// The text of a page: the snippet, then its hint after a blank line.
pub open spec fn page_text(snippet_text: Seq<char>, hint: Option<Seq<char>>) -> Seq<char> {
    match hint {
        None => snippet_text,
        Some(h) => if snippet_text.len() == 0 {
            h
        } else {
            snippet_text + seq!['\n', '\n'] + h
        },
    }
}

/// Builds the page that a read of `raw` returns, `raw` being what the
/// bridge gave for the bounds `b`.
pub fn render_read(raw: &str, b: &ReadBounds) -> (r: ReadResult)
    ensures
        exists|s: ReadSnippet|
            is_snippet_of(s, raw@, b.start_line, b.requested_limit, MAX_READ_BYTES) && {
                let truncated = s.truncated_by_line_limit || s.truncated_by_bytes
                    || s.additional_lines_available;
                &&& r.text@ == page_text(s.text@, read_hint(s, b.start_line, b.requested_limit, MAX_READ_BYTES))
                &&& r.start_line == b.start_line
                &&& r.end_line == s.end_line
                &&& r.lines_returned == s.lines_returned
                &&& r.line_limit == b.requested_limit
                &&& r.bytes_returned == s.bytes_returned
                &&& r.truncated == truncated
                &&& r.truncated_by_line_limit == s.truncated_by_line_limit
                &&& r.truncated_by_bytes == s.truncated_by_bytes
                &&& r.additional_lines_available == s.additional_lines_available
                &&& r.next_line == (if truncated { Some(sat_add_u32(s.end_line, 1)) } else { None::<u32> })
                &&& r.max_bytes == (if s.truncated_by_bytes { Some(MAX_READ_BYTES) } else { None::<usize> })
            },
{
    let snippet = prepare_read_snippet(raw, b.start_line, b.requested_limit, MAX_READ_BYTES);
    let hint = build_file_read_hint(&snippet, b.start_line, b.requested_limit, MAX_READ_BYTES);
    let mut text = chars_of(snippet.text.as_str());
    if let Some(h) = hint {
        if text.len() > 0 {
            text.push('\n');
            text.push('\n');
        }
        push_str(&mut text, h.as_str());
    }
    let truncated = snippet.truncated_by_line_limit || snippet.truncated_by_bytes
        || snippet.additional_lines_available;
    let r = ReadResult {
        text: string_of(&text),
        start_line: b.start_line,
        end_line: snippet.end_line,
        lines_returned: snippet.lines_returned,
        line_limit: b.requested_limit,
        bytes_returned: snippet.bytes_returned,
        truncated,
        truncated_by_line_limit: snippet.truncated_by_line_limit,
        truncated_by_bytes: snippet.truncated_by_bytes,
        additional_lines_available: snippet.additional_lines_available,
        next_line: if truncated { Some(snippet.end_line.saturating_add(1)) } else { None },
        max_bytes: if snippet.truncated_by_bytes { Some(MAX_READ_BYTES) } else { None },
    };
    assert(r.text@ =~= page_text(snippet.text@, read_hint(snippet, b.start_line, b.requested_limit, MAX_READ_BYTES)));
    r
}

/// The pieces of `segs` one after another.
pub open spec fn concat_segs(segs: Seq<Seq<char>>) -> Seq<char>
    decreases segs.len(),
{
    if segs.len() == 0 {
        Seq::empty()
    } else {
        segs[0] + concat_segs(segs.drop_first())
    }
}

/// While more lines remain than the limit and the first `limit` fit in the
/// budget, a snippet takes exactly those lines and stops at the limit.
proof fn lemma_take_whole_lines(segs: Seq<Seq<char>>, limit: nat, budget: nat)
    requires
        segs.len() > limit,
        byte_len(concat_segs(segs.subrange(0, limit as int))) <= budget,
    ensures
        take_lines(segs, limit, budget) == (Taken {
            text: concat_segs(segs.subrange(0, limit as int)),
            lines: limit,
            by_line_limit: true,
            by_bytes: false,
        }),
    decreases limit,
{
    let sub = segs.subrange(0, limit as int);
    if limit == 0 {
        assert(sub =~= Seq::<Seq<char>>::empty());
    } else {
        let rest = segs.drop_first();
        assert(sub[0] == segs[0]);
        assert(sub.drop_first() =~= rest.subrange(0, limit - 1));
        lemma_byte_len_append(segs[0], concat_segs(rest.subrange(0, limit - 1)));
        let b2 = (budget - byte_len(segs[0])) as nat;
        lemma_take_whole_lines(rest, (limit - 1) as nat, b2);
    }
}

/// The continuation line of a page cut by its line limit.
pub open spec fn line_limit_hint(start_line: u32, end_line: u32, limit: u32) -> Seq<char> {
    "<file-read-info>Read lines "@ + decimal(start_line as nat) + "-"@ + decimal(end_line as nat)
        + " (showing up to "@ + decimal(limit as nat) + " lines)"@ + " Continue with line="@
        + decimal(max_u32(sat_add_u32(end_line, 1), start_line) as nat) + " limit="@ + decimal(
        limit as nat,
    ) + "."@ + "</file-read-info>"@
}

/// A read of a text with more lines than the limit, whose first `limit`
/// lines fit in the byte cap, returns exactly those lines, marked as cut by
/// the line limit, followed by the hint to continue after its last line.
pub proof fn law_paged_read(raw: Seq<char>, start_line: u32, limit: u32)
    requires
        limit > 0,
        split_inclusive_nl(raw).len() > limit,
        byte_len(concat_segs(split_inclusive_nl(raw).subrange(0, limit as int))) <= MAX_READ_BYTES,
    ensures
        forall|s: ReadSnippet|
            is_snippet_of(s, raw, start_line, limit, MAX_READ_BYTES) ==> {
                &&& s.text@ == concat_segs(split_inclusive_nl(raw).subrange(0, limit as int))
                &&& s.lines_returned == limit
                &&& s.truncated_by_line_limit
                &&& !s.truncated_by_bytes
                &&& s.additional_lines_available
                &&& s.end_line == end_line_of(start_line, limit as nat)
                &&& read_hint(s, start_line, limit, MAX_READ_BYTES) == Some(
                    line_limit_hint(start_line, end_line_of(start_line, limit as nat), limit),
                )
            },
{
    let segs = split_inclusive_nl(raw);
    assert(raw.len() > 0);
    lemma_take_whole_lines(segs, limit as nat, MAX_READ_BYTES as nat);
    assert forall|s: ReadSnippet| is_snippet_of(s, raw, start_line, limit, MAX_READ_BYTES) implies
        read_hint(s, start_line, limit, MAX_READ_BYTES) == Some(
            line_limit_hint(start_line, end_line_of(start_line, limit as nat), limit),
        ) by {
        assert(read_hint(s, start_line, limit, MAX_READ_BYTES)->0 =~= line_limit_hint(
            start_line,
            s.end_line,
            limit,
        ));
    }
}

} // verus!
