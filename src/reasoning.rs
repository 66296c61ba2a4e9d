//! Collation of streamed reasoning text into sections.
use vstd::prelude::*;
use crate::text::{
    byte_len, byte_len_range, chars_of, is_blank, is_blank_chars, push_all, push_range, string_of,
    trim, trim_bounds, trim_end, trim_end_len, trim_start,
};

verus! {

/// The separator placed between two sections of reasoning text.
pub open spec fn section_separator() -> Seq<char> {
    seq!['\n', '\n']
}

/// The non-blank sections of `secs`, each without trailing whitespace,
/// joined by a blank line.
pub open spec fn join_sections(secs: Seq<Seq<char>>) -> Seq<char>
    decreases secs.len(),
{
    if secs.len() == 0 {
        Seq::empty()
    } else {
        join_step(join_sections(secs.drop_last()), secs.last())
    }
}

/// Adds section `s` to the joined text `prev`.
pub open spec fn join_step(prev: Seq<char>, s: Seq<char>) -> Seq<char> {
    if is_blank(s) {
        prev
    } else if prev.len() == 0 {
        trim_end(s)
    } else {
        prev + section_separator() + trim_end(s)
    }
}

fn push_section(out: &mut Vec<char>, s: &Vec<char>)
    ensures
        final(out)@ == join_step(old(out)@, s@),
{
    if !is_blank_chars(s) {
        let end = trim_end_len(s);
        if out.len() > 0 {
            out.push('\n');
            out.push('\n');
        }
        push_range(out, s, 0, end);
        assert(final(out)@ =~= join_step(old(out)@, s@));
    }
}

/// What `take_text` returns for the aggregated sections `secs`.
pub open spec fn taken_text(secs: Seq<Seq<char>>) -> Option<Seq<char>> {
    let j = join_sections(secs);
    if j.len() == 0 {
        None
    } else {
        Some(j)
    }
}

/// The choice between aggregated and final text: the final text wins only
/// when its trimmed UTF-8 length is strictly larger than the aggregate's,
/// which counts as 0 when there is no aggregate.
pub open spec fn choose_final(agg: Option<Seq<char>>, fin: Option<Seq<char>>) -> Option<Seq<char>> {
    match (agg, fin) {
        (Some(a), Some(f)) => if byte_len(trim(f)) > byte_len(trim(a)) {
            Some(f)
        } else {
            Some(a)
        },
        (Some(a), None) => Some(a),
        (None, Some(f)) => if byte_len(trim(f)) > 0 {
            Some(f)
        } else {
            None
        },
        (None, None) => None,
    }
}

pub open spec fn opt_view(o: Option<String>) -> Option<Seq<char>> {
    match o {
        Some(s) => Some(s@),
        None => None,
    }
}

/// Aggregates reasoning deltas into sections: an ordered list of completed
/// sections and one section in progress.
pub struct ReasoningAggregator {
    sections: Vec<Vec<char>>,
    current: Vec<char>,
}

impl ReasoningAggregator {
    /// The completed sections, in order.
    pub closed spec fn sections(&self) -> Seq<Seq<char>> {
        self.sections@.map_values(|s: Vec<char>| s@)
    }

    /// The section in progress.
    pub closed spec fn current(&self) -> Seq<char> {
        self.current@
    }

    /// Every section that `take_text` would join: the completed ones, then
    /// the one in progress.
    pub open spec fn all_sections(&self) -> Seq<Seq<char>> {
        self.sections().push(self.current())
    }

    pub open spec fn is_empty_state(&self) -> bool {
        self.sections() == Seq::<Seq<char>>::empty() && self.current() == Seq::<char>::empty()
    }

    pub fn new() -> (r: Self)
        ensures
            r.is_empty_state(),
    {
        let r = ReasoningAggregator { sections: Vec::new(), current: Vec::new() };
        assert(r.sections() =~= Seq::<Seq<char>>::empty());
        assert(r.current() =~= Seq::<char>::empty());
        r
    }

    pub fn reset(&mut self)
        ensures
            final(self).is_empty_state(),
    {
        self.sections = Vec::new();
        self.current = Vec::new();
        assert(self.sections() =~= Seq::<Seq<char>>::empty());
        assert(self.current() =~= Seq::<char>::empty());
    }

    /// Extends the section in progress.
    pub fn append_delta(&mut self, delta: &str)
        ensures
            final(self).sections() == old(self).sections(),
            final(self).current() == old(self).current() + delta@,
    {
        let d = chars_of(delta);
        push_all(&mut self.current, &d);
    }

    /// Closes the section in progress, when it holds anything.
    pub fn section_break(&mut self)
        ensures
            old(self).current().len() == 0 ==> *final(self) == *old(self),
            old(self).current().len() > 0 ==> final(self).sections() == old(
                self,
            ).sections().push(old(self).current()),
            final(self).current() == Seq::<char>::empty(),
    {
        assert(old(self).current().len() == 0 ==> old(self).current() =~= Seq::<char>::empty());
        if self.current.len() > 0 {
            let chunk = self.current.clone();
            self.current = Vec::new();
            self.sections.push(chunk);
            assert(self.sections() =~= old(self).sections().push(old(self).current()));
        }
    }

    /// Joins the non-blank sections, each without trailing whitespace, with
    /// a blank line; `None` when nothing remains. Empties the aggregator.
    pub fn take_text(&mut self) -> (r: Option<String>)
        ensures
            opt_view(r) == taken_text(old(self).all_sections()),
            final(self).is_empty_state(),
    {
        let ghost secs = self.all_sections();
        let mut out: Vec<char> = Vec::new();
        let n = self.sections.len();
        let mut k: usize = 0;
        assert(secs.subrange(0, 0) =~= Seq::<Seq<char>>::empty());
        while k < n
            invariant
                n == self.sections@.len(),
                secs == self.all_sections(),
                k <= n,
                out@ == join_sections(secs.subrange(0, k as int)),
            decreases n - k,
        {
            assert(secs.subrange(0, k + 1).drop_last() =~= secs.subrange(0, k as int));
            push_section(&mut out, &self.sections[k]);
            k = k + 1;
        }
        assert(secs.drop_last() =~= secs.subrange(0, n as int));
        push_section(&mut out, &self.current);
        self.sections = Vec::new();
        self.current = Vec::new();
        assert(self.sections() =~= Seq::<Seq<char>>::empty());
        assert(self.current() =~= Seq::<char>::empty());
        if out.len() == 0 {
            None
        } else {
            Some(string_of(&out))
        }
    }

    /// Takes the aggregated text and picks between it and `final_text`: the
    /// final text is preferred only when its trimmed length is larger.
    pub fn choose_final_text(&mut self, final_text: Option<String>) -> (r: Option<String>)
        ensures
            opt_view(r) == choose_final(taken_text(old(self).all_sections()), opt_view(final_text)),
            final(self).is_empty_state(),
    {
        let aggregated = self.take_text();
        match (aggregated, final_text) {
            (Some(agg), Some(fin)) => {
                if trimmed_byte_len(&fin) > trimmed_byte_len(&agg) {
                    Some(fin)
                } else {
                    Some(agg)
                }
            },
            (Some(agg), None) => Some(agg),
            (None, Some(fin)) => {
                if trimmed_byte_len(&fin) > 0 {
                    Some(fin)
                } else {
                    None
                }
            },
            (None, None) => None,
        }
    }
}

/// UTF-8 length of `s` without leading and trailing whitespace.
pub fn trimmed_byte_len(s: &str) -> (r: u128)
    ensures
        r == byte_len(trim(s@)),
{
    let v = chars_of(s);
    let (start, end) = trim_bounds(&v);
    byte_len_range(&v, start, end)
}

/// Taking the text twice in a row yields nothing the second time, and
/// choosing without a final text returns exactly the taken text.
pub proof fn law_take_is_idempotent(agg: ReasoningAggregator)
    ensures
        agg.is_empty_state() ==> taken_text(agg.all_sections()) is None,
        choose_final(taken_text(agg.all_sections()), None) == taken_text(agg.all_sections()),
{
    if agg.is_empty_state() {
        let secs = agg.all_sections();
        let e = Seq::<char>::empty();
        assert(secs.drop_last() =~= Seq::<Seq<char>>::empty());
        assert(secs.last() =~= e);
        assert(trim_end(e) == e);
        assert(trim_start(e) == e);
        assert(is_blank(e));
        assert(join_sections(secs.drop_last()) == e);
        assert(join_sections(secs) == join_step(join_sections(secs.drop_last()), secs.last()));
    }
}

/// Final text supplied beside aggregated text is chosen if and only if its
/// trimmed length is strictly larger; otherwise the aggregated text is.
/// Without aggregated text, a blank final text gives nothing.
pub proof fn law_final_over_delta(agg: Seq<char>, fin: Seq<char>)
    ensures
        choose_final(Some(agg), Some(fin)) == Some(fin) <==> (byte_len(trim(fin)) > byte_len(
            trim(agg),
        ) || fin == agg),
        byte_len(trim(fin)) <= byte_len(trim(agg)) ==> choose_final(Some(agg), Some(fin)) == Some(
            agg,
        ),
        byte_len(trim(fin)) > 0 ==> choose_final(None, Some(fin)) == Some(fin),
        byte_len(trim(fin)) == 0 ==> choose_final(None, Some(fin)) is None,
{
}

} // verus!
