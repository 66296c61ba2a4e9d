//! Lookups over the live sessions: which session an id designates, its
//! mode, and whether a client read or write may go ahead.
use vstd::prelude::*;
use crate::edits::{seq_eq, string_eq};
use crate::text::chars_of;

verus! {

/// The mode id that suppresses writes.
pub open spec fn read_only_mode_id() -> Seq<char> {
    "read-only"@
}

/// Whether `mode_id` is the read-only mode.
pub fn is_read_only_mode(mode_id: &str) -> (r: bool)
    ensures
        r == (mode_id@ == read_only_mode_id()),
{
    seq_eq(&chars_of(mode_id), &chars_of("read-only"))
}

/// Whether a provider id names a provider other than the built-in `openai`.
pub fn is_custom_provider(provider_id: &str) -> (r: bool)
    ensures
        r == (provider_id@ != "openai"@),
{
    !seq_eq(&chars_of(provider_id), &chars_of("openai"))
}

/// What the lookup knows of one session.
pub struct SessionEntry {
    /// The ACP session id, the key of the session.
    pub acp_id: String,
    /// The id that tags the session's filesystem-bridge traffic.
    pub fs_session_id: String,
    /// The session's current mode id.
    pub current_mode: String,
}

/// Index of the first entry whose ACP id is `id`.
pub open spec fn find_acp(es: Seq<SessionEntry>, id: Seq<char>) -> Option<int>
    decreases es.len(),
{
    if es.len() == 0 {
        None
    } else {
        match find_acp(es.drop_last(), id) {
            Some(i) => Some(i),
            None => if es.last().acp_id@ == id {
                Some(es.len() - 1)
            } else {
                None
            },
        }
    }
}

/// Index of the first entry whose filesystem session id is `id`.
pub open spec fn find_fs(es: Seq<SessionEntry>, id: Seq<char>) -> Option<int>
    decreases es.len(),
{
    if es.len() == 0 {
        None
    } else {
        match find_fs(es.drop_last(), id) {
            Some(i) => Some(i),
            None => if es.last().fs_session_id@ == id {
                Some(es.len() - 1)
            } else {
                None
            },
        }
    }
}

/// The entry that `id` designates: the session keyed by it, else the one
/// whose filesystem session id it is.
pub open spec fn resolve_index(es: Seq<SessionEntry>, id: Seq<char>) -> Option<int> {
    match find_acp(es, id) {
        Some(i) => Some(i),
        None => find_fs(es, id),
    }
}

proof fn lemma_find_acp(es: Seq<SessionEntry>, id: Seq<char>)
    ensures
        find_acp(es, id) matches Some(i) ==> 0 <= i < es.len() && es[i].acp_id@ == id && forall|
            j: int,
        | 0 <= j < i ==> es[j].acp_id@ != id,
        find_acp(es, id) is None ==> forall|j: int| 0 <= j < es.len() ==> es[j].acp_id@ != id,
    decreases es.len(),
{
    if es.len() > 0 {
        lemma_find_acp(es.drop_last(), id);
        assert forall|j: int| 0 <= j < es.len() - 1 implies es.drop_last()[j] == es[j] by {}
    }
}

proof fn lemma_find_fs(es: Seq<SessionEntry>, id: Seq<char>)
    ensures
        find_fs(es, id) matches Some(i) ==> 0 <= i < es.len() && es[i].fs_session_id@ == id
            && forall|j: int| 0 <= j < i ==> es[j].fs_session_id@ != id,
        find_fs(es, id) is None ==> forall|j: int|
            0 <= j < es.len() ==> es[j].fs_session_id@ != id,
    decreases es.len(),
{
    if es.len() > 0 {
        lemma_find_fs(es.drop_last(), id);
        assert forall|j: int| 0 <= j < es.len() - 1 implies es.drop_last()[j] == es[j] by {}
    }
}

/// Two session lists that agree, entry by entry, on which entries carry
/// `q` as ACP id and as filesystem id find the same entries for `q`.
proof fn lemma_find_agree(a: Seq<SessionEntry>, b: Seq<SessionEntry>, q: Seq<char>)
    requires
        a.len() == b.len(),
        forall|j: int| 0 <= j < a.len() ==> (a[j].acp_id@ == q) == (b[j].acp_id@ == q),
        forall|j: int| 0 <= j < a.len() ==> (a[j].fs_session_id@ == q) == (b[j].fs_session_id@ == q),
    ensures
        find_acp(a, q) == find_acp(b, q),
        find_fs(a, q) == find_fs(b, q),
    decreases a.len(),
{
    if a.len() > 0 {
        let (a2, b2) = (a.drop_last(), b.drop_last());
        assert forall|j: int| 0 <= j < a2.len() implies (a2[j].acp_id@ == q) == (b2[j].acp_id@ == q)
            && (a2[j].fs_session_id@ == q) == (b2[j].fs_session_id@ == q) by {
            assert(a2[j] == a[j] && b2[j] == b[j]);
        }
        lemma_find_agree(a2, b2, q);
        assert(a.last() == a[a.len() - 1] && b.last() == b[b.len() - 1]);
    }
}

/// Read-only view of the sessions: mode lookups and id resolution.
pub struct SessionModeLookup {
    entries: Vec<SessionEntry>,
}

pub open spec fn opt_view(o: Option<String>) -> Option<Seq<char>> {
    match o {
        Some(s) => Some(s@),
        None => None,
    }
}

impl SessionModeLookup {
    pub closed spec fn entries(&self) -> Seq<SessionEntry> {
        self.entries@
    }

    /// No two sessions share an ACP id.
    pub open spec fn wf(&self) -> bool {
        forall|i: int, j: int|
            0 <= i < j < self.entries().len() ==> self.entries()[i].acp_id@
                != self.entries()[j].acp_id@
    }

    /// The ACP id that `id` resolves to.
    pub open spec fn resolved(&self, id: Seq<char>) -> Option<Seq<char>> {
        match resolve_index(self.entries(), id) {
            Some(i) => Some(self.entries()[i].acp_id@),
            None => None,
        }
    }

    /// The mode of the session that `id` resolves to.
    pub open spec fn mode_of(&self, id: Seq<char>) -> Option<Seq<char>> {
        match resolve_index(self.entries(), id) {
            Some(i) => Some(self.entries()[i].current_mode@),
            None => None,
        }
    }

    /// No session uses `id`, as ACP id or as filesystem id.
    pub open spec fn is_fresh(&self, id: Seq<char>) -> bool {
        forall|j: int|
            0 <= j < self.entries().len() ==> self.entries()[j].acp_id@ != id
                && self.entries()[j].fs_session_id@ != id
    }

    /// The filesystem id of the session keyed by `acp_id`.
    pub open spec fn fs_id_of(&self, acp_id: Seq<char>) -> Option<Seq<char>> {
        match find_acp(self.entries(), acp_id) {
            Some(i) => Some(self.entries()[i].fs_session_id@),
            None => None,
        }
    }

    pub fn new() -> (r: Self)
        ensures
            r.entries().len() == 0,
            r.wf(),
    {
        SessionModeLookup { entries: Vec::new() }
    }

    fn find_acp_exec(&self, id: &str) -> (r: Option<usize>)
        ensures
            r matches Some(i) ==> find_acp(self.entries(), id@) == Some(i as int),
            r is None ==> find_acp(self.entries(), id@) is None,
    {
        let n = self.entries.len();
        let mut i: usize = 0;
        while i < n
            invariant
                n == self.entries@.len(),
                i <= n,
                forall|j: int| 0 <= j < i ==> self.entries@[j].acp_id@ != id@,
            decreases n - i,
        {
            if string_eq(&self.entries[i].acp_id, id) {
                proof {
                    lemma_find_acp(self.entries@, id@);
                }
                return Some(i);
            }
            i = i + 1;
        }
        proof {
            lemma_find_acp(self.entries@, id@);
        }
        None
    }

    fn find_fs_exec(&self, id: &str) -> (r: Option<usize>)
        ensures
            r matches Some(i) ==> find_fs(self.entries(), id@) == Some(i as int),
            r is None ==> find_fs(self.entries(), id@) is None,
    {
        let n = self.entries.len();
        let mut i: usize = 0;
        while i < n
            invariant
                n == self.entries@.len(),
                i <= n,
                forall|j: int| 0 <= j < i ==> self.entries@[j].fs_session_id@ != id@,
            decreases n - i,
        {
            if string_eq(&self.entries[i].fs_session_id, id) {
                proof {
                    lemma_find_fs(self.entries@, id@);
                }
                return Some(i);
            }
            i = i + 1;
        }
        proof {
            lemma_find_fs(self.entries@, id@);
        }
        None
    }

    fn resolve_index_exec(&self, id: &str) -> (r: Option<usize>)
        ensures
            r matches Some(i) ==> resolve_index(self.entries(), id@) == Some(i as int) && i
                < self.entries().len(),
            r is None ==> resolve_index(self.entries(), id@) is None,
    {
        proof {
            lemma_find_acp(self.entries@, id@);
            lemma_find_fs(self.entries@, id@);
        }
        match self.find_acp_exec(id) {
            Some(i) => Some(i),
            None => self.find_fs_exec(id),
        }
    }

    /// Adds a session, or replaces the one with the same ACP id.
    pub fn insert(&mut self, acp_id: String, fs_session_id: String, current_mode: String)
        requires
            old(self).wf(),
        ensures
            final(self).wf(),
            final(self).resolved(acp_id@) == Some(acp_id@),
            final(self).mode_of(acp_id@) == Some(current_mode@),
            old(self).is_fresh(fs_session_id@) ==> final(self).resolved(fs_session_id@) == Some(
                acp_id@,
            ) && final(self).mode_of(fs_session_id@) == Some(current_mode@),
            forall|q: Seq<char>|
                q != acp_id@ && q != fs_session_id@ && old(self).fs_id_of(acp_id@) != Some(q)
                    ==> final(self).resolved(q) == old(self).resolved(q) && final(self).mode_of(q)
                    == old(self).mode_of(q),
    {
        let ghost f = fs_session_id@;
        let ghost old_es = self.entries@;
        let ghost a = acp_id@;
        let ghost m = current_mode@;
        match self.find_acp_exec(acp_id.as_str()) {
            Some(i) => {
                proof {
                    lemma_find_acp(old(self).entries@, a);
                }
                self.entries.set(i, SessionEntry { acp_id, fs_session_id, current_mode });
                proof {
                    lemma_find_acp(self.entries@, a);
                    assert forall|p: int, q: int|
                        0 <= p < q < self.entries@.len() implies self.entries@[p].acp_id@
                        != self.entries@[q].acp_id@ by {
                        assert(p != i ==> self.entries@[p] == old(self).entries@[p]);
                        assert(q != i ==> self.entries@[q] == old(self).entries@[q]);
                    }
                    assert(self.entries@[i as int].acp_id@ == a);
                    let k = find_acp(self.entries@, a)->0;
                    assert(k == i) by {
                        if k < i {
                            assert(self.entries@[k] == old(self).entries@[k]);
                        }
                    }
                    let new_es = self.entries@;
                    assert forall|q: Seq<char>|
                        q != a && q != f && old(self).fs_id_of(a) != Some(q) implies self.resolved(q)
                        == old(self).resolved(q) && self.mode_of(q) == old(self).mode_of(q) by {
                        assert forall|j: int| 0 <= j < old_es.len() implies (old_es[j].acp_id@ == q)
                            == (new_es[j].acp_id@ == q) && (old_es[j].fs_session_id@ == q) == (
                            new_es[j].fs_session_id@ == q) by {
                            if j != i {
                                assert(new_es[j] == old_es[j]);
                            }
                        }
                        lemma_find_agree(old_es, new_es, q);
                        lemma_find_acp(old_es, q);
                        lemma_find_fs(old_es, q);
                        if let Some(x) = resolve_index(old_es, q) {
                            assert(x != i);
                            assert(new_es[x] == old_es[x]);
                        }
                    }
                    if old(self).is_fresh(f) {
                        lemma_find_acp(new_es, f);
                        lemma_find_fs(new_es, f);
                        if f != a {
                            assert forall|j: int| 0 <= j < new_es.len() implies new_es[j].acp_id@ != f by {
                                if j != i {
                                    assert(new_es[j] == old_es[j]);
                                }
                            }
                            assert(new_es[i as int].fs_session_id@ == f);
                            let y = find_fs(new_es, f)->0;
                            assert(y == i) by {
                                if y != i {
                                    assert(new_es[y] == old_es[y]);
                                }
                            }
                        }
                    }
                }
            },
            None => {
                self.entries.push(SessionEntry { acp_id, fs_session_id, current_mode });
                proof {
                    let new_es = self.entries@;
                    assert(new_es.drop_last() =~= old_es);
                    assert(new_es.last() == new_es[new_es.len() - 1]);
                    lemma_find_acp(old_es, f);
                    lemma_find_fs(old_es, f);
                    assert forall|q: Seq<char>|
                        q != a && q != f && old(self).fs_id_of(a) != Some(q) implies self.resolved(q)
                        == old(self).resolved(q) && self.mode_of(q) == old(self).mode_of(q) by {
                        lemma_find_acp(old_es, q);
                        lemma_find_fs(old_es, q);
                        if let Some(x) = resolve_index(old_es, q) {
                            assert(new_es[x] == old_es[x]);
                        }
                    }
                    if old(self).is_fresh(f) {
                        if f != a {
                            assert(find_acp(old_es, f) is None);
                            assert(find_fs(old_es, f) is None);
                        }
                    }
                    lemma_find_acp(old(self).entries@, a);
                    assert forall|i: int, j: int|
                        0 <= i < j < self.entries@.len() implies self.entries@[i].acp_id@
                        != self.entries@[j].acp_id@ by {
                        if j == self.entries@.len() - 1 {
                            assert(self.entries@[i] == old(self).entries@[i]);
                        } else {
                            assert(self.entries@[i] == old(self).entries@[i]);
                            assert(self.entries@[j] == old(self).entries@[j]);
                        }
                    }
                }
            },
        }
    }

    /// Sets the mode of the session that `id` resolves to; `false` when none does.
    pub fn set_mode(&mut self, id: &str, mode: String) -> (found: bool)
        requires
            old(self).wf(),
        ensures
            final(self).wf(),
            found == old(self).resolved(id@) is Some,
            found ==> final(self).mode_of(id@) == Some(mode@),
            found ==> final(self).resolved(id@) == old(self).resolved(id@),
            !found ==> *final(self) == *old(self),
            forall|q: Seq<char>| #[trigger] final(self).resolved(q) == old(self).resolved(q),
            forall|q: Seq<char>|
                old(self).resolved(q) != old(self).resolved(id@) ==> #[trigger] final(self).mode_of(q)
                    == old(self).mode_of(q),
    {
        match self.resolve_index_exec(id) {
            None => false,
            Some(i) => {
                let acp_id = self.entries[i].acp_id.clone();
                let fs_session_id = self.entries[i].fs_session_id.clone();
                proof {
                    lemma_find_acp(self.entries@, id@);
                    lemma_find_fs(self.entries@, id@);
                }
                let ghost before = self.entries@;
                self.entries.set(i, SessionEntry { acp_id, fs_session_id, current_mode: mode });
                proof {
                    lemma_same_keys(before, self.entries@, id@);
                    assert forall|q: Seq<char>| #[trigger] self.resolved(q) == old(self).resolved(q) by {
                        lemma_same_keys(before, self.entries@, q);
                        lemma_find_acp(before, q);
                        lemma_find_fs(before, q);
                        if let Some(x) = resolve_index(before, q) {
                            assert(self.entries@[x].acp_id@ == before[x].acp_id@);
                        }
                    }
                    assert forall|q: Seq<char>|
                        old(self).resolved(q) != old(self).resolved(id@) implies #[trigger] self.mode_of(q)
                        == old(self).mode_of(q) by {
                        lemma_same_keys(before, self.entries@, q);
                        if let Some(x) = resolve_index(before, q) {
                            lemma_find_acp(before, q);
                            lemma_find_fs(before, q);
                            if x != i {
                                assert(self.entries@[x] == before[x]);
                            }
                        }
                    }
                    assert forall|p: int, q: int|
                        0 <= p < q < self.entries@.len() implies self.entries@[p].acp_id@
                        != self.entries@[q].acp_id@ by {
                        assert(self.entries@[p].acp_id@ == before[p].acp_id@);
                        assert(self.entries@[q].acp_id@ == before[q].acp_id@);
                    }
                }
                true
            },
        }
    }

    /// The current mode of the session that `session_id` designates, by ACP
    /// id or by filesystem session id.
    pub fn current_mode(&self, session_id: &str) -> (r: Option<String>)
        ensures
            opt_view(r) == self.mode_of(session_id@),
    {
        match self.resolve_index_exec(session_id) {
            Some(i) => Some(self.entries[i].current_mode.clone()),
            None => None,
        }
    }

    /// Whether the designated session is in the read-only mode.
    pub fn is_read_only(&self, session_id: &str) -> (r: bool)
        ensures
            r == (self.mode_of(session_id@) == Some(read_only_mode_id())),
    {
        match self.current_mode(session_id) {
            Some(m) => is_read_only_mode(m.as_str()),
            None => false,
        }
    }

    /// The canonical ACP id for `session_id`: itself when it is an ACP id,
    /// the owning session's ACP id when it is a filesystem session id, and
    /// `None` otherwise.
    pub fn resolve_acp_session_id(&self, session_id: &str) -> (r: Option<String>)
        ensures
            opt_view(r) == self.resolved(session_id@),
            (exists|i: int|
                0 <= i < self.entries().len() && self.entries()[i].acp_id@ == session_id@)
                ==> opt_view(r) == Some(session_id@),
            (forall|i: int|
                0 <= i < self.entries().len() ==> self.entries()[i].acp_id@ != session_id@)
                ==> match opt_view(r) {
                Some(a) => exists|i: int|
                    0 <= i < self.entries().len() && self.entries()[i].fs_session_id@
                        == session_id@ && self.entries()[i].acp_id@ == a,
                None => forall|i: int|
                    0 <= i < self.entries().len() ==> self.entries()[i].fs_session_id@
                        != session_id@,
            },
    {
        proof {
            lemma_find_acp(self.entries@, session_id@);
            lemma_find_fs(self.entries@, session_id@);
        }
        match self.resolve_index_exec(session_id) {
            Some(i) => Some(self.entries[i].acp_id.clone()),
            None => None,
        }
    }
}

proof fn lemma_same_keys(a: Seq<SessionEntry>, b: Seq<SessionEntry>, id: Seq<char>)
    requires
        a.len() == b.len(),
        forall|j: int|
            0 <= j < a.len() ==> a[j].acp_id@ == b[j].acp_id@ && a[j].fs_session_id@
                == b[j].fs_session_id@,
    ensures
        find_acp(a, id) == find_acp(b, id),
        find_fs(a, id) == find_fs(b, id),
    decreases a.len(),
{
    if a.len() > 0 {
        lemma_same_keys(a.drop_last(), b.drop_last(), id);
    }
}

/// What the dispatcher does with a client file operation.
pub enum ClientOpDecision {
    /// Forward the operation to the client under this ACP session id.
    Forward(String),
    /// Reply with an invalid-params error carrying this message.
    Reject(String),
}

pub open spec fn unknown_read_session() -> Seq<char> {
    "unknown session for read_text_file"@
}

pub open spec fn unknown_write_session() -> Seq<char> {
    "unknown session for write_text_file"@
}

pub open spec fn read_only_write_refusal() -> Seq<char> {
    "write_text_file is disabled while session mode is read-only"@
}

pub open spec fn decision_view(d: ClientOpDecision) -> Result<Seq<char>, Seq<char>> {
    match d {
        ClientOpDecision::Forward(s) => Ok(s@),
        ClientOpDecision::Reject(m) => Err(m@),
    }
}

/// The dispatcher's verdict on a read request tagged `session_id`.
pub open spec fn read_decision(l: SessionModeLookup, session_id: Seq<char>) -> Result<Seq<char>, Seq<char>> {
    match l.resolved(session_id) {
        Some(a) => Ok(a),
        None => Err(unknown_read_session()),
    }
}

/// The dispatcher's verdict on a write request tagged `session_id`.
pub open spec fn write_decision(l: SessionModeLookup, session_id: Seq<char>) -> Result<Seq<char>, Seq<char>> {
    match l.resolved(session_id) {
        Some(a) => if l.mode_of(a) == Some(read_only_mode_id()) {
            Err(read_only_write_refusal())
        } else {
            Ok(a)
        },
        None => Err(unknown_write_session()),
    }
}

/// Routes a client read: forwarded under the resolved ACP id, or refused
/// when no session matches.
pub fn decide_read_text_file(lookup: &SessionModeLookup, session_id: &str) -> (r: ClientOpDecision)
    ensures
        decision_view(r) == read_decision(*lookup, session_id@),
{
    match lookup.resolve_acp_session_id(session_id) {
        Some(a) => ClientOpDecision::Forward(a),
        None => ClientOpDecision::Reject("unknown session for read_text_file".to_owned()),
    }
}

/// Routes a client write: refused for an unknown session or one in the
/// read-only mode, forwarded under the resolved ACP id otherwise.
pub fn decide_write_text_file(lookup: &SessionModeLookup, session_id: &str) -> (r: ClientOpDecision)
    ensures
        decision_view(r) == write_decision(*lookup, session_id@),
{
    match lookup.resolve_acp_session_id(session_id) {
        Some(a) => {
            if lookup.is_read_only(a.as_str()) {
                ClientOpDecision::Reject(
                    "write_text_file is disabled while session mode is read-only".to_owned(),
                )
            } else {
                ClientOpDecision::Forward(a)
            }
        },
        None => ClientOpDecision::Reject("unknown session for write_text_file".to_owned()),
    }
}

/// Writes under the read-only mode never leave the process: for a session
/// whose mode is read-only the write is refused with the fixed message,
/// and for a known session in any other mode it is forwarded.
pub proof fn law_read_only_gate(l: SessionModeLookup, session_id: Seq<char>)
    requires
        l.wf(),
        l.resolved(session_id) is Some,
    ensures
        l.mode_of(session_id) == Some(read_only_mode_id()) ==> write_decision(l, session_id)
            == Err::<Seq<char>, Seq<char>>(read_only_write_refusal()),
        l.mode_of(session_id) != Some(read_only_mode_id()) ==> write_decision(l, session_id)
            == Ok::<Seq<char>, Seq<char>>(l.resolved(session_id)->0),
{
    let a = l.resolved(session_id)->0;
    lemma_find_acp(l.entries(), a);
    lemma_find_acp(l.entries(), session_id);
    lemma_find_fs(l.entries(), session_id);
    let i = resolve_index(l.entries(), session_id)->0;
    let k = find_acp(l.entries(), a)->0;
    assert(k == i) by {
        if k != i {
            assert(l.entries()[k].acp_id@ == l.entries()[i].acp_id@);
        }
    }
}

} // verus!
