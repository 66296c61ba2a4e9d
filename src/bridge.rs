//! The filesystem bridge's request handling: where a request lands, what
//! is done for it, and the reply. The caller performs the reads and writes.
use vstd::prelude::*;
use crate::paths::{resolve_path, resolve_spec};
use crate::read::{split_inclusive_nl, split_lines};
use crate::edits::string_eq;
use crate::session::read_only_write_refusal;
use crate::text::{chars_of, join_nl, string_of};

verus! {

/// The operation a bridge request asks for.
#[derive(Clone, Copy, Debug, PartialEq, Eq, Structural)]
pub enum BridgeOp {
    Read,
    Write,
}

/// A request from the filesystem tool server.
pub struct BridgeRequest {
    pub id: u64,
    pub session_id: String,
    pub op: BridgeOp,
    pub path: String,
    pub line: Option<u32>,
    pub limit: Option<u32>,
    pub content: Option<String>,
}

/// The reply to a bridge request.
pub struct BridgeResponse {
    pub id: u64,
    pub success: bool,
    pub content: Option<String>,
    pub error: Option<String>,
}

/// What the bridge does for a request.
pub enum BridgeAction {
    /// Reply at once.
    Reply(BridgeResponse),
    /// Read `path` (by the client, else from disk), then reply with `complete_read`.
    Read { path: String, line: Option<u32>, limit: Option<u32> },
    /// Write `content` to `path` (by the client, else to disk), then reply with `complete_write`.
    Write { path: String, content: String },
}

pub open spec fn is_failure(r: BridgeResponse, id: u64, msg: Seq<char>) -> bool {
    &&& r.id == id
    &&& !r.success
    &&& r.content is None
    &&& r.error matches Some(e) && e@ == msg
}

pub open spec fn missing_content_error() -> Seq<char> {
    "missing content for write"@
}

fn failure(id: u64, msg: String) -> (r: BridgeResponse)
    ensures
        is_failure(r, id, msg@),
{
    BridgeResponse { id, success: false, content: None, error: Some(msg) }
}

/// Decides what to do for `req` with the bridge rooted at `workspace_root`:
/// a path that escapes the root, or a write without content, is answered
/// with an error; anything else is read or written at the resolved path.
pub fn plan_bridge_request(workspace_root: &str, req: &BridgeRequest) -> (r: BridgeAction)
    ensures
        match resolve_spec(workspace_root@, req.path@) {
            Err(e) => r matches BridgeAction::Reply(resp) && is_failure(resp, req.id, e),
            Ok(p) => match req.op {
                BridgeOp::Read => r matches BridgeAction::Read { path, line, limit } && path@ == p
                    && line == req.line && limit == req.limit,
                BridgeOp::Write => match req.content {
                    None => r matches BridgeAction::Reply(resp) && is_failure(
                        resp,
                        req.id,
                        missing_content_error(),
                    ),
                    Some(c) => r matches BridgeAction::Write { path, content } && path@ == p
                        && content@ == c@,
                },
            },
        },
{
    let resolved = resolve_path(workspace_root, req.path.as_str());
    match resolved {
        Err(e) => BridgeAction::Reply(failure(req.id, e)),
        Ok(p) => match req.op {
            BridgeOp::Read => BridgeAction::Read { path: p, line: req.line, limit: req.limit },
            BridgeOp::Write => match &req.content {
                None => BridgeAction::Reply(failure(req.id, "missing content for write".to_owned())),
                Some(c) => BridgeAction::Write { path: p, content: c.clone() },
            },
        },
    }
}

/// The reply to request `id` once its read finished with `result`.
pub fn complete_read(id: u64, result: Result<String, String>) -> (r: BridgeResponse)
    ensures
        r.id == id,
        match result {
            Ok(t) => r.error is None && r.success && (r.content matches Some(c) && c@ == t@),
            Err(e) => is_failure(r, id, e@),
        },
{
    match result {
        Ok(t) => BridgeResponse { id, success: true, content: Some(t), error: None },
        Err(e) => failure(id, e),
    }
}

/// The reply to request `id` once its write finished with `result`.
pub fn complete_write(id: u64, result: Result<(), String>) -> (r: BridgeResponse)
    ensures
        r.id == id,
        match result {
            Ok(_) => r.success && r.content is None && r.error is None,
            Err(e) => is_failure(r, id, e@),
        },
{
    match result {
        Ok(()) => BridgeResponse { id, success: true, content: None, error: None },
        Err(e) => failure(id, e),
    }
}

/// A line without its terminator: `\n`, or `\r\n`.
pub open spec fn strip_line_end(seg: Seq<char>) -> Seq<char> {
    if seg.len() > 0 && seg.last() == '\n' {
        let t = seg.drop_last();
        if t.len() > 0 && t.last() == '\r' {
            t.drop_last()
        } else {
            t
        }
    } else {
        seg
    }
}

/// The lines of `s`, as `str::lines` yields them.
pub open spec fn lines_of(s: Seq<char>) -> Seq<Seq<char>> {
    split_inclusive_nl(s).map_values(|seg: Seq<char>| strip_line_end(seg))
}

/// What a local read returns of `content` for the requested line window:
/// lines `line-1 .. line-1+limit` joined with `\n`, empty past the end,
/// and the whole content when no line is given.
pub open spec fn line_window(content: Seq<char>, line: Option<u32>, limit: Option<u32>) -> Seq<char> {
    match line {
        None => content,
        Some(l) => {
            let ls = lines_of(content);
            let start = if l >= 1 { l - 1 } else { 0 };
            let count = match limit { Some(c) => c as int, None => u32::MAX as int };
            if start >= ls.len() {
                Seq::empty()
            } else {
                let end = if start + count < ls.len() { start + count } else { ls.len() as int };
                join_nl(ls.subrange(start, end))
            }
        },
    }
}

pub(crate) fn strip_line_end_len(seg: &Vec<char>) -> (r: usize)
    ensures
        r <= seg@.len(),
        seg@.subrange(0, r as int) == strip_line_end(seg@),
{
    let n = seg.len();
    if n > 0 && seg[n - 1] == '\n' {
        assert(seg@.drop_last() =~= seg@.subrange(0, n - 1));
        if n > 1 && seg[n - 2] == '\r' {
            assert(seg@.drop_last().drop_last() =~= seg@.subrange(0, n - 2));
            n - 2
        } else {
            n - 1
        }
    } else {
        assert(seg@.subrange(0, n as int) =~= seg@);
        n
    }
}

/// The local-read window of `content`; see `line_window`.
pub fn slice_lines(content: &str, line: Option<u32>, limit: Option<u32>) -> (r: String)
    ensures
        r@ == line_window(content@, line, limit),
{
    let l = match line {
        None => {
            return content.to_owned();
        },
        Some(l) => l,
    };
    let v = chars_of(content);
    let segs = split_lines(&v);
    let ghost ls = lines_of(content@);
    let n = segs.len();
    let start: usize = if l >= 1 { (l - 1) as usize } else { 0 };
    let count: usize = match limit { Some(c) => c as usize, None => u32::MAX as usize };
    if start >= n {
        return string_of(&Vec::new());
    }
    let end: usize = if count < n - start { start + count } else { n };
    let mut out: Vec<char> = Vec::new();
    let mut k: usize = start;
    assert(ls =~= segs@.map_values(|x: Vec<char>| x@).map_values(|seg: Seq<char>| strip_line_end(seg)));
    while k < end
        invariant
            start <= end <= n == segs@.len() == ls.len(),
            ls == segs@.map_values(|x: Vec<char>| x@).map_values(|seg: Seq<char>| strip_line_end(seg)),
            start <= k <= end,
            k > start ==> out@ == join_nl(ls.subrange(start as int, k as int)),
            k == start ==> out@.len() == 0,
        decreases end - k,
    {
        let cut = strip_line_end_len(&segs[k]);
        let ghost before = out@;
        if k > start {
            out.push('\n');
        }
        crate::text::push_range(&mut out, &segs[k], 0, cut);
        proof {
            assert(ls[k as int] == strip_line_end(segs@[k as int]@));
            let sub = ls.subrange(start as int, k + 1);
            assert(sub.drop_last() =~= ls.subrange(start as int, k as int));
            if k == start {
                assert(out@ =~= sub[0]);
            } else {
                assert(out@ =~= join_nl(sub.drop_last()) + seq!['\n'] + sub.last());
            }
        }
        k = k + 1;
    }
    assert(k == start ==> ls.subrange(start as int, k as int) =~= Seq::<Seq<char>>::empty());
    string_of(&out)
}

/// Why the client did not perform an operation: its message and, when the
/// error carried one, its data text.
pub struct ClientFailure {
    pub message: String,
    pub data: Option<String>,
}

/// What follows a write attempted through the client.
pub enum WriteFollowUp {
    /// The client wrote the file.
    Done,
    /// The client could not: write to the local disk instead.
    WriteLocally,
    /// The write is refused outright; reply with this error and write nothing.
    Fail(String),
}

pub open spec fn follow_up_view(f: WriteFollowUp) -> Option<Option<Seq<char>>> {
    match f {
        WriteFollowUp::Done => None,
        WriteFollowUp::WriteLocally => Some(None),
        WriteFollowUp::Fail(m) => Some(Some(m@)),
    }
}

/// A write the read-only gate refused is never retried on the local disk;
/// any other client failure falls back to it.
pub open spec fn write_follow_up(result: Result<(), ClientFailure>) -> Option<Option<Seq<char>>> {
    match result {
        Ok(_) => None,
        Err(f) => match f.data {
            Some(d) => if d@ == read_only_write_refusal() {
                Some(Some(read_only_write_refusal()))
            } else {
                Some(None)
            },
            None => Some(None),
        },
    }
}

/// Decides what follows a write attempted through the client.
pub fn after_client_write(result: Result<(), ClientFailure>) -> (r: WriteFollowUp)
    ensures
        follow_up_view(r) == write_follow_up(result),
{
    match result {
        Ok(()) => WriteFollowUp::Done,
        Err(f) => match f.data {
            Some(d) => {
                if string_eq(&d, "write_text_file is disabled while session mode is read-only") {
                    WriteFollowUp::Fail(d)
                } else {
                    WriteFollowUp::WriteLocally
                }
            },
            None => WriteFollowUp::WriteLocally,
        },
    }
}

} // verus!
