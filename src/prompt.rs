//! The decisions of one prompt turn: which session updates each backend
//! event produces, when the turn ends, and how approval answers map to
//! review decisions. The caller performs the I/O and feeds events in order.
use vstd::prelude::*;
use crate::edits::string_eq;
use crate::reasoning::{choose_final, opt_view, taken_text, ReasoningAggregator};
use crate::text::{chars_of, is_blank, is_blank_chars, string_of};

verus! {

/// The payload of a backend event, as far as the turn's decisions need it.
pub enum EventMsg {
    AgentMessageDelta(String),
    AgentMessage(String),
    AgentReasoningDelta(String),
    AgentReasoningRawContentDelta(String),
    AgentReasoning(String),
    AgentReasoningRawContent(String),
    AgentReasoningSectionBreak,
    /// A tool-call or exec begin/end, or a patch-apply end: turned into a tool-call update and forwarded.
    ToolActivity,
    ExecApprovalRequest,
    ApplyPatchApprovalRequest,
    TokenCount,
    PlanUpdate(Option<String>),
    TaskComplete,
    Error(String),
    StreamError(String),
    ShutdownComplete,
    TurnAborted,
    /// Any event the turn ignores.
    Other,
}

/// A backend event: the id of the submission it belongs to, and its payload.
pub struct BackendEvent {
    pub id: String,
    pub msg: EventMsg,
}

/// How a prompt turn ended.
#[derive(Clone, Copy, Debug, PartialEq, Eq, Structural)]
pub enum StopReason {
    EndTurn,
    Cancelled,
}

/// Something the caller must do for an event, in order.
pub enum TurnAction {
    /// Send an agent message chunk.
    MessageChunk(String),
    /// Send an agent thought chunk.
    ThoughtChunk(String),
    /// Translate the event into a tool-call update and send it.
    ForwardUpdate,
    /// Ask the client for permission; the answer is submitted under this event id.
    RequestApproval(String),
    /// Record the event's token usage in the session.
    RecordTokenUsage,
    /// Send the event's plan as a plan update.
    SendPlan,
}

/// The meaning of a `TurnAction`.
pub enum ActionSpec {
    Message(Seq<char>),
    Thought(Seq<char>),
    Forward,
    Approval(Seq<char>),
    TokenUsage,
    Plan,
}

pub open spec fn action_spec(a: TurnAction) -> ActionSpec {
    match a {
        TurnAction::MessageChunk(s) => ActionSpec::Message(s@),
        TurnAction::ThoughtChunk(s) => ActionSpec::Thought(s@),
        TurnAction::ForwardUpdate => ActionSpec::Forward,
        TurnAction::RequestApproval(s) => ActionSpec::Approval(s@),
        TurnAction::RecordTokenUsage => ActionSpec::TokenUsage,
        TurnAction::SendPlan => ActionSpec::Plan,
    }
}

pub open spec fn actions_spec(v: Seq<TurnAction>) -> Seq<ActionSpec> {
    v.map_values(|a: TurnAction| action_spec(a))
}

/// What a turn's decisions depend on.
pub struct TurnState {
    pub submit_id: Seq<char>,
    pub saw_message_delta: bool,
    pub sections: Seq<Seq<char>>,
    pub current: Seq<char>,
}

/// A section break on the reasoning state.
pub open spec fn break_section(st: TurnState) -> TurnState {
    if st.current.len() == 0 {
        st
    } else {
        TurnState { sections: st.sections.push(st.current), current: Seq::empty(), ..st }
    }
}

pub open spec fn with_reasoning_cleared(st: TurnState) -> TurnState {
    TurnState { sections: Seq::empty(), current: Seq::empty(), ..st }
}

pub open spec fn nonblank(t: Seq<char>) -> Option<Seq<char>> {
    if is_blank(t) {
        None
    } else {
        Some(t)
    }
}

/// The result of one event: next state, actions in order, and whether the turn stops.
pub struct StepSpec {
    pub state: TurnState,
    pub actions: Seq<ActionSpec>,
    pub stop: Option<StopReason>,
}

pub open spec fn quiet(st: TurnState) -> StepSpec {
    StepSpec { state: st, actions: Seq::empty(), stop: None }
}

pub open spec fn emit(st: TurnState, a: ActionSpec) -> StepSpec {
    StepSpec { state: st, actions: seq![a], stop: None }
}

/// The transition of a turn in state `st` on event `e`.
pub open spec fn turn_step(st: TurnState, e: BackendEvent) -> StepSpec {
    if e.id@ != st.submit_id {
        quiet(st)
    } else {
        match e.msg {
            EventMsg::AgentMessageDelta(d) => emit(
                TurnState { saw_message_delta: true, ..st },
                ActionSpec::Message(d@),
            ),
            EventMsg::AgentMessage(m) => if st.saw_message_delta {
                quiet(st)
            } else {
                emit(st, ActionSpec::Message(m@))
            },
            EventMsg::AgentReasoningDelta(d) => quiet(TurnState { current: st.current + d@, ..st }),
            EventMsg::AgentReasoningRawContentDelta(d) => quiet(
                TurnState { current: st.current + d@, ..st },
            ),
            EventMsg::AgentReasoning(t) => {
                let b = break_section(st);
                let text = choose_final(taken_text(b.sections.push(b.current)), nonblank(t@));
                let next = with_reasoning_cleared(st);
                match text {
                    Some(x) => if is_blank(x) {
                        quiet(next)
                    } else {
                        emit(next, ActionSpec::Thought(x))
                    },
                    None => quiet(next),
                }
            },
            EventMsg::AgentReasoningRawContent(t) => {
                let b = break_section(st);
                if is_blank(t@) {
                    quiet(b)
                } else {
                    quiet(TurnState { current: b.current + t@, ..b })
                }
            },
            EventMsg::AgentReasoningSectionBreak => quiet(break_section(st)),
            EventMsg::ToolActivity => emit(st, ActionSpec::Forward),
            EventMsg::ExecApprovalRequest => emit(st, ActionSpec::Approval(e.id@)),
            EventMsg::ApplyPatchApprovalRequest => emit(st, ActionSpec::Approval(e.id@)),
            EventMsg::TokenCount => emit(st, ActionSpec::TokenUsage),
            EventMsg::PlanUpdate(expl) => match expl {
                Some(x) => StepSpec {
                    state: st,
                    actions: seq![ActionSpec::Message(x@), ActionSpec::Plan],
                    stop: None,
                },
                None => emit(st, ActionSpec::Plan),
            },
            EventMsg::TaskComplete => StepSpec {
                state: st,
                actions: Seq::empty(),
                stop: Some(StopReason::EndTurn),
            },
            EventMsg::Error(m) => emit(st, ActionSpec::Message(m@ + seq!['\n', '\n'])),
            EventMsg::StreamError(m) => emit(st, ActionSpec::Message(m@ + seq!['\n', '\n'])),
            EventMsg::ShutdownComplete => StepSpec {
                state: st,
                actions: Seq::empty(),
                stop: Some(StopReason::Cancelled),
            },
            EventMsg::TurnAborted => StepSpec {
                state: st,
                actions: Seq::empty(),
                stop: Some(StopReason::Cancelled),
            },
            EventMsg::Other => quiet(st),
        }
    }
}

/// What one event asks of the caller.
pub struct TurnStep {
    pub actions: Vec<TurnAction>,
    pub stop: Option<StopReason>,
}

/// The state of one prompt turn between events.
pub struct PromptTurn {
    submit_id: String,
    saw_message_delta: bool,
    reasoning: ReasoningAggregator,
}

impl PromptTurn {
    pub closed spec fn state(&self) -> TurnState {
        TurnState {
            submit_id: self.submit_id@,
            saw_message_delta: self.saw_message_delta,
            sections: self.reasoning.sections(),
            current: self.reasoning.current(),
        }
    }

    /// A turn whose submission has id `submit_id`, with nothing seen yet.
    pub fn new(submit_id: String) -> (r: Self)
        ensures
            r.state() == (TurnState {
                submit_id: submit_id@,
                saw_message_delta: false,
                sections: Seq::empty(),
                current: Seq::empty(),
            }),
    {
        let reasoning = ReasoningAggregator::new();
        PromptTurn { submit_id, saw_message_delta: false, reasoning }
    }

    /// Decides what event `e` produces. Events of other submissions produce
    /// nothing and leave the turn as it was.
    pub fn handle_event(&mut self, e: &BackendEvent) -> (r: TurnStep)
        ensures
            final(self).state() == turn_step(old(self).state(), *e).state,
            actions_spec(r.actions@) == turn_step(old(self).state(), *e).actions,
            r.stop == turn_step(old(self).state(), *e).stop,
    {
        let ghost st = self.state();
        let mut actions: Vec<TurnAction> = Vec::new();
        let mut stop: Option<StopReason> = None;
        if !string_eq(&e.id, self.submit_id.as_str()) {
            assert(actions_spec(actions@) =~= Seq::<ActionSpec>::empty());
            return TurnStep { actions, stop };
        }
        match &e.msg {
            EventMsg::AgentMessageDelta(d) => {
                self.saw_message_delta = true;
                actions.push(TurnAction::MessageChunk(d.clone()));
            },
            EventMsg::AgentMessage(m) => {
                if !self.saw_message_delta {
                    actions.push(TurnAction::MessageChunk(m.clone()));
                }
            },
            EventMsg::AgentReasoningDelta(d) => {
                self.reasoning.append_delta(d.as_str());
            },
            EventMsg::AgentReasoningRawContentDelta(d) => {
                self.reasoning.append_delta(d.as_str());
            },
            EventMsg::AgentReasoning(t) => {
                self.reasoning.section_break();
                let fin = if is_blank_chars(&chars_of(t.as_str())) {
                    None
                } else {
                    Some(t.clone())
                };
                let text = self.reasoning.choose_final_text(fin);
                if let Some(x) = text {
                    if !is_blank_chars(&chars_of(x.as_str())) {
                        actions.push(TurnAction::ThoughtChunk(x));
                    }
                }
            },
            EventMsg::AgentReasoningRawContent(t) => {
                self.reasoning.section_break();
                if !is_blank_chars(&chars_of(t.as_str())) {
                    self.reasoning.append_delta(t.as_str());
                }
            },
            EventMsg::AgentReasoningSectionBreak => {
                self.reasoning.section_break();
            },
            EventMsg::ToolActivity => {
                actions.push(TurnAction::ForwardUpdate);
            },
            EventMsg::ExecApprovalRequest => {
                actions.push(TurnAction::RequestApproval(e.id.clone()));
            },
            EventMsg::ApplyPatchApprovalRequest => {
                actions.push(TurnAction::RequestApproval(e.id.clone()));
            },
            EventMsg::TokenCount => {
                actions.push(TurnAction::RecordTokenUsage);
            },
            EventMsg::PlanUpdate(expl) => {
                if let Some(x) = expl {
                    actions.push(TurnAction::MessageChunk(x.clone()));
                }
                actions.push(TurnAction::SendPlan);
            },
            EventMsg::TaskComplete => {
                stop = Some(StopReason::EndTurn);
            },
            EventMsg::Error(m) => {
                actions.push(TurnAction::MessageChunk(with_blank_line(m)));
            },
            EventMsg::StreamError(m) => {
                actions.push(TurnAction::MessageChunk(with_blank_line(m)));
            },
            EventMsg::ShutdownComplete => {
                stop = Some(StopReason::Cancelled);
            },
            EventMsg::TurnAborted => {
                stop = Some(StopReason::Cancelled);
            },
            EventMsg::Other => {},
        }
        assert(actions_spec(actions@) =~= turn_step(st, *e).actions);
        TurnStep { actions, stop }
    }

    /// The reasoning text still held when the turn ends, if it is not blank;
    /// empties the aggregator.
    pub fn finish(&mut self) -> (r: Option<String>)
        ensures
            opt_view(r) == (match taken_text(old(self).state().sections.push(old(self).state().current)) {
                Some(x) => if is_blank(x) {
                    None
                } else {
                    Some(x)
                },
                None => None,
            }),
            final(self).state() == with_reasoning_cleared(old(self).state()),
    {
        match self.reasoning.take_text() {
            Some(x) => {
                if is_blank_chars(&chars_of(x.as_str())) {
                    None
                } else {
                    Some(x)
                }
            },
            None => None,
        }
    }
}

/// `m` followed by a blank line.
fn with_blank_line(m: &String) -> (r: String)
    ensures
        r@ == m@ + seq!['\n', '\n'],
{
    let mut v = chars_of(m.as_str());
    v.push('\n');
    v.push('\n');
    string_of(&v)
}

/// The state after the first `n` events of `evs`, starting from `st`.
pub open spec fn state_after(st: TurnState, evs: Seq<BackendEvent>, n: int) -> TurnState
    decreases n,
{
    if n <= 0 {
        st
    } else {
        turn_step(state_after(st, evs, n - 1), evs[n - 1]).state
    }
}

/// The actions produced by event `n` of `evs`.
pub open spec fn actions_at(st: TurnState, evs: Seq<BackendEvent>, n: int) -> Seq<ActionSpec> {
    turn_step(state_after(st, evs, n), evs[n]).actions
}

proof fn lemma_submit_id_kept(st: TurnState, evs: Seq<BackendEvent>, n: int)
    requires
        0 <= n <= evs.len(),
    ensures
        state_after(st, evs, n).submit_id == st.submit_id,
    decreases n,
{
    if n > 0 {
        lemma_submit_id_kept(st, evs, n - 1);
    }
}

proof fn lemma_saw_delta_kept(st: TurnState, evs: Seq<BackendEvent>, k: int, n: int)
    requires
        0 <= k <= n <= evs.len(),
        state_after(st, evs, k).saw_message_delta,
    ensures
        state_after(st, evs, n).saw_message_delta,
    decreases n - k,
{
    if k < n {
        lemma_saw_delta_kept(st, evs, k, n - 1);
    }
}

/// Once a message delta of the submission has been seen, no later full
/// agent message of the turn is sent as a chunk.
pub proof fn law_delta_dedup(st: TurnState, evs: Seq<BackendEvent>, k: int, j: int)
    requires
        0 <= k < j < evs.len(),
        evs[k].id@ == st.submit_id,
        evs[k].msg is AgentMessageDelta,
        evs[j].msg is AgentMessage,
    ensures
        actions_at(st, evs, j).len() == 0,
{
    lemma_submit_id_kept(st, evs, k);
    lemma_saw_delta_kept(st, evs, k + 1, j);
}

/// Events of another submission produce no update and leave the turn's
/// state unchanged.
pub proof fn law_event_filtering(st: TurnState, evs: Seq<BackendEvent>, n: int)
    requires
        0 <= n < evs.len(),
        evs[n].id@ != st.submit_id,
    ensures
        actions_at(st, evs, n).len() == 0,
        turn_step(state_after(st, evs, n), evs[n]).stop is None,
        state_after(st, evs, n + 1) == state_after(st, evs, n),
{
    lemma_submit_id_kept(st, evs, n);
}

/// The client's answer to a permission request.
pub enum PermissionOutcome {
    Selected(String),
    Cancelled,
}

/// The decision submitted to the backend for an approval request.
#[derive(Clone, Copy, Debug, PartialEq, Eq, Structural)]
pub enum ReviewDecision {
    Approved,
    ApprovedForSession,
    Abort,
}

pub open spec fn review_decision_of(o: PermissionOutcome) -> ReviewDecision {
    match o {
        PermissionOutcome::Selected(id) => if id@ == "approved"@ {
            ReviewDecision::Approved
        } else if id@ == "approved-for-session"@ {
            ReviewDecision::ApprovedForSession
        } else {
            ReviewDecision::Abort
        },
        PermissionOutcome::Cancelled => ReviewDecision::Abort,
    }
}

/// Maps a permission answer to a review decision: the two approving option
/// ids approve, anything else or a cancellation aborts.
pub fn handle_response_outcome(outcome: &PermissionOutcome) -> (r: ReviewDecision)
    ensures
        r == review_decision_of(*outcome),
{
    match outcome {
        PermissionOutcome::Selected(id) => {
            if string_eq(id, "approved") {
                ReviewDecision::Approved
            } else if string_eq(id, "approved-for-session") {
                ReviewDecision::ApprovedForSession
            } else {
                ReviewDecision::Abort
            }
        },
        PermissionOutcome::Cancelled => ReviewDecision::Abort,
    }
}

/// A block of a user prompt.
pub enum PromptBlock {
    Text(String),
    Image { mime_type: String, data: String },
    Audio,
    /// An embedded resource given as text.
    TextResource(String),
    /// An embedded resource given as binary data.
    BlobResource,
    ResourceLink { uri: String },
}

/// An item of the input submitted to the backend.
pub enum UserInputItem {
    Text(String),
    Image(String),
}

/// The meaning of a `UserInputItem`: `true` for an image URL.
pub open spec fn input_view(i: UserInputItem) -> (bool, Seq<char>) {
    match i {
        UserInputItem::Text(t) => (false, t@),
        UserInputItem::Image(u) => (true, u@),
    }
}

/// The input items a prompt block becomes: text as text, an image as a
/// base64 data URL, a text resource as its text, a resource link as
/// `Resource: <uri>`; audio and binary resources are dropped.
pub open spec fn block_inputs(b: PromptBlock) -> Seq<(bool, Seq<char>)> {
    match b {
        PromptBlock::Text(t) => seq![(false, t@)],
        PromptBlock::Image { mime_type, data } => seq![(true, "data:"@ + mime_type@ + ";base64,"@ + data@)],
        PromptBlock::Audio => Seq::empty(),
        PromptBlock::TextResource(t) => seq![(false, t@)],
        PromptBlock::BlobResource => Seq::empty(),
        PromptBlock::ResourceLink { uri } => seq![(false, "Resource: "@ + uri@)],
    }
}

pub open spec fn prompt_inputs(bs: Seq<PromptBlock>) -> Seq<(bool, Seq<char>)>
    decreases bs.len(),
{
    if bs.len() == 0 {
        Seq::empty()
    } else {
        prompt_inputs(bs.drop_last()) + block_inputs(bs.last())
    }
}

/// The input submitted for a prompt's blocks, in order.
pub fn user_inputs(blocks: &[PromptBlock]) -> (r: Vec<UserInputItem>)
    ensures
        r@.map_values(|i: UserInputItem| input_view(i)) == prompt_inputs(blocks@),
{
    let mut out: Vec<UserInputItem> = Vec::new();
    let n = blocks.len();
    let mut k: usize = 0;
    assert(blocks@.subrange(0, 0) =~= Seq::<PromptBlock>::empty());
    while k < n
        invariant
            n == blocks@.len(),
            k <= n,
            out@.map_values(|i: UserInputItem| input_view(i)) == prompt_inputs(blocks@.subrange(0, k as int)),
        decreases n - k,
    {
        let ghost before = out@.map_values(|i: UserInputItem| input_view(i));
        assert(blocks@.subrange(0, k + 1).drop_last() =~= blocks@.subrange(0, k as int));
        assert(blocks@.subrange(0, k + 1).last() == blocks@[k as int]);
        match &blocks[k] {
            PromptBlock::Text(t) => out.push(UserInputItem::Text(t.clone())),
            PromptBlock::Image { mime_type, data } => {
                let mut v = chars_of("data:");
                crate::text::push_all(&mut v, &chars_of(mime_type.as_str()));
                crate::text::push_all(&mut v, &chars_of(";base64,"));
                crate::text::push_all(&mut v, &chars_of(data.as_str()));
                let url = string_of(&v);
                out.push(UserInputItem::Image(url));
            },
            PromptBlock::Audio => {},
            PromptBlock::TextResource(t) => out.push(UserInputItem::Text(t.clone())),
            PromptBlock::BlobResource => {},
            PromptBlock::ResourceLink { uri } => {
                let mut v = chars_of("Resource: ");
                crate::text::push_all(&mut v, &chars_of(uri.as_str()));
                out.push(UserInputItem::Text(string_of(&v)));
            },
        }
        assert(out@.map_values(|i: UserInputItem| input_view(i)) =~= before + block_inputs(blocks@[k as int]));
        k = k + 1;
    }
    assert(blocks@.subrange(0, n as int) =~= blocks@);
    out
}

} // verus!
