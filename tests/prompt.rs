use codex_acp::prompt::{
    handle_response_outcome, user_inputs, BackendEvent, EventMsg, PermissionOutcome, PromptBlock,
    PromptTurn, ReviewDecision, StopReason, TurnAction, UserInputItem,
};

fn ev(id: &str, msg: EventMsg) -> BackendEvent {
    BackendEvent { id: id.to_string(), msg }
}

/// Runs `events` through a turn and collects message and thought chunks.
fn run(events: Vec<BackendEvent>) -> (Vec<String>, Option<StopReason>) {
    let mut turn = PromptTurn::new("sub".to_string());
    let mut chunks = Vec::new();
    let mut stop = None;
    for e in events.iter() {
        let step = turn.handle_event(e);
        for a in step.actions {
            match a {
                TurnAction::MessageChunk(s) => chunks.push(format!("msg:{s}")),
                TurnAction::ThoughtChunk(s) => chunks.push(format!("thought:{s}")),
                TurnAction::RequestApproval(id) => chunks.push(format!("approval:{id}")),
                TurnAction::ForwardUpdate => chunks.push("update".to_string()),
                TurnAction::RecordTokenUsage => chunks.push("tokens".to_string()),
                TurnAction::SendPlan => chunks.push("plan".to_string()),
            }
        }
        if step.stop.is_some() {
            stop = step.stop;
            break;
        }
    }
    if let Some(t) = turn.finish() {
        chunks.push(format!("thought:{t}"));
    }
    (chunks, stop)
}

#[test]
fn echo_with_deltas() {
    let (chunks, stop) = run(vec![
        ev("sub", EventMsg::AgentMessageDelta("he".to_string())),
        ev("sub", EventMsg::AgentMessageDelta("llo".to_string())),
        ev("sub", EventMsg::TaskComplete),
    ]);
    assert_eq!(chunks, vec!["msg:he", "msg:llo"]);
    assert_eq!(stop, Some(StopReason::EndTurn));
}

#[test]
fn final_message_after_delta_is_ignored() {
    let (chunks, stop) = run(vec![
        ev("sub", EventMsg::AgentMessageDelta("hi".to_string())),
        ev("sub", EventMsg::AgentMessage("hi there".to_string())),
        ev("sub", EventMsg::TaskComplete),
    ]);
    assert_eq!(chunks, vec!["msg:hi"]);
    assert_eq!(stop, Some(StopReason::EndTurn));
}

#[test]
fn final_message_without_delta_is_sent() {
    let (chunks, _) = run(vec![
        ev("sub", EventMsg::AgentMessage("whole".to_string())),
        ev("sub", EventMsg::TaskComplete),
    ]);
    assert_eq!(chunks, vec!["msg:whole"]);
}

#[test]
fn events_of_other_submissions_are_dropped() {
    let (chunks, stop) = run(vec![
        ev("other", EventMsg::AgentMessageDelta("x".to_string())),
        ev("other", EventMsg::TaskComplete),
        ev("other", EventMsg::AgentReasoningDelta("hidden".to_string())),
        ev("sub", EventMsg::AgentMessage("shown".to_string())),
        ev("sub", EventMsg::TurnAborted),
    ]);
    assert_eq!(chunks, vec!["msg:shown"]);
    assert_eq!(stop, Some(StopReason::Cancelled));
}

#[test]
fn reasoning_final_prefers_longer_text() {
    let (chunks, _) = run(vec![
        ev("sub", EventMsg::AgentReasoningDelta("think".to_string())),
        ev("sub", EventMsg::AgentReasoning("think harder".to_string())),
        ev("sub", EventMsg::TaskComplete),
    ]);
    assert_eq!(chunks, vec!["thought:think harder"]);
}

#[test]
fn raw_reasoning_is_flushed_at_end() {
    let (chunks, _) = run(vec![
        ev("sub", EventMsg::AgentReasoningRawContent("raw one".to_string())),
        ev("sub", EventMsg::AgentReasoningSectionBreak),
        ev("sub", EventMsg::AgentReasoningRawContentDelta("raw two".to_string())),
        ev("sub", EventMsg::ShutdownComplete),
    ]);
    assert_eq!(chunks, vec!["thought:raw one\n\nraw two"]);
}

#[test]
fn errors_and_plans_become_chunks() {
    let (chunks, _) = run(vec![
        ev("sub", EventMsg::Error("boom".to_string())),
        ev("sub", EventMsg::StreamError("retrying".to_string())),
        ev("sub", EventMsg::PlanUpdate(Some("why".to_string()))),
        ev("sub", EventMsg::PlanUpdate(None)),
        ev("sub", EventMsg::ToolActivity),
        ev("sub", EventMsg::TokenCount),
        ev("sub", EventMsg::ExecApprovalRequest),
        ev("sub", EventMsg::Other),
        ev("sub", EventMsg::TaskComplete),
    ]);
    assert_eq!(
        chunks,
        vec![
            "msg:boom\n\n", "msg:retrying\n\n", "msg:why", "plan", "plan", "update", "tokens",
            "approval:sub"
        ]
    );
}

#[test]
fn approval_answers_map_to_decisions() {
    let sel = |s: &str| PermissionOutcome::Selected(s.to_string());
    assert_eq!(handle_response_outcome(&sel("approved")), ReviewDecision::Approved);
    assert_eq!(handle_response_outcome(&sel("approved-for-session")), ReviewDecision::ApprovedForSession);
    assert_eq!(handle_response_outcome(&sel("abort")), ReviewDecision::Abort);
    assert_eq!(handle_response_outcome(&sel("something-else")), ReviewDecision::Abort);
    assert_eq!(handle_response_outcome(&PermissionOutcome::Cancelled), ReviewDecision::Abort);
}

#[test]
fn prompt_blocks_become_user_input() {
    let blocks = vec![
        PromptBlock::Text("hi".to_string()),
        PromptBlock::Image { mime_type: "image/png".to_string(), data: "QUJD".to_string() },
        PromptBlock::Audio,
        PromptBlock::TextResource("doc".to_string()),
        PromptBlock::BlobResource,
        PromptBlock::ResourceLink { uri: "file:///w/a.rs".to_string() },
    ];
    let items: Vec<String> = user_inputs(&blocks)
        .into_iter()
        .map(|i| match i {
            UserInputItem::Text(t) => format!("text:{t}"),
            UserInputItem::Image(u) => format!("image:{u}"),
        })
        .collect();
    assert_eq!(
        items,
        vec!["text:hi", "image:data:image/png;base64,QUJD", "text:doc", "text:Resource: file:///w/a.rs"]
    );
}
