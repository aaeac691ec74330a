//! The decisions of a running session.

use kid_agentic_coding::acp::{
    ConfigCategory, ConfigOption, ContentBlock, SessionUpdate, ToolCall, ToolCallContent,
    ToolCallStatus, ToolCallUpdate, ToolKind,
};
use kid_agentic_coding::bridge::{
    SessionClosed, SessionEvent, SessionIds, StopReason, ToolStatus,
};
use kid_agentic_coding::session::ack::{
    awaited_verdict, commit_fix_ack_line, Awaited, CommitFixVerdict,
};
use kid_agentic_coding::session::driver::{PromptAction, SessionDriver, WorkflowAction};
use kid_agentic_coding::session::plan::{directory_error, session_root, tool_setup, ToolSetup};
use kid_agentic_coding::session::tool_call::model_from_config_options;
use kid_agentic_coding::session::updates::UpdateTranslator;
use kid_agentic_coding::wire::close_action::CloseAction;

#[test]
fn prompts_start_a_turn_and_stops_end_it() {
    let mut driver = SessionDriver::new();
    assert!(!driver.turn_active());
    assert_eq!(
        driver.handle_prompt(Some("hi".to_owned())),
        PromptAction::Send("hi".to_owned())
    );
    assert!(driver.turn_active());

    let action = driver.handle_update(SessionUpdate::Stopped(StopReason::EndTurn));
    assert!(action.turn_stopped);
    assert!(matches!(
        action.event,
        Some(SessionEvent::Stopped(StopReason::EndTurn))
    ));
    assert!(action.held.is_none());
    assert!(!driver.turn_active());
    assert_eq!(driver.handle_prompt(None), PromptAction::Close);
}

#[test]
fn a_finished_fix_session_is_reported_between_turns() {
    let done = br#"{"event":"commit-fix-done","commit_message":"fix: it"}"#;
    let mut driver = SessionDriver::new();
    assert!(matches!(
        driver.handle_workflow_message(done),
        WorkflowAction::Emit(SessionEvent::CommitFixDone { commit_message })
            if commit_message == "fix: it"
    ));

    let _ = driver.handle_prompt(Some("hi".to_owned()));
    assert!(matches!(
        driver.handle_workflow_message(done),
        WorkflowAction::Hold
    ));
    let action = driver.handle_update(SessionUpdate::Stopped(StopReason::EndTurn));
    assert!(matches!(
        action.held,
        Some(SessionEvent::CommitFixDone { commit_message }) if commit_message == "fix: it"
    ));
}

fn rejection(action: WorkflowAction) -> String {
    let WorkflowAction::Reject(CommitFixVerdict::Rejected(reason)) = action else {
        panic!("expected a rejection");
    };
    reason
}

#[test]
fn other_messages_are_asked_about_or_rejected() {
    let mut driver = SessionDriver::new();
    assert!(matches!(
        driver.handle_workflow_message(br#"{"event":"close-action","action":"add"}"#),
        WorkflowAction::Ask(SessionEvent::CloseAction(CloseAction::Add))
    ));
    assert!(matches!(
        driver.handle_workflow_message(
            br#"{"event":"close-action-outcome","action":"commit","success":true}"#
        ),
        WorkflowAction::Emit(SessionEvent::CloseActionOutcome {
            action: CloseAction::Commit,
            success: true,
            reason: None,
        })
    ));
    assert_eq!(
        rejection(driver.handle_workflow_message(br#"{"event":"nonsense"}"#)),
        "unhandled workflow event 'nonsense'"
    );
    assert_eq!(
        rejection(driver.handle_workflow_message(b"[]")),
        "unhandled workflow event '<missing>'"
    );
    assert!(rejection(driver.handle_workflow_message(b"not json"))
        .starts_with("workflow event is not valid JSON: "));
    assert_eq!(
        rejection(driver.handle_workflow_message(br#"{"event":"commit-fix"}"#)),
        "missing or non-string field 'instructions'"
    );
}

#[test]
fn only_the_exact_notification_is_confetti() {
    assert!(matches!(
        SessionDriver::handle_confetti_message(b"confetti\n"),
        Some(SessionEvent::Confetti)
    ));
    assert!(SessionDriver::handle_confetti_message(b"confetti").is_none());
}

fn announced(kind: ToolKind) -> SessionUpdate {
    SessionUpdate::ToolCall(ToolCall {
        tool_call_id: "1".to_owned(),
        title: "Read".to_owned(),
        kind,
        status: ToolCallStatus::InProgress,
        raw_input: Some(r#"{"path":"src/lib.rs"}"#.to_owned()),
        content: vec![],
        raw_output: None,
        locations: vec![],
    })
}

fn completed(text: &str) -> SessionUpdate {
    SessionUpdate::ToolCallUpdate(ToolCallUpdate {
        tool_call_id: "1".to_owned(),
        title: None,
        kind: None,
        status: Some(ToolCallStatus::Completed),
        raw_input: None,
        content: Some(vec![ToolCallContent::Content(ContentBlock::Text(
            text.to_owned(),
        ))]),
        raw_output: None,
    })
}

fn result_of(event: Option<SessionEvent>) -> Option<String> {
    let Some(SessionEvent::ToolCallUpdate { result, .. }) = event else {
        panic!("expected an update");
    };
    result
}

#[test]
fn the_kind_of_a_call_is_known_until_it_settles() {
    let mut translator = UpdateTranslator::new();
    assert!(matches!(
        translator.handle_update(announced(ToolKind::Read)),
        Some(SessionEvent::ToolCall { title, status: ToolStatus::Running, .. })
            if title == "Read (src/lib.rs)"
    ));
    let first = result_of(translator.handle_update(completed("a\nb\n")));
    let again = result_of(translator.handle_update(completed("a\nb\n")));

    assert_eq!(first, Some("2 lines".to_owned()));
    assert_eq!(again, Some("a\nb\n".to_owned()));
}

#[test]
fn updates_become_events() {
    let mut translator = UpdateTranslator::new();
    assert!(matches!(
        translator.handle_update(SessionUpdate::AgentMessageChunk(ContentBlock::Text(
            "hi".to_owned()
        ))),
        Some(SessionEvent::Chunk(text)) if text == "hi"
    ));
    assert!(matches!(
        translator.handle_update(SessionUpdate::AgentThoughtChunk(ContentBlock::Unknown)),
        Some(SessionEvent::Thought(_))
    ));
    let model = ConfigOption {
        category: Some(ConfigCategory::Model),
        current_value: Some("opus".to_owned()),
    };
    assert_eq!(
        model_from_config_options(&vec![model]),
        Some("opus".to_owned())
    );
    assert_eq!(model_from_config_options(&vec![]), None);
}

#[test]
fn setups_depend_on_the_session_and_the_agent() {
    assert_eq!(tool_setup(true, false, false), ToolSetup::Fix);
    assert_eq!(tool_setup(false, true, true), ToolSetup::WithoutConfetti);
    assert_eq!(tool_setup(false, false, true), ToolSetup::ConfettiOverAcp);
    let setup = tool_setup(false, false, false);
    assert_eq!(setup, ToolSetup::ConfettiOverSocket);
    assert!(setup.has_confetti_socket());

    assert_eq!(session_root(true, Some("/w".to_owned())), "/w");
    assert_eq!(session_root(false, Some("/w".to_owned())), ".");
    assert_eq!(session_root(true, None), ".");
    assert_eq!(
        directory_error("/run/x", "denied"),
        "failed to create bridge socket directory '/run/x': denied"
    );
}

#[test]
fn unanswered_requests_are_rejected() {
    assert_eq!(
        awaited_verdict(Awaited::Verdict(CommitFixVerdict::Accepted)),
        CommitFixVerdict::Accepted
    );
    for (awaited, reason) in [
        (Awaited::Dropped, "session is shutting down"),
        (
            Awaited::TimedOut,
            "the session did not answer the commit-fix request in time",
        ),
    ] {
        let verdict = awaited_verdict(awaited);
        assert_eq!(verdict, CommitFixVerdict::Rejected(reason.to_owned()));
        assert!(!commit_fix_ack_line(&verdict).contains('\n'));
    }
}

#[test]
fn session_ids_are_counted() {
    let mut ids = SessionIds::new();
    assert_eq!(ids.next_session_id(), "session-1");
    assert_eq!(ids.next_session_id(), "session-2");
    assert_eq!(
        SessionClosed.message(),
        "interactive session task has ended"
    );
}
