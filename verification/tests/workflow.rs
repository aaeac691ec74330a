//! The workflow manager.

use kid_agentic_coding::bridge::{SessionEvent, StopReason};
use kid_agentic_coding::wire::close_action::{CloseAction, CloseActionVerdict};
use kid_agentic_coding::wire::commit_fix::{CommitFixRequest, CommitFixVerdict};
use kid_agentic_coding::workflow::{
    Step, Workflow, WorkflowEvent, WorkflowManager, WorkflowView, CLOSE_ACTION_TIMEOUT,
    COMMIT_FIX_WORKFLOW, MAIN_WORKFLOW,
};

fn request() -> CommitFixRequest {
    CommitFixRequest {
        instructions: "fix it".to_owned(),
        amend: false,
        tldr: "short".to_owned(),
        why: "reason".to_owned(),
        what: "change".to_owned(),
        cwd: Some(".".to_owned()),
    }
}

fn manager() -> WorkflowManager<&'static str> {
    WorkflowManager::new("main")
}

/// A manager already in the `Fix` workflow, for tests that gate close actions.
fn manager_in_fix_workflow() -> WorkflowManager<&'static str> {
    let mut manager = manager();
    assert_eq!(manager.request_fix(request()), CommitFixVerdict::Opening);
    let stopped = SessionEvent::Stopped(StopReason::Cancelled);
    let Step::StartFix(request) = manager.handle_event(Workflow::Main, Some(stopped), 0) else {
        panic!("the fix session must be started");
    };
    manager.fix_started(&request, "fix");
    assert_eq!(manager.view().workflow(), Workflow::Fix);
    manager
}

#[test]
fn lib_starts_in_main_workflow() {
    let manager = manager();

    assert_eq!(manager.view().workflow(), Workflow::Main);
    assert_eq!(manager.view().name(), MAIN_WORKFLOW);
}

#[test]
fn lib_fix_prompt_is_emitted_as_an_auto_prompt() {
    let mut manager = manager();

    let event = manager.send_prompt(Workflow::Main, "seed prompt".to_owned());

    let WorkflowEvent::Session {
        workflow,
        transition,
        event,
    } = event
    else {
        panic!("expected session event");
    };
    assert_eq!(workflow, Workflow::Main);
    assert_eq!(transition, None);
    assert!(matches!(
        event,
        SessionEvent::AutoPrompt(prompt) if prompt == "seed prompt"
    ));
}

#[test]
fn workflow_transition_is_attached_to_the_emitted_event() {
    let mut manager = manager();

    assert!(matches!(
        manager.send_prompt(Workflow::Fix, "seed prompt".to_owned()),
        WorkflowEvent::Session {
            transition: Some(Workflow::Fix),
            ..
        }
    ));

    assert!(matches!(
        manager.send_prompt(Workflow::Main, "back to main".to_owned()),
        WorkflowEvent::Session {
            transition: Some(Workflow::Main),
            ..
        }
    ));
}

#[test]
fn lib_opening_is_non_blocking_state_transition() {
    let mut manager = manager();

    assert_eq!(manager.request_fix(request()), CommitFixVerdict::Opening);
    assert_eq!(manager.view().workflow(), Workflow::OpeningFix);
}

#[test]
fn lib_second_fix_request_is_ignored_without_replacing_state() {
    let mut manager = manager();
    let _ = manager.request_fix(request());

    assert!(matches!(
        manager.request_fix(request()),
        CommitFixVerdict::Ignored { .. }
    ));
    assert_eq!(manager.view().workflow(), Workflow::OpeningFix);
}

#[test]
fn lib_close_action_is_rejected_without_an_active_fix_session() {
    let mut manager = manager();

    assert!(matches!(
        manager.request_close_action(CloseAction::Add, 0),
        CloseActionVerdict::Rejected { .. }
    ));
}

#[test]
fn fix_session_end_returns_to_main() {
    let mut manager = manager_in_fix_workflow();

    assert!(matches!(
        manager.handle_session_end(Workflow::Fix),
        WorkflowEvent::SessionEnded {
            workflow: Workflow::Fix
        }
    ));
    assert_eq!(manager.view().workflow(), Workflow::Main);
    assert!(manager.fix_session().is_none());
    assert_eq!(*manager.active_session(), "main");
}

#[test]
fn main_session_end_is_recorded_without_replacing_the_session() {
    let mut manager = manager();

    assert!(matches!(
        manager.handle_session_end(Workflow::Main),
        WorkflowEvent::SessionEnded {
            workflow: Workflow::Main
        }
    ));
    assert!(manager.main_ended());
    assert!(manager.fix_session().is_none());
    assert_eq!(manager.view().workflow(), Workflow::Main);
}

#[test]
fn lib_close_action_is_authorized_while_the_fix_session_is_active() {
    let mut manager = manager_in_fix_workflow();

    assert_eq!(
        manager.request_close_action(CloseAction::Add, 0),
        CloseActionVerdict::Authorized
    );
}

#[test]
fn lib_a_second_close_action_is_rejected_while_one_is_still_pending() {
    let mut manager = manager_in_fix_workflow();
    assert_eq!(
        manager.request_close_action(CloseAction::Commit, 0),
        CloseActionVerdict::Authorized
    );

    assert!(matches!(
        manager.request_close_action(CloseAction::Commit, 0),
        CloseActionVerdict::Rejected { .. }
    ));
}

#[test]
fn expired_close_action_releases_the_pending_gate() {
    let mut manager = manager_in_fix_workflow();
    let _ = manager.request_close_action(CloseAction::Add, 0);

    assert!(!manager.expire_close_action(CLOSE_ACTION_TIMEOUT - 1));
    assert!(manager.waits().deadline.is_some());
    assert!(manager.expire_close_action(CLOSE_ACTION_TIMEOUT + 1_000));
    assert!(manager.waits().deadline.is_none());
}

#[test]
fn lib_close_action_outcome_releases_the_pending_gate_and_stays_in_fix() {
    let mut manager = manager_in_fix_workflow();
    let _ = manager.request_close_action(CloseAction::Add, 0);

    let outcome = manager.handle_event(
        Workflow::Fix,
        Some(SessionEvent::CloseActionOutcome {
            action: CloseAction::Add,
            success: false,
            reason: Some("git add failed".to_owned()),
        }),
        0,
    );

    assert!(matches!(outcome, Step::Wait));
    assert_eq!(manager.view().workflow(), Workflow::Fix);

    assert_eq!(
        manager.request_close_action(CloseAction::Add, 0),
        CloseActionVerdict::Authorized
    );
}

#[test]
fn lib_unexpected_close_action_outcome_does_not_release_the_pending_gate() {
    let mut manager = manager_in_fix_workflow();
    assert_eq!(
        manager.request_close_action(CloseAction::Add, 0),
        CloseActionVerdict::Authorized
    );

    let outcome = manager.handle_event(
        Workflow::Fix,
        Some(SessionEvent::CloseActionOutcome {
            action: CloseAction::Commit,
            success: true,
            reason: None,
        }),
        0,
    );

    assert!(matches!(outcome, Step::Wait));

    assert!(matches!(
        manager.request_close_action(CloseAction::Commit, 0),
        CloseActionVerdict::Rejected { .. }
    ));
}

#[test]
fn lib_commit_fix_done_also_releases_the_pending_gate() {
    let mut manager = manager_in_fix_workflow();
    let _ = manager.request_close_action(CloseAction::Commit, 0);

    let step = manager.handle_event(
        Workflow::Fix,
        Some(SessionEvent::CommitFixDone {
            commit_message: "fix: trim".to_owned(),
        }),
        0,
    );

    let Step::Prompt(event) = step else {
        panic!("commit-fix-done is converted to an auto prompt");
    };
    assert!(matches!(
        event,
        WorkflowEvent::Session {
            workflow: Workflow::Main,
            event: SessionEvent::AutoPrompt(prompt),
            ..
        } if prompt == "## Commit message used\n\nfix: trim"
    ));
    assert_eq!(manager.view().workflow(), Workflow::Main);
}

#[test]
fn a_fix_session_is_seeded_with_the_request() {
    let mut manager = manager();
    let _ = manager.handle_event(Workflow::Main, Some(SessionEvent::CommitFix(request())), 0);
    let stopped = SessionEvent::Stopped(StopReason::EndTurn);
    let Step::StartFix(request) = manager.handle_event(Workflow::Main, Some(stopped), 0) else {
        panic!("the fix session must be started");
    };

    let event = manager.fix_started(&request, "fix");

    assert!(matches!(
        event,
        WorkflowEvent::Session {
            workflow: Workflow::Fix,
            transition: Some(Workflow::Fix),
            event: SessionEvent::AutoPrompt(prompt),
        } if prompt == "fix it\n\nCommit Amend Decision: no\n\n## TL;DR\n\nshort\n\n\
                        ## Why is this change needed?\n\nreason\n\n\
                        ## What does this change do?\n\nchange"
    ));
    assert_eq!(*manager.active_session(), "fix");
    assert_eq!(*manager.main_session(), "main");
}

#[test]
fn other_stops_do_not_start_a_fix_session() {
    let mut manager = manager();
    let _ = manager.request_fix(request());
    let stopped = SessionEvent::Stopped(StopReason::Refusal);

    assert!(matches!(
        manager.handle_event(Workflow::Main, Some(stopped), 0),
        Step::Report(WorkflowEvent::Session {
            workflow: Workflow::Main,
            transition: None,
            event: SessionEvent::Stopped(StopReason::Refusal),
        })
    ));
    assert_eq!(manager.view().workflow(), Workflow::OpeningFix);
}

#[test]
fn workflows_have_names() {
    assert_eq!(Workflow::Main.name(), "programming");
    assert_eq!(WorkflowView::new(Workflow::OpeningFix).name(), "commit-fix");
    assert_eq!(WorkflowView::new(Workflow::Fix).name(), COMMIT_FIX_WORKFLOW);
}

#[test]
fn an_accepted_request_cancels_the_main_turn() {
    let mut manager = manager();
    let asked = || Some(SessionEvent::CommitFix(request()));

    let Step::AnswerFix {
        verdict,
        cancel_main,
    } = manager.handle_event(Workflow::Main, asked(), 0)
    else {
        panic!("the request must be answered");
    };
    assert_eq!(verdict, CommitFixVerdict::Opening);
    assert!(cancel_main);

    let Step::AnswerFix {
        verdict,
        cancel_main,
    } = manager.handle_event(Workflow::Main, asked(), 0)
    else {
        panic!("the request must be answered");
    };
    assert!(matches!(verdict, CommitFixVerdict::Ignored { .. }));
    assert!(!cancel_main);
}

#[test]
fn the_deadline_of_an_action_is_counted_as_far_as_it_can_be() {
    let mut manager = manager_in_fix_workflow();

    let verdict = manager.request_close_action(CloseAction::Add, u64::MAX - 1);
    assert_eq!(verdict, CloseActionVerdict::Authorized);
    assert_eq!(manager.waits().deadline, Some(u64::MAX));
    assert!(!manager.expire_close_action(u64::MAX - 1));
    assert!(manager.expire_close_action(u64::MAX));
}
