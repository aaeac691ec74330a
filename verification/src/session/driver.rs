//! The decisions of a running session: what becomes of prompts, cancellations,
//! bridge messages and the agent's messages.

use vstd::prelude::*;
use vstd::utf8;

use super::ack;
use super::ack::CommitFixVerdict;
use super::commit_fix_event;
use super::commit_fix_event::parse_commit_fix_event;
use super::updates;
use super::updates::UpdateTranslator;
use crate::acp::{SessionUpdate, ToolKind};
use crate::bridge::{SessionEvent, SessionEventView};
use crate::json;
use crate::json::{parse_document, Document, DocumentView};
use crate::text::chars;
use crate::text::chars::same_text;
use crate::text::search;
use crate::wire::close_action::{CloseAction, CLOSE_ACTION_EVENT, CLOSE_ACTION_OUTCOME_EVENT};
use crate::wire::commit_fix::{CommitFixRequest, RequestView, COMMIT_FIX_DONE_EVENT, COMMIT_FIX_EVENT};
use crate::wire::confetti::Confetti;
use crate::wire::workflow_event;
use crate::wire::workflow_event::{EventView, WorkflowEvent};

verus! {

/// What is to be done about a prompt.
#[derive(Debug, PartialEq, Eq)]
pub enum PromptAction {
    /// Drop the cancellations that came before it, and send it to the agent.
    Send(String),
    /// The consumer went away: end the session.
    Close,
}

/// What is to be done about a message on the workflow socket.
#[derive(Debug)]
pub enum WorkflowAction {
    /// Report the event and answer the message with the verdict on it.
    Ask(SessionEvent),
    /// Report the event.
    Emit(SessionEvent),
    /// Answer the message.
    Reject(CommitFixVerdict),
    /// Nothing until the turn ends.
    Hold,
}

/// What is to be done about a message of the agent.
#[derive(Debug)]
pub struct UpdateAction {
    /// The turn ended: drop the cancellations that came before its end.
    pub turn_stopped: bool,
    /// The event of the message.
    pub event: Option<SessionEvent>,
    /// The event that was held back until the turn ended, to be reported last.
    pub held: Option<SessionEvent>,
}

/// Decides what a running session does, message by message.
#[derive(Debug)]
pub struct SessionDriver {
    turn_active: bool,
    pending_commit_fix_done: Option<String>,
    translator: UpdateTranslator,
}

/// The state of a running session.
#[verifier::ext_equal]
pub struct DriverView {
    pub turn_active: bool,
    pub pending_commit_fix_done: Option<Seq<char>>,
    pub kinds: Map<Seq<char>, ToolKind>,
}

impl View for SessionDriver {
    type V = DriverView;

    closed spec fn view(&self) -> DriverView {
        DriverView {
            turn_active: self.turn_active,
            pending_commit_fix_done: chars::optional_text(self.pending_commit_fix_done),
            kinds: self.translator@,
        }
    }
}

/// Whether a state is one that can come about: an event is held back only
/// while a turn is active.
pub open spec fn is_consistent(state: DriverView) -> bool {
    state.pending_commit_fix_done is Some ==> state.turn_active
}

/// An answer that rejects a message.
pub open spec fn is_rejection(action: WorkflowAction, reason: Seq<char>) -> bool {
    action matches WorkflowAction::Reject(verdict) && verdict@ == ack::VerdictView::Rejected(reason)
}

/// The message of the commit that an event gives, empty where it gives none.
pub open spec fn done_message(document: DocumentView) -> Seq<char> {
    match json::text_member(document, "commit_message"@) {
        Some(commit_message) => commit_message,
        None => Seq::empty(),
    }
}

/// What becomes of a document on the workflow socket.
pub open spec fn is_workflow_step(
    before: DriverView,
    document: DocumentView,
    after: DriverView,
    action: WorkflowAction,
) -> bool {
    let tag = json::text_member(document, "event"@);
    if tag == Some(COMMIT_FIX_EVENT@) {
        &&& after == before
        &&& match commit_fix_event::validated(document) {
            Ok(request) => action matches WorkflowAction::Ask(event) && event@
                == SessionEventView::CommitFix(request),
            Err(reason) => is_rejection(action, reason),
        }
    } else if tag == Some(COMMIT_FIX_DONE_EVENT@) {
        if before.turn_active {
            &&& after == (DriverView {
                pending_commit_fix_done: Some(done_message(document)),
                ..before
            })
            &&& action is Hold
        } else {
            &&& after == before
            &&& action matches WorkflowAction::Emit(event) && event@
                == SessionEventView::CommitFixDone(done_message(document))
        }
    } else if tag == Some(CLOSE_ACTION_EVENT@) {
        &&& after == before
        &&& match workflow_event::action_from(document->Object_0) {
            Ok(requested) => action matches WorkflowAction::Ask(event) && event@
                == SessionEventView::CloseAction(requested),
            Err(reason) => is_rejection(action, reason),
        }
    } else if tag == Some(CLOSE_ACTION_OUTCOME_EVENT@) {
        &&& after == before
        &&& match workflow_event::outcome_from(document->Object_0) {
            Ok(outcome) => action matches WorkflowAction::Emit(event) && event@ == (
            SessionEventView::CloseActionOutcome {
                action: outcome.action,
                success: outcome.success,
                reason: outcome.reason,
            }),
            Err(reason) => is_rejection(action, reason),
        }
    } else {
        &&& after == before
        &&& is_rejection(
            action,
            workflow_event::unhandled_reason(
                match tag {
                    Some(tag) => tag,
                    None => "<missing>"@,
                },
            ),
        )
    }
}

/// What becomes of a message on the workflow socket.
pub open spec fn is_message_step(
    before: DriverView,
    message: Seq<u8>,
    after: DriverView,
    action: WorkflowAction,
) -> bool {
    match json::json_document(message) {
        Ok(document) => is_workflow_step(before, document, after, action),
        Err(error) => {
            &&& after == before
            &&& is_rejection(action, "workflow event is not valid JSON: "@ + error)
        },
    }
}

/// The state after a message of the agent.
pub open spec fn after_update(before: DriverView, update: SessionUpdate) -> DriverView {
    let kinds = updates::kinds_after(before.kinds, update);
    if update is Stopped {
        DriverView { turn_active: false, pending_commit_fix_done: None, kinds }
    } else {
        DriverView { kinds, ..before }
    }
}

/// The event that was held back until a message of the agent.
pub open spec fn held_event(before: DriverView, update: SessionUpdate) -> Option<SessionEventView> {
    if update is Stopped {
        match before.pending_commit_fix_done {
            Some(commit_message) => Some(SessionEventView::CommitFixDone(commit_message)),
            None => None,
        }
    } else {
        None
    }
}

fn rejection(reason: String) -> (action: WorkflowAction)
    ensures
        is_rejection(action, reason@),
{
    WorkflowAction::Reject(CommitFixVerdict::Rejected(reason))
}

impl SessionDriver {
    /// A session in which no turn is active.
    pub fn new() -> (driver: Self)
        ensures
            driver@ == (DriverView {
                turn_active: false,
                pending_commit_fix_done: None,
                kinds: Map::empty(),
            }),
            is_consistent(driver@),
    {
        SessionDriver {
            turn_active: false,
            pending_commit_fix_done: None,
            translator: UpdateTranslator::new(),
        }
    }

    /// Whether a turn is active, which is when cancellations are taken.
    pub fn turn_active(&self) -> (active: bool)
        ensures
            active == self@.turn_active,
    {
        self.turn_active
    }

    /// Decides on a prompt, or on the end of prompts.
    pub fn handle_prompt(&mut self, prompt: Option<String>) -> (action: PromptAction)
        requires
            is_consistent(old(self)@),
        ensures
            is_consistent(final(self)@),
            match prompt {
                Some(text) => {
                    &&& action == PromptAction::Send(text)
                    &&& final(self)@ == (DriverView { turn_active: true, ..old(self)@ })
                },
                None => action is Close && final(self)@ == old(self)@,
            },
    {
        match prompt {
            Some(text) => {
                self.turn_active = true;
                PromptAction::Send(text)
            },
            None => PromptAction::Close,
        }
    }

    /// Decides on a message on the confetti socket: only the exact
    /// notification is reported.
    pub fn handle_confetti_message(message: &[u8]) -> (event: Option<SessionEvent>)
        ensures
            event is Some <==> message@ == utf8::encode_utf8("confetti"@ + "\n"@),
            event matches Some(event) ==> event == SessionEvent::Confetti,
    {
        match Confetti::parse(message) {
            Some(_) => Some(SessionEvent::Confetti),
            None => None,
        }
    }

    /// Decides on a message on the workflow socket.
    pub fn handle_workflow_message(&mut self, message: &[u8]) -> (action: WorkflowAction)
        requires
            is_consistent(old(self)@),
        ensures
            is_consistent(final(self)@),
            is_message_step(old(self)@, message@, final(self)@, action),
    {
        match parse_document(message) {
            Ok(document) => self.handle_document(&document),
            Err(error) => {
                let mut reason = "workflow event is not valid JSON: ".to_owned();
                reason.append(error.as_str());
                rejection(reason)
            },
        }
    }

    /// Decides on a document on the workflow socket. A finished commit-fix
    /// session is reported only between turns.
    pub fn handle_document(&mut self, document: &Document) -> (action: WorkflowAction)
        requires
            is_consistent(old(self)@),
        ensures
            is_consistent(final(self)@),
            is_workflow_step(old(self)@, document@, final(self)@, action),
    {
        proof {
            workflow_event::lemma_tags();
        }
        let tag = match document.text("event") {
            Some(tag) => tag,
            None => {
                return rejection(workflow_event::unhandled("<missing>"));
            },
        };
        if same_text(tag.as_str(), COMMIT_FIX_EVENT) {
            match parse_commit_fix_event(document) {
                Ok(request) => WorkflowAction::Ask(SessionEvent::CommitFix(request)),
                Err(reason) => rejection(reason),
            }
        } else if same_text(tag.as_str(), COMMIT_FIX_DONE_EVENT) {
            let commit_message = match document.text("commit_message") {
                Some(text) => text,
                None => {
                    let none = String::new();
                    assert(none@ =~= Seq::<char>::empty());
                    none
                },
            };
            if self.turn_active {
                self.pending_commit_fix_done = Some(commit_message);
                WorkflowAction::Hold
            } else {
                WorkflowAction::Emit(SessionEvent::CommitFixDone { commit_message })
            }
        } else {
            match WorkflowEvent::from_document(document) {
                Ok(WorkflowEvent::CloseAction(request)) => WorkflowAction::Ask(
                    SessionEvent::CloseAction(request.action),
                ),
                Ok(WorkflowEvent::CloseActionOutcome(outcome)) => WorkflowAction::Emit(
                    SessionEvent::CloseActionOutcome {
                        action: outcome.action,
                        success: outcome.success,
                        reason: outcome.reason,
                    },
                ),
                Ok(_) => rejection(workflow_event::unhandled(tag.as_str())),
                Err(reason) => rejection(reason),
            }
        }
    }

    /// Decides on a message of the agent.
    pub fn handle_update(&mut self, update: SessionUpdate) -> (action: UpdateAction)
        requires
            is_consistent(old(self)@),
        ensures
            is_consistent(final(self)@),
            action.turn_stopped == (update is Stopped),
            updates::optional_event(action.event) == updates::translated(old(self)@.kinds, update),
            updates::optional_event(action.held) == held_event(old(self)@, update),
            final(self)@ == after_update(old(self)@, update),
    {
        let turn_stopped = match &update {
            SessionUpdate::Stopped(_) => true,
            _ => false,
        };
        let event = self.translator.handle_update(update);
        let held = if turn_stopped {
            self.turn_active = false;
            match self.pending_commit_fix_done.take() {
                Some(commit_message) => Some(SessionEvent::CommitFixDone { commit_message }),
                None => None,
            }
        } else {
            None
        };
        UpdateAction { turn_stopped, event, held }
    }
}

/// A finished commit-fix session is never reported while a turn is active: it
/// is held back until the turn ends, and reported then.
pub proof fn done_event_waits_for_the_turn(
    before: DriverView,
    document: DocumentView,
    after: DriverView,
    action: WorkflowAction,
    update: SessionUpdate,
)
    requires
        before.turn_active,
        json::text_member(document, "event"@) == Some(COMMIT_FIX_DONE_EVENT@),
        is_workflow_step(before, document, after, action),
    ensures
        action is Hold,
        held_event(after, update) == (if update is Stopped {
            Some(SessionEventView::CommitFixDone(done_message(document)))
        } else {
            None
        }),
        update is Stopped ==> !after_update(after, update).turn_active,
        after_update(after, update).pending_commit_fix_done == (if update is Stopped {
            None
        } else {
            Some(done_message(document))
        }),
{
    workflow_event::lemma_tags();
}

/// A request for a fix session is put to the consumer with every field it was
/// sent with, or rejected where a field is missing; it changes nothing itself.
pub proof fn fix_requests_are_put_or_rejected(
    before: DriverView,
    document: DocumentView,
    after: DriverView,
    action: WorkflowAction,
)
    requires
        json::text_member(document, "event"@) == Some("commit-fix"@),
        is_workflow_step(before, document, after, action),
    ensures
        after == before,
        action is Ask || action is Reject,
        action matches WorkflowAction::Ask(event) ==> (event@ matches SessionEventView::CommitFix(
            request,
        ) && json::text_member(document, "instructions"@) == Some(request.instructions)
            && json::text_member(document, "why"@) == Some(request.why) && json::text_member(
            document,
            "what"@,
        ) == Some(request.what) && json::text_member(document, "tldr"@) == Some(request.tldr)),
        json::text_member(document, "instructions"@) is None ==> action is Reject,
        json::text_member(document, "why"@) is None ==> action is Reject,
        json::text_member(document, "what"@) is None ==> action is Reject,
        json::text_member(document, "tldr"@) is None ==> action is Reject,
{
    commit_fix_event::complete_requests_are_taken_over(document);
}

/// A finished commit-fix session is reported at once, with the message of its
/// commit, where no turn is active.
pub proof fn done_event_is_told_between_turns(
    before: DriverView,
    document: DocumentView,
    after: DriverView,
    action: WorkflowAction,
    commit_message: Seq<char>,
)
    requires
        !before.turn_active,
        json::text_member(document, "event"@) == Some("commit-fix-done"@),
        json::text_member(document, "commit_message"@) == Some(commit_message),
        is_workflow_step(before, document, after, action),
    ensures
        after == before,
        action matches WorkflowAction::Emit(event) && event@ == SessionEventView::CommitFixDone(
            commit_message,
        ),
{
    workflow_event::lemma_tags();
}

/// A message that is held back comes out with the end of the turn, once, with the
/// message of its commit; nothing comes out otherwise.
pub proof fn held_events_come_out_once(before: DriverView, update: SessionUpdate, next: SessionUpdate)
    ensures
        update is Stopped ==> (before.pending_commit_fix_done matches Some(commit_message) ==> (
        held_event(before, update) matches Some(SessionEventView::CommitFixDone(told)) && told
            == commit_message)),
        before.pending_commit_fix_done is None ==> held_event(before, update) is None,
        !(update is Stopped) ==> held_event(before, update) is None && after_update(
            before,
            update,
        ).pending_commit_fix_done == before.pending_commit_fix_done && after_update(
            before,
            update,
        ).turn_active == before.turn_active,
        update is Stopped ==> held_event(after_update(before, update), next) is None,
        update is Stopped ==> !after_update(before, update).turn_active,
{
}

/// A request for a Git action is put to the consumer, and its outcome reported,
/// under the action it names; what cannot be read is rejected. Neither changes
/// anything.
pub proof fn git_actions_are_put_and_reported(
    before: DriverView,
    document: DocumentView,
    after: DriverView,
    action: WorkflowAction,
)
    requires
        is_workflow_step(before, document, after, action),
    ensures
        json::text_member(document, "event"@) == Some("close-action"@) ==> {
            &&& after == before
            &&& action is Ask || action is Reject
            &&& action matches WorkflowAction::Ask(event) ==> (
            event@ matches SessionEventView::CloseAction(asked) && workflow_event::action_from(
                document->Object_0,
            ) == Ok::<CloseAction, Seq<char>>(asked))
        },
        json::text_member(document, "event"@) == Some("close-action-outcome"@) ==> {
            &&& after == before
            &&& action is Emit || action is Reject
            &&& action matches WorkflowAction::Emit(event) ==> (
            event@ matches SessionEventView::CloseActionOutcome { action: told, success, reason }
                && (workflow_event::outcome_from(document->Object_0) matches Ok(outcome)
                && outcome.action == told && outcome.success == success && outcome.reason
                == reason))
        },
{
    workflow_event::lemma_tags();
}

/// What is no event of the workflow is rejected and changes nothing, and so is
/// what is no JSON.
pub proof fn strangers_are_rejected(
    before: DriverView,
    message: Seq<u8>,
    after: DriverView,
    action: WorkflowAction,
)
    requires
        is_message_step(before, message, after, action),
    ensures
        json::json_document(message) is Err ==> after == before && action is Reject,
        json::json_document(message) matches Ok(document) ==> {
            let tag = json::text_member(document, "event"@);
            tag is None || (tag != Some("commit-fix"@) && tag != Some("commit-fix-done"@) && tag
                != Some("close-action"@) && tag != Some("close-action-outcome"@)) ==> after
                == before && action is Reject
        },
{
}

/// What cannot be read is rejected with the reason why, and what carries a tag
/// that nobody knows with the tag.
pub proof fn rejections_tell_why(
    before: DriverView,
    message: Seq<u8>,
    after: DriverView,
    action: WorkflowAction,
)
    requires
        is_message_step(before, message, after, action),
    ensures
        json::json_document(message) matches Err(error) ==> (action matches WorkflowAction::Reject(
            verdict,
        ) && (verdict@ matches ack::VerdictView::Rejected(reason) && search::ends_with(
            reason,
            error,
        ))),
        json::json_document(message) matches Ok(document) ==> (json::text_member(
            document,
            "event"@,
        ) matches Some(tag) ==> (tag != "commit-fix"@ && tag != "commit-fix-done"@ && tag
            != "close-action"@ && tag != "close-action-outcome"@ ==> (
        action matches WorkflowAction::Reject(verdict) && (
        verdict@ matches ack::VerdictView::Rejected(reason) && search::contains(reason, tag))))),
{
    match json::json_document(message) {
        Err(error) => {
            let reason = "workflow event is not valid JSON: "@ + error;
            assert(reason.skip(reason.len() - error.len()) =~= error);
        },
        Ok(document) => {
            if let Some(tag) = json::text_member(document, "event"@) {
                let reason = workflow_event::unhandled_reason(tag);
                let at = "unhandled workflow event '"@.len() as int;
                assert(reason.subrange(at, at + tag.len()) =~= tag);
                search::containing_is_standing_somewhere(reason, tag);
            }
        },
    }
}

} // verus!
