//! What passes between a running interactive session and its consumer.

use vstd::prelude::*;

use crate::text::chars;
use crate::text::number;
use crate::text::number::decimal_text;
use crate::wire::close_action::CloseAction;
use crate::wire::commit_fix::{CommitFixRequest, RequestView};

verus! {

/// Numbers the sessions of a process for lifecycle logging. Unrelated to the
/// agent's own protocol-level session id.
#[derive(Debug)]
pub struct SessionIds {
    next: usize,
}

/// The id of a session.
pub open spec fn session_id(number: nat) -> Seq<char> {
    "session-"@ + number::decimal(number)
}

impl View for SessionIds {
    type V = nat;

    /// The number of the next session.
    closed spec fn view(&self) -> nat {
        self.next as nat
    }
}

impl SessionIds {
    /// Starts counting at one.
    pub fn new() -> (ids: Self)
        ensures
            ids@ == 1,
    {
        SessionIds { next: 1 }
    }

    /// The id of the next session. Counting starts over where the numbers are
    /// used up.
    pub fn next_session_id(&mut self) -> (id: String)
        ensures
            id@ == session_id(old(self)@),
            final(self)@ == (if old(self)@ == usize::MAX {
                0
            } else {
                old(self)@ + 1
            }),
    {
        let mut id = "session-".to_owned();
        id.append(decimal_text(self.next as u64).as_str());
        self.next = if self.next == usize::MAX {
            0
        } else {
            self.next + 1
        };
        id
    }
}

/// Sessions with different numbers have different ids.
pub proof fn session_ids_are_distinct(left: nat, right: nat)
    requires
        left != right,
    ensures
        session_id(left) != session_id(right),
{
    number::lemma_decimal_value(left);
    number::lemma_decimal_value(right);
    let prefix = "session-"@;
    if session_id(left) == session_id(right) {
        assert(session_id(left).skip(prefix.len() as int) =~= number::decimal(left));
        assert(session_id(right).skip(prefix.len() as int) =~= number::decimal(right));
    }
}

/// Lifecycle state of a tool call as reported by the agent.
#[derive(Debug, Clone, Copy, PartialEq, Eq, Structural)]
pub enum ToolStatus {
    Pending,
    Running,
    Done,
    Failed,
}

/// A choice offered to the user when the agent requests permission.
#[derive(Debug, Clone, PartialEq, Eq)]
pub struct PermissionOption {
    pub id: String,
    pub label: String,
}

/// The ids and labels of options.
pub open spec fn option_texts(options: Seq<PermissionOption>) -> Seq<(Seq<char>, Seq<char>)> {
    Seq::new(options.len(), |i: int| (options[i].id@, options[i].label@))
}

/// Why the agent's turn ended.
#[derive(Debug, Clone, PartialEq, Eq)]
pub enum StopReason {
    EndTurn,
    Cancelled,
    MaxTokens,
    MaxTurnRequests,
    Refusal,
    /// Debug text of a future variant not yet known to this crate.
    Other(String),
}

/// A stop reason as text.
pub enum StopView {
    EndTurn,
    Cancelled,
    MaxTokens,
    MaxTurnRequests,
    Refusal,
    Other(Seq<char>),
}

impl View for StopReason {
    type V = StopView;

    open spec fn view(&self) -> StopView {
        match *self {
            StopReason::EndTurn => StopView::EndTurn,
            StopReason::Cancelled => StopView::Cancelled,
            StopReason::MaxTokens => StopView::MaxTokens,
            StopReason::MaxTurnRequests => StopView::MaxTurnRequests,
            StopReason::Refusal => StopView::Refusal,
            StopReason::Other(text) => StopView::Other(text@),
        }
    }
}

/// Events emitted from an interactive session to a UI layer. Whoever awaits an
/// answer to one is held by the channel that carries it.
#[derive(Debug)]
pub enum SessionEvent {
    /// A chunk of agent message content.
    Chunk(String),
    /// A chunk of the agent's internal reasoning.
    Thought(String),
    /// A new tool call has been initiated.
    ToolCall {
        id: String,
        title: String,
        status: ToolStatus,
        parameters: Option<String>,
        result: Option<String>,
    },
    /// A status or content update for an existing tool call.
    ToolCallUpdate {
        id: String,
        status: Option<ToolStatus>,
        parameters: Option<String>,
        result: Option<String>,
    },
    /// The agent reported a new active model.
    ModelChanged(String),
    /// The agent requests permission to proceed with a tool call.
    ///
    /// `tool_call_id` links the request to the tool call announced before, so
    /// the UI can look up the exact tool name; `title` names the specific call
    /// and `parameters` carries the raw input for display. The answer is the
    /// id of an option, or nothing to cancel.
    PermissionRequest {
        tool_call_id: String,
        title: String,
        parameters: Option<String>,
        options: Vec<PermissionOption>,
    },
    /// The commit workflow requested a dedicated fix session. Every request
    /// must be answered exactly once.
    CommitFix(CommitFixRequest),
    /// A prompt was automatically sent by the workflow manager.
    AutoPrompt(String),
    /// The fix session committed its changes, closing the commit-fix workflow.
    CommitFixDone { commit_message: String },
    /// The fix session's close server requests authorization for a Git action
    /// (staging or committing) before it runs. Every request must be answered
    /// exactly once.
    CloseAction(CloseAction),
    /// The fix session's close server reports that a previously authorized Git
    /// action has run, releasing the one-attempt-at-a-time gate. Not sent for
    /// a successful commit: `CommitFixDone` already reports that.
    CloseActionOutcome { action: CloseAction, success: bool, reason: Option<String> },
    /// The confetti tool was invoked successfully.
    Confetti,
    /// The current turn ended with the given reason. The session stays open
    /// for further prompts.
    Stopped(StopReason),
    /// The session task ended because of an error.
    Error(String),
}

/// An event as texts.
#[verifier::ext_equal]
pub enum SessionEventView {
    Chunk(Seq<char>),
    Thought(Seq<char>),
    ToolCall {
        id: Seq<char>,
        title: Seq<char>,
        status: ToolStatus,
        parameters: Option<Seq<char>>,
        result: Option<Seq<char>>,
    },
    ToolCallUpdate {
        id: Seq<char>,
        status: Option<ToolStatus>,
        parameters: Option<Seq<char>>,
        result: Option<Seq<char>>,
    },
    ModelChanged(Seq<char>),
    PermissionRequest {
        tool_call_id: Seq<char>,
        title: Seq<char>,
        parameters: Option<Seq<char>>,
        options: Seq<(Seq<char>, Seq<char>)>,
    },
    CommitFix(RequestView),
    AutoPrompt(Seq<char>),
    CommitFixDone(Seq<char>),
    CloseAction(CloseAction),
    CloseActionOutcome { action: CloseAction, success: bool, reason: Option<Seq<char>> },
    Confetti,
    Stopped(StopView),
    Error(Seq<char>),
}

impl View for SessionEvent {
    type V = SessionEventView;

    open spec fn view(&self) -> SessionEventView {
        match *self {
            SessionEvent::Chunk(text) => SessionEventView::Chunk(text@),
            SessionEvent::Thought(text) => SessionEventView::Thought(text@),
            SessionEvent::ToolCall { id, title, status, parameters, result } => {
                SessionEventView::ToolCall {
                    id: id@,
                    title: title@,
                    status,
                    parameters: chars::optional_text(parameters),
                    result: chars::optional_text(result),
                }
            },
            SessionEvent::ToolCallUpdate { id, status, parameters, result } => {
                SessionEventView::ToolCallUpdate {
                    id: id@,
                    status,
                    parameters: chars::optional_text(parameters),
                    result: chars::optional_text(result),
                }
            },
            SessionEvent::ModelChanged(model) => SessionEventView::ModelChanged(model@),
            SessionEvent::PermissionRequest { tool_call_id, title, parameters, options } => {
                SessionEventView::PermissionRequest {
                    tool_call_id: tool_call_id@,
                    title: title@,
                    parameters: chars::optional_text(parameters),
                    options: option_texts(options@),
                }
            },
            SessionEvent::CommitFix(request) => SessionEventView::CommitFix(request@),
            SessionEvent::AutoPrompt(prompt) => SessionEventView::AutoPrompt(prompt@),
            SessionEvent::CommitFixDone { commit_message } => SessionEventView::CommitFixDone(
                commit_message@,
            ),
            SessionEvent::CloseAction(action) => SessionEventView::CloseAction(action),
            SessionEvent::CloseActionOutcome { action, success, reason } => {
                SessionEventView::CloseActionOutcome {
                    action,
                    success,
                    reason: chars::optional_text(reason),
                }
            },
            SessionEvent::Confetti => SessionEventView::Confetti,
            SessionEvent::Stopped(reason) => SessionEventView::Stopped(reason@),
            SessionEvent::Error(error) => SessionEventView::Error(error@),
        }
    }
}

/// Returned where a prompt is sent to a session whose task has already ended.
#[derive(Debug, Clone, Copy, PartialEq, Eq, Structural)]
pub struct SessionClosed;

impl SessionClosed {
    /// The error in words.
    pub fn message(&self) -> (text: &'static str)
        ensures
            text@ == "interactive session task has ended"@,
    {
        "interactive session task has ended"
    }
}

/// The id of a session tells its number.
pub proof fn session_ids_tell_their_number(number: nat)
    ensures
        session_id(number).take(8) == "session-"@,
        number::value_of(session_id(number).skip(8)) == number,
{
    reveal_strlit("session-");
    number::lemma_decimal_value(number);
    assert(session_id(number).take(8) =~= "session-"@);
    assert(session_id(number).skip(8) =~= number::decimal(number));
}

/// Options keep their order, their ids and their labels.
pub proof fn options_keep_their_order(options: Seq<PermissionOption>, index: int)
    requires
        0 <= index < options.len(),
    ensures
        option_texts(options).len() == options.len(),
        option_texts(options)[index] == (options[index].id@, options[index].label@),
{
}

} // verus!
