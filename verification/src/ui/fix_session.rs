//! Opening a session that fixes a failed commit.

use vstd::prelude::*;
use vstd::utf8;

use crate::bridge::{SessionEvent, SessionEventView, StopReason, StopView};
use crate::chat_log::MessageView;
use crate::json;
use crate::json::{parse_document, Document, DocumentView};
use crate::text::chars;
use crate::text::chars::same_text;
use crate::text::search;
use crate::ui::app::{App, AppView};

verus! {

/// Tool title annotation of `git_commit_with_check`: the trigger for opening a
/// fix session. The tool's own server announces it in the same words.
pub const GIT_COMMIT_WITH_CHECK_TITLE: &'static str = "Git Commit With Check";

/// Workflow name for the fix session opened on a failed
/// `git_commit_with_check`. Shown in the session banner and prompt title.
pub const COMMIT_FIX_WORKFLOW: &'static str = "commit-fix-rust";

/// Fixed first prompt sent to a freshly opened commit-fix session, followed
/// by the `[AUTO: ...]` block carrying the original commit message.
pub const COMMIT_FIX_INSTRUCTIONS: &'static str = "The main session's `git_commit_with_check` failed. You are a fresh session started to fix it. Run `cargo check`, `cargo clippy`, and `cargo test` (or re-invoke `git_commit_with_check` directly) to see the current failure. Fix the underlying issue, not just the symptom. Once check, lint, and test all pass, invoke `git_commit_with_check` again with the same commit message to finish the commit.";

/// The `message` in a document, or nothing.
pub open spec fn message_in(document: Result<DocumentView, Seq<char>>) -> Seq<char> {
    match document {
        Ok(document) => match json::text_member(document, "message"@) {
            Some(message) => message,
            None => Seq::empty(),
        },
        Err(_) => Seq::empty(),
    }
}

/// The commit message in the parameters of a tool call.
pub open spec fn commit_message_in(parameters: Option<Seq<char>>) -> Seq<char> {
    match parameters {
        Some(raw) => message_in(json::json_document(utf8::encode_utf8(raw))),
        None => Seq::empty(),
    }
}

/// The `message` of a document, or an empty text.
pub fn document_message(document: &Document) -> (message: String)
    ensures
        message@ == message_in(Ok(document@)),
{
    match document.text("message") {
        Some(message) => message,
        None => {
            let none = String::new();
            assert(none@ =~= Seq::<char>::empty());
            none
        },
    }
}

/// Extracts the `message` field from a `git_commit_with_check` tool call's
/// JSON parameters. Returns an empty string if parsing fails or the field
/// is absent, rather than failing the whole trigger.
pub fn extract_commit_message(parameters: Option<&str>) -> (message: String)
    ensures
        message@ == commit_message_in(
            match parameters {
                Some(raw) => Some(raw@),
                None => None,
            },
        ),
{
    if let Some(raw) = parameters {
        if let Ok(document) = parse_document(raw.as_bytes()) {
            return document_message(&document);
        }
    }
    let none = String::new();
    assert(none@ =~= Seq::<char>::empty());
    none
}

/// The commit message to fix, if an event is what opens a fix session: the
/// announcement of the tool that commits, while no such session is open.
pub open spec fn commit_to_fix(fix_is_open: bool, event: SessionEventView) -> Option<Seq<char>> {
    match event {
        SessionEventView::ToolCall { title, parameters, .. } => {
            if !fix_is_open && title == GIT_COMMIT_WITH_CHECK_TITLE@ {
                Some(commit_message_in(parameters))
            } else {
                None
            }
        },
        _ => None,
    }
}

/// Whether an event opens a fix session, and for which commit message.
pub fn opens_fix_session(fix_is_open: bool, event: &SessionEvent) -> (message: Option<String>)
    ensures
        chars::optional_text(message) == commit_to_fix(fix_is_open, event@),
{
    match event {
        SessionEvent::ToolCall { title, parameters, .. } => {
            if !fix_is_open && same_text(title.as_str(), GIT_COMMIT_WITH_CHECK_TITLE) {
                match parameters {
                    Some(raw) => Some(extract_commit_message(Some(raw.as_str()))),
                    None => Some(extract_commit_message(None)),
                }
            } else {
                None
            }
        },
        _ => None,
    }
}

/// Whether an event confirms that the main session's turn was cancelled. The
/// fix session is opened no sooner.
pub fn confirms_cancellation(event: &SessionEvent) -> (confirms: bool)
    ensures
        confirms == (event@ == SessionEventView::Stopped(StopView::Cancelled)),
{
    match event {
        SessionEvent::Stopped(reason) => match reason {
            StopReason::Cancelled => true,
            _ => false,
        },
        _ => false,
    }
}

/// The first prompt of a fix session.
pub open spec fn first_prompt(commit_message: Seq<char>) -> Seq<char> {
    COMMIT_FIX_INSTRUCTIONS@ + "\n\n[AUTO: Commit Message from Main Session]\n"@ + commit_message
}

impl App {
    /// Marks in the log that a fix session takes over. The first prompt to
    /// send it.
    pub fn enter_fix_session(&mut self, commit_message: &str) -> (prompt: String)
        requires
            old(self).well_formed(),
        ensures
            final(self).confetti == old(self).confetti,
            final(self).well_formed(),
            prompt@ == first_prompt(commit_message@),
            final(self)@ == (AppView {
                log: old(self)@.log.push(MessageView::SessionTransition(COMMIT_FIX_WORKFLOW@)),
                ..old(self)@
            }),
    {
        self.chat_log.push_session_transition(COMMIT_FIX_WORKFLOW);
        let mut prompt = COMMIT_FIX_INSTRUCTIONS.to_owned();
        prompt.append("\n\n[AUTO: Commit Message from Main Session]\n");
        prompt.append(commit_message);
        prompt
    }
}

/// At most one fix session is opened: while one is open no event asks for
/// another.
pub proof fn one_fix_session_at_a_time(event: SessionEventView)
    ensures
        commit_to_fix(true, event) is None,
{
}

/// A fix session is opened exactly by the announcement of the tool that commits,
/// while none is open, for the commit message that the tool was called with.
pub proof fn the_committing_tool_opens_a_fix_session(event: SessionEventView)
    ensures
        commit_to_fix(false, event) is Some <==> (event matches SessionEventView::ToolCall {
            title,
            ..
        } && title == "Git Commit With Check"@),
        event matches SessionEventView::ToolCall { title, parameters, .. } ==> (title
            == "Git Commit With Check"@ ==> (parameters matches Some(raw) ==> (json::json_document(
            utf8::encode_utf8(raw),
        ) matches Ok(document) ==> (json::text_member(document, "message"@) matches Some(message)
            ==> commit_to_fix(false, event) == Some(message))))),
{
}

/// The first prompt of a fix session ends with the message of the commit, behind
/// the instructions.
pub proof fn the_first_prompt_ends_with_the_message(commit_message: Seq<char>)
    ensures
        search::starts_with(first_prompt(commit_message), COMMIT_FIX_INSTRUCTIONS@),
        search::ends_with(first_prompt(commit_message), seq!['\n'] + commit_message),
        search::ends_with(
            first_prompt(commit_message),
            "[AUTO: Commit Message from Main Session]\n"@ + commit_message,
        ),
{
    reveal_strlit("\n\n[AUTO: Commit Message from Main Session]\n");
    reveal_strlit("[AUTO: Commit Message from Main Session]\n");
    let prompt = first_prompt(commit_message);
    assert(prompt.take(COMMIT_FIX_INSTRUCTIONS@.len() as int) =~= COMMIT_FIX_INSTRUCTIONS@);
    assert(prompt.skip(prompt.len() - (1 + commit_message.len())) =~= seq!['\n'] + commit_message);
    let end = "[AUTO: Commit Message from Main Session]\n"@ + commit_message;
    assert(prompt.skip(prompt.len() - end.len()) =~= end);
}

/// The message of a commit is that of its parameters, and nothing where they hold
/// none.
pub proof fn messages_come_from_the_parameters(raw: Seq<char>)
    ensures
        commit_message_in(None).len() == 0,
        json::json_document(utf8::encode_utf8(raw)) is Err ==> commit_message_in(Some(raw)).len()
            == 0,
        json::json_document(utf8::encode_utf8(raw)) matches Ok(document) ==> {
            &&& json::text_member(document, "message"@) matches Some(message)
                ==> commit_message_in(Some(raw)) == message
            &&& json::text_member(document, "message"@) is None ==> commit_message_in(
                Some(raw),
            ).len() == 0
        },
{
}

} // verus!
