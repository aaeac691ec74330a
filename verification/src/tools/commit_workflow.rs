//! The tool that asks for a fix session with a commit message.

use vstd::prelude::*;

use crate::json;
use crate::json::{object_line, Field, FieldView};
use crate::tools::reply;
use crate::tools::reply::{DataView, FailureView, ReplyView, ToolFailure, ToolReply};
use crate::wire::commit_fix::COMMIT_FIX_EVENT;

verus! {

/// What the fix session is told to do.
pub const COMMIT_FIX_INSTRUCTIONS: &'static str = "The main session requested a commit-fix session. Investigate the current problem, fix the underlying issue, run the provided check, lint, and test tools, and commit the resulting changes with the supplied commit message using the available Git tools.";

/// The members of the event.
pub open spec fn event_members(commit_message: Seq<char>) -> Seq<(Seq<char>, FieldView)> {
    seq![
        ("event"@, FieldView::Text(COMMIT_FIX_EVENT@)),
        ("instructions"@, FieldView::Text(COMMIT_FIX_INSTRUCTIONS@)),
        ("commit_message"@, FieldView::Text(commit_message)),
    ]
}

/// The event that asks for a fix session, as one JSON line.
pub fn commit_fix_event(commit_message: &str) -> (line: String)
    ensures
        line@ == json::object_text(event_members(commit_message@)),
{
    let mut fields: Vec<(&str, Field)> = Vec::new();
    fields.push(("event", Field::Text(COMMIT_FIX_EVENT.to_owned())));
    fields.push(("instructions", Field::Text(COMMIT_FIX_INSTRUCTIONS.to_owned())));
    fields.push(("commit_message", Field::Text(commit_message.to_owned())));
    assert(json::member_views(fields@) =~= event_members(commit_message@));
    object_line(&fields)
}

/// The answer of the tool, from the error with which its event was not sent.
pub open spec fn request_result(error: Option<Seq<char>>) -> Result<ReplyView, FailureView> {
    match error {
        Some(error) => Err(reply::failed("failed to notify commit-fix bridge"@, error)),
        None => Ok(ReplyView::Success("commit-fix session requested"@)),
    }
}

/// The answer of the tool.
pub fn git_commit_with_check(error: Option<&str>) -> (result: Result<ToolReply, ToolFailure>)
    ensures
        reply::result_view(result) == request_result(
            match error {
                Some(error) => Some(error@),
                None => None,
            },
        ),
{
    match error {
        Some(error) => Err(ToolFailure::new("failed to notify commit-fix bridge", error)),
        None => Ok(ToolReply::Success("commit-fix session requested".to_owned())),
    }
}

/// The event asks for a fix session with the commit message it was called with.
pub proof fn the_event_carries_the_message(commit_message: Seq<char>)
    ensures
        event_members(commit_message).contains(
            ("commit_message"@, FieldView::Text(commit_message)),
        ),
        event_members(commit_message)[0] == ("event"@, FieldView::Text("commit-fix"@)),
        event_members(commit_message).contains(
            ("instructions"@, FieldView::Text(COMMIT_FIX_INSTRUCTIONS@)),
        ),
{
    let all = event_members(commit_message);
    assert(all[2] == ("commit_message"@, FieldView::Text(commit_message)));
    assert(all[1] == ("instructions"@, FieldView::Text(COMMIT_FIX_INSTRUCTIONS@)));
}

/// The tool succeeds exactly where its event was sent, and tells the error where
/// it was not.
pub proof fn the_tool_succeeds_where_it_was_heard(error: Option<Seq<char>>)
    ensures
        request_result(error) matches Ok(answer) && answer is Success <==> error is None,
        error matches Some(text) ==> (request_result(error) matches Err(failure) && failure.data
            == DataView::Reason(text)),
{
}

} // verus!
