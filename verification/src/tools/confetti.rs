//! The confetti tool.

use vstd::prelude::*;

use crate::text::search;
use crate::tools::reply;
use crate::tools::reply::{DataView, FailureView, ReplyView, ToolFailure, ToolReply};
use crate::wire::socket;
use crate::wire::socket::bridge_error;

verus! {

/// The answer of the tool, from the error with which its notice was not sent.
pub open spec fn confetti_result(socket: Seq<char>, error: Option<Seq<char>>) -> Result<
    ReplyView,
    FailureView,
> {
    match error {
        Some(error) => Err(
            reply::failed(
                "failed to notify confetti bridge"@,
                socket::unreachable_text(socket, error),
            ),
        ),
        None => Ok(ReplyView::Success("confetti invoked"@)),
    }
}

/// The answer of the tool.
pub fn confetti(socket: &str, error: Option<&str>) -> (result: Result<ToolReply, ToolFailure>)
    ensures
        reply::result_view(result) == confetti_result(
            socket@,
            match error {
                Some(error) => Some(error@),
                None => None,
            },
        ),
{
    match error {
        Some(error) => Err(
            ToolFailure::new(
                "failed to notify confetti bridge",
                bridge_error(socket, error).as_str(),
            ),
        ),
        None => Ok(ToolReply::Success("confetti invoked".to_owned())),
    }
}

/// The tool succeeds exactly where its notice was sent, and tells the socket and
/// the error where it was not.
pub proof fn the_tool_succeeds_where_it_was_heard(socket: Seq<char>, error: Option<Seq<char>>)
    ensures
        confetti_result(socket, error) matches Ok(answer) && answer is Success <==> error is None,
        error matches Some(text) ==> (confetti_result(socket, error) matches Err(failure) && (
        failure.data matches DataView::Reason(reason) && search::contains(reason, socket)
            && search::contains(reason, text))),
{
    if let Some(text) = error {
        socket::failures_name_socket_and_error(socket, text);
    }
}

} // verus!
