//! Turning the agent's messages into session events.

use vstd::prelude::*;

use super::tool_call;
use super::tool_call::{model_from_config_options, permission_request_details, tool_call_result, tool_call_target, tool_call_title};
use crate::acp;
use crate::acp::{ContentBlock, SessionUpdate, ToolCall, ToolCallContent, ToolCallStatus, ToolCallUpdate, ToolKind};
use crate::bridge;
use crate::bridge::{PermissionOption, SessionEvent, SessionEventView, StopReason, ToolStatus};
use crate::prompt::PromptRunner;
use crate::text::chars;
use crate::text::search;
use crate::text::text_map::TextMap;

verus! {

/// Turns the agent's messages into session events. Remembers the kinds of
/// announced but not yet settled tool calls, so that results are shown by kind
/// even where an update doesn't repeat it.
#[derive(Debug)]
pub struct UpdateTranslator {
    kinds: TextMap<ToolKind>,
}

impl View for UpdateTranslator {
    type V = Map<Seq<char>, ToolKind>;

    /// The kinds of the tool calls that are not settled.
    closed spec fn view(&self) -> Map<Seq<char>, ToolKind> {
        self.kinds@
    }
}

/// The event that announces a tool call.
pub open spec fn announced(call: ToolCall) -> SessionEventView {
    let input = chars::optional_text(call.raw_input);
    let target = tool_call::target_of(call.kind, chars::texts(call.locations@), input);
    SessionEventView::ToolCall {
        id: call.tool_call_id@,
        title: tool_call::full_title(call.kind, call.title@, target),
        status: acp::tool_status_of(call.status),
        parameters: input,
        result: tool_call::result_of(
            Some(call.kind),
            Some(call.status),
            call.content@,
            chars::optional_text(call.raw_output),
        ),
    }
}

/// The kind of the tool call that an update is about, where it is known.
pub open spec fn kind_of_update(
    kinds: Map<Seq<char>, ToolKind>,
    update: ToolCallUpdate,
) -> Option<ToolKind> {
    match update.kind {
        Some(kind) => Some(kind),
        None => if kinds.dom().contains(update.tool_call_id@) {
            Some(kinds[update.tool_call_id@])
        } else {
            None
        },
    }
}

/// The content of an update.
pub open spec fn content_of_update(update: ToolCallUpdate) -> Seq<ToolCallContent> {
    match update.content {
        Some(content) => content@,
        None => Seq::empty(),
    }
}

/// The event that reports a change of a tool call.
pub open spec fn changed(
    kinds: Map<Seq<char>, ToolKind>,
    update: ToolCallUpdate,
) -> SessionEventView {
    SessionEventView::ToolCallUpdate {
        id: update.tool_call_id@,
        status: match update.status {
            Some(status) => Some(acp::tool_status_of(status)),
            None => None,
        },
        parameters: chars::optional_text(update.raw_input),
        result: tool_call::result_of(
            kind_of_update(kinds, update),
            update.status,
            content_of_update(update),
            chars::optional_text(update.raw_output),
        ),
    }
}

/// Whether a tool call is settled with a status.
pub open spec fn is_settled(status: Option<ToolCallStatus>) -> bool {
    status == Some(ToolCallStatus::Completed) || status == Some(ToolCallStatus::Failed)
}

/// The event that a message becomes, where it becomes one.
pub open spec fn translated(
    kinds: Map<Seq<char>, ToolKind>,
    update: SessionUpdate,
) -> Option<SessionEventView> {
    match update {
        SessionUpdate::AgentMessageChunk(block) => Some(
            SessionEventView::Chunk(acp::block_text(block)),
        ),
        SessionUpdate::AgentThoughtChunk(block) => Some(
            SessionEventView::Thought(acp::block_text(block)),
        ),
        SessionUpdate::ToolCall(call) => Some(announced(call)),
        SessionUpdate::ToolCallUpdate(update) => Some(changed(kinds, update)),
        SessionUpdate::ConfigOptionUpdate(options) => match tool_call::selected_model(options@) {
            Some(model) => Some(SessionEventView::ModelChanged(model)),
            None => None,
        },
        SessionUpdate::PermissionRequest { tool_call, options } => Some(
            SessionEventView::PermissionRequest {
                tool_call_id: tool_call.tool_call_id@,
                title: match tool_call.title {
                    Some(title) => title@,
                    None => "Tool call"@,
                },
                parameters: chars::optional_text(tool_call.raw_input),
                options: bridge::option_texts(options@),
            },
        ),
        SessionUpdate::Stopped(reason) => Some(SessionEventView::Stopped(reason@)),
        SessionUpdate::Other => None,
    }
}

/// The kinds that are remembered after a message.
pub open spec fn kinds_after(
    kinds: Map<Seq<char>, ToolKind>,
    update: SessionUpdate,
) -> Map<Seq<char>, ToolKind> {
    match update {
        SessionUpdate::ToolCall(call) => kinds.insert(call.tool_call_id@, call.kind),
        SessionUpdate::ToolCallUpdate(update) => if is_settled(update.status) {
            kinds.remove(update.tool_call_id@)
        } else {
            kinds
        },
        _ => kinds,
    }
}

/// The view of an optional event.
pub open spec fn optional_event(event: Option<SessionEvent>) -> Option<SessionEventView> {
    match event {
        Some(event) => Some(event@),
        None => None,
    }
}

impl UpdateTranslator {
    /// Starts without tool calls.
    pub fn new() -> (translator: Self)
        ensures
            translator@ == Map::<Seq<char>, ToolKind>::empty(),
    {
        UpdateTranslator { kinds: TextMap::new() }
    }

    /// Turns one message into the event to report, if there is one. A change
    /// of the turn's state is the caller's.
    pub fn handle_update(&mut self, update: SessionUpdate) -> (event: Option<SessionEvent>)
        ensures
            optional_event(event) == translated(old(self)@, update),
            final(self)@ == kinds_after(old(self)@, update),
    {
        match update {
            SessionUpdate::AgentMessageChunk(block) => Some(
                SessionEvent::Chunk(PromptRunner::content_block_to_string(&block)),
            ),
            SessionUpdate::AgentThoughtChunk(block) => Some(
                SessionEvent::Thought(PromptRunner::content_block_to_string(&block)),
            ),
            SessionUpdate::ToolCall(call) => Some(self.announce(call)),
            SessionUpdate::ToolCallUpdate(update) => Some(self.change(update)),
            SessionUpdate::ConfigOptionUpdate(options) => match model_from_config_options(
                &options,
            ) {
                Some(model) => Some(SessionEvent::ModelChanged(model)),
                None => None,
            },
            SessionUpdate::PermissionRequest { tool_call, options } => {
                let (title, parameters) = permission_request_details(
                    tool_call.title,
                    tool_call.raw_input,
                );
                Some(
                    SessionEvent::PermissionRequest {
                        tool_call_id: tool_call.tool_call_id,
                        title,
                        parameters,
                        options,
                    },
                )
            },
            SessionUpdate::Stopped(reason) => Some(SessionEvent::Stopped(reason)),
            SessionUpdate::Other => None,
        }
    }

    fn announce(&mut self, call: ToolCall) -> (event: SessionEvent)
        ensures
            event@ == announced(call),
            final(self)@ == old(self)@.insert(call.tool_call_id@, call.kind),
    {
        self.kinds.insert(call.tool_call_id.clone(), call.kind);
        let target = tool_call_target(call.kind, &call.locations, call.raw_input.as_ref());
        let title = tool_call_title(call.kind, call.title, target.as_ref());
        let result = tool_call_result(
            Some(call.kind),
            Some(call.status),
            &call.content,
            call.raw_output.as_ref(),
        );
        SessionEvent::ToolCall {
            id: call.tool_call_id,
            title,
            status: call.status.tool_status(),
            parameters: call.raw_input,
            result,
        }
    }

    fn change(&mut self, update: ToolCallUpdate) -> (event: SessionEvent)
        ensures
            event@ == changed(old(self)@, update),
            final(self)@ == (if is_settled(update.status) {
                old(self)@.remove(update.tool_call_id@)
            } else {
                old(self)@
            }),
    {
        let kind = match update.kind {
            Some(kind) => Some(kind),
            None => self.kinds.get(update.tool_call_id.as_str()),
        };
        let content = match update.content {
            Some(content) => content,
            None => {
                let none: Vec<ToolCallContent> = Vec::new();
                none
            },
        };
        let result = tool_call_result(kind, update.status, &content, update.raw_output.as_ref());
        let settled = match update.status {
            Some(ToolCallStatus::Completed) => true,
            Some(ToolCallStatus::Failed) => true,
            _ => false,
        };
        if settled {
            self.kinds.remove(update.tool_call_id.as_str());
        }
        let status: Option<ToolStatus> = match update.status {
            Some(status) => Some(status.tool_status()),
            None => None,
        };
        SessionEvent::ToolCallUpdate {
            id: update.tool_call_id,
            status,
            parameters: update.raw_input,
            result,
        }
    }
}

/// The kind of an announced tool call is known to its updates until one of
/// them settles it, whatever happens to other calls.
pub proof fn kind_is_known_until_settled(
    kinds: Map<Seq<char>, ToolKind>,
    call: ToolCall,
    between: SessionUpdate,
    update: ToolCallUpdate,
)
    requires
        update.tool_call_id@ == call.tool_call_id@,
        update.kind is None,
        match between {
            SessionUpdate::ToolCall(other) => other.tool_call_id@ != call.tool_call_id@,
            SessionUpdate::ToolCallUpdate(other) => other.tool_call_id@ != call.tool_call_id@
                || !is_settled(other.status),
            _ => true,
        },
    ensures
        kind_of_update(
            kinds_after(kinds_after(kinds, SessionUpdate::ToolCall(call)), between),
            update,
        ) == Some(call.kind),
{
}

/// An announced tool call is reported under its own id, with its title, its
/// state, what it was called with and what it came to.
pub proof fn announcements_tell_the_call(kinds: Map<Seq<char>, ToolKind>, call: ToolCall)
    ensures
        translated(kinds, SessionUpdate::ToolCall(call)) matches Some(
            SessionEventView::ToolCall { id, title, status, parameters, result },
        ) && id == call.tool_call_id@ && search::contains(title, call.title@) && status
            == acp::tool_status_of(call.status) && parameters == chars::optional_text(
            call.raw_input,
        ) && result == tool_call::result_of(
            Some(call.kind),
            Some(call.status),
            call.content@,
            chars::optional_text(call.raw_output),
        ),
{
    let target = tool_call::target_of(
        call.kind,
        chars::texts(call.locations@),
        chars::optional_text(call.raw_input),
    );
    tool_call::titles_keep_the_title(call.kind, call.title@, target);
}

/// A change is reported under the id of its tool call, with the state and the
/// input it brings, where it brings any; and its result is read by the kind of
/// the call, which the update itself tells or the announcement did.
pub proof fn changes_tell_the_call(kinds: Map<Seq<char>, ToolKind>, update: ToolCallUpdate)
    ensures
        translated(kinds, SessionUpdate::ToolCallUpdate(update)) matches Some(
            SessionEventView::ToolCallUpdate { id, status, parameters, result },
        ) && id == update.tool_call_id@ && (status is Some <==> update.status is Some) && (
        update.status matches Some(brought) ==> status == Some(acp::tool_status_of(brought)))
            && parameters == chars::optional_text(update.raw_input) && (update.content matches Some(
            content,
        ) ==> result == tool_call::result_of(
            match update.kind {
                Some(kind) => Some(kind),
                None => kinds.get(update.tool_call_id@),
            },
            update.status,
            content@,
            chars::optional_text(update.raw_output),
        )) && (update.content is None && update.raw_output is None ==> result is None),
{
}

/// What the agent says and what it thinks are reported apart, word for word.
pub proof fn speech_and_thoughts_are_told_apart(
    kinds: Map<Seq<char>, ToolKind>,
    block: ContentBlock,
)
    ensures
        translated(kinds, SessionUpdate::AgentMessageChunk(block)) == Some(
            SessionEventView::Chunk(acp::block_text(block)),
        ),
        translated(kinds, SessionUpdate::AgentThoughtChunk(block)) == Some(
            SessionEventView::Thought(acp::block_text(block)),
        ),
{
}

/// A permission request is reported for the tool call it is about, with every
/// option that it offers, in order.
pub proof fn permission_requests_offer_every_option(
    kinds: Map<Seq<char>, ToolKind>,
    call: ToolCallUpdate,
    offered: Vec<PermissionOption>,
)
    ensures
        translated(
            kinds,
            SessionUpdate::PermissionRequest { tool_call: call, options: offered },
        ) matches Some(
            SessionEventView::PermissionRequest { tool_call_id, title, parameters, options },
        ) && tool_call_id == call.tool_call_id@ && parameters == chars::optional_text(
            call.raw_input,
        ) && (call.title matches Some(named) ==> title == named@) && options.len()
            == offered@.len() && (forall|i: int|
            0 <= i < options.len() ==> #[trigger] options[i] == (
                offered@[i].id@,
                offered@[i].label@,
            )),
{
}

/// The end of a turn is reported with its reason, and no message of another kind
/// is reported at all.
pub proof fn the_end_of_a_turn_is_told(kinds: Map<Seq<char>, ToolKind>, reason: StopReason)
    ensures
        translated(kinds, SessionUpdate::Stopped(reason)) == Some(
            SessionEventView::Stopped(reason@),
        ),
        translated(kinds, SessionUpdate::Other) is None,
{
}

/// The kind of a call is remembered from its announcement until a change settles
/// it, and forgotten then; no message touches the kinds of other calls.
pub proof fn kinds_are_kept_while_needed(
    kinds: Map<Seq<char>, ToolKind>,
    call: ToolCall,
    update: ToolCallUpdate,
    other: Seq<char>,
)
    ensures
        kinds_after(kinds, SessionUpdate::ToolCall(call)).contains_pair(
            call.tool_call_id@,
            call.kind,
        ),
        other != call.tool_call_id@ ==> kinds_after(kinds, SessionUpdate::ToolCall(call)).get(other)
            == kinds.get(other),
        update.status == Some(ToolCallStatus::Completed) || update.status == Some(
            ToolCallStatus::Failed,
        ) ==> !kinds_after(kinds, SessionUpdate::ToolCallUpdate(update)).dom().contains(
            update.tool_call_id@,
        ),
        update.status is None || update.status == Some(ToolCallStatus::InProgress) || update.status
            == Some(ToolCallStatus::Pending) ==> kinds_after(
            kinds,
            SessionUpdate::ToolCallUpdate(update),
        ) == kinds,
        other != update.tool_call_id@ ==> kinds_after(
            kinds,
            SessionUpdate::ToolCallUpdate(update),
        ).get(other) == kinds.get(other),
{
}

} // verus!
