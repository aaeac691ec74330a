//! What an agent sends over the Agent Client Protocol, as plain values.

use vstd::prelude::*;

use crate::bridge::{PermissionOption, StopReason, ToolStatus};
use crate::text::chars;

verus! {

/// A resource that is embedded in content.
#[derive(Debug, Clone, PartialEq, Eq)]
pub enum EmbeddedResource {
    /// The URI of a text.
    Text(String),
    /// The URI of binary data.
    Blob(String),
    Unknown,
}

/// A piece of content.
#[derive(Debug, Clone, PartialEq, Eq)]
pub enum ContentBlock {
    Text(String),
    /// The MIME type of an image.
    Image(String),
    /// The MIME type of a sound.
    Audio(String),
    /// The URI of a resource.
    ResourceLink(String),
    Resource(EmbeddedResource),
    Unknown,
}

/// Content as one string.
pub open spec fn block_text(block: ContentBlock) -> Seq<char> {
    match block {
        ContentBlock::Text(text) => text@,
        ContentBlock::Image(mime_type) => "[Image: "@ + mime_type@ + "]"@,
        ContentBlock::Audio(mime_type) => "[Audio: "@ + mime_type@ + "]"@,
        ContentBlock::ResourceLink(uri) => uri@,
        ContentBlock::Resource(EmbeddedResource::Text(uri)) => uri@,
        ContentBlock::Resource(EmbeddedResource::Blob(uri)) => uri@,
        ContentBlock::Resource(EmbeddedResource::Unknown) => "[Unknown resource type]"@,
        ContentBlock::Unknown => "[Unknown content type]"@,
    }
}

/// What a tool call does.
#[derive(Debug, Clone, Copy, PartialEq, Eq, Structural)]
pub enum ToolKind {
    Read,
    Edit,
    Delete,
    Move,
    Search,
    Execute,
    Think,
    Fetch,
    SwitchMode,
    Other,
}

/// How far a tool call has got.
#[derive(Debug, Clone, Copy, PartialEq, Eq, Structural)]
pub enum ToolCallStatus {
    Pending,
    InProgress,
    Completed,
    Failed,
    Unknown,
}

/// The lifecycle state that a status stands for. One that is not known counts
/// as pending.
pub open spec fn tool_status_of(status: ToolCallStatus) -> ToolStatus {
    match status {
        ToolCallStatus::Pending => ToolStatus::Pending,
        ToolCallStatus::InProgress => ToolStatus::Running,
        ToolCallStatus::Completed => ToolStatus::Done,
        ToolCallStatus::Failed => ToolStatus::Failed,
        ToolCallStatus::Unknown => ToolStatus::Pending,
    }
}

impl ToolCallStatus {
    /// The lifecycle state that the status stands for.
    pub fn tool_status(self) -> (status: ToolStatus)
        ensures
            status == tool_status_of(self),
    {
        match self {
            ToolCallStatus::Pending => ToolStatus::Pending,
            ToolCallStatus::InProgress => ToolStatus::Running,
            ToolCallStatus::Completed => ToolStatus::Done,
            ToolCallStatus::Failed => ToolStatus::Failed,
            ToolCallStatus::Unknown => ToolStatus::Pending,
        }
    }
}

/// A piece of a tool call's result.
#[derive(Debug, Clone, PartialEq, Eq)]
pub enum ToolCallContent {
    Content(ContentBlock),
    /// The path of a file that was changed.
    Diff(String),
    /// The id of a terminal.
    Terminal(String),
    Unknown,
}

/// What a permission option permits.
#[derive(Debug, Clone, Copy, PartialEq, Eq, Structural)]
pub enum PermissionOptionKind {
    AllowOnce,
    AllowAlways,
    RejectOnce,
    RejectAlways,
    Unknown,
}

/// An option of a permission request and what it permits.
#[derive(Debug, Clone, PartialEq, Eq)]
pub struct PermissionChoice {
    pub option_id: String,
    pub kind: PermissionOptionKind,
}

/// What a configuration option is about.
#[derive(Debug, Clone, Copy, PartialEq, Eq, Structural)]
pub enum ConfigCategory {
    Model,
    Other,
}

/// A configuration option. One that is no selector has no value.
#[derive(Debug, Clone, PartialEq, Eq)]
pub struct ConfigOption {
    pub category: Option<ConfigCategory>,
    pub current_value: Option<String>,
}

/// A tool call as it is announced. Raw input and output are JSON texts.
#[derive(Debug)]
pub struct ToolCall {
    pub tool_call_id: String,
    pub title: String,
    pub kind: ToolKind,
    pub status: ToolCallStatus,
    pub content: Vec<ToolCallContent>,
    pub locations: Vec<String>,
    pub raw_input: Option<String>,
    pub raw_output: Option<String>,
}

/// What changed about a tool call. Raw input and output are JSON texts.
#[derive(Debug)]
pub struct ToolCallUpdate {
    pub tool_call_id: String,
    pub title: Option<String>,
    pub kind: Option<ToolKind>,
    pub status: Option<ToolCallStatus>,
    pub content: Option<Vec<ToolCallContent>>,
    pub raw_input: Option<String>,
    pub raw_output: Option<String>,
}

/// A message of the agent within a session.
#[derive(Debug)]
pub enum SessionUpdate {
    AgentMessageChunk(ContentBlock),
    AgentThoughtChunk(ContentBlock),
    ToolCall(ToolCall),
    ToolCallUpdate(ToolCallUpdate),
    ConfigOptionUpdate(Vec<ConfigOption>),
    PermissionRequest { tool_call: ToolCallUpdate, options: Vec<PermissionOption> },
    Stopped(StopReason),
    /// Any other message.
    Other,
}

/// A status tells the same state: a tool call is shown as done or failed exactly
/// where it completed or failed, and as running exactly while it is in progress.
pub proof fn states_follow_the_status(status: ToolCallStatus)
    ensures
        tool_status_of(status) is Done <==> status is Completed,
        tool_status_of(status) is Failed <==> status is Failed,
        tool_status_of(status) is Running <==> status is InProgress,
        tool_status_of(status) is Pending <==> status is Pending || status is Unknown,
{
}

/// Texts and addresses are shown as they are; of an image or a sound only its
/// type is shown, between brackets.
pub proof fn content_is_shown_as_it_is(text: String)
    ensures
        block_text(ContentBlock::Text(text)) == text@,
        block_text(ContentBlock::ResourceLink(text)) == text@,
        block_text(ContentBlock::Resource(EmbeddedResource::Text(text))) == text@,
        block_text(ContentBlock::Resource(EmbeddedResource::Blob(text))) == text@,
        block_text(ContentBlock::Image(text)).len() == text@.len() + 9,
        block_text(ContentBlock::Image(text)).subrange(8, 8int + text@.len()) == text@,
        block_text(ContentBlock::Image(text)).take(8) == "[Image: "@,
        block_text(ContentBlock::Image(text)).last() == ']',
        block_text(ContentBlock::Audio(text)).len() == text@.len() + 9,
        block_text(ContentBlock::Audio(text)).subrange(8, 8int + text@.len()) == text@,
        block_text(ContentBlock::Audio(text)).take(8) == "[Audio: "@,
        block_text(ContentBlock::Audio(text)).last() == ']',
{
    reveal_strlit("[Image: ");
    reveal_strlit("[Audio: ");
    reveal_strlit("]");
    let image = block_text(ContentBlock::Image(text));
    let audio = block_text(ContentBlock::Audio(text));
    assert(image.subrange(8, 8int + text@.len()) =~= text@);
    assert(audio.subrange(8, 8int + text@.len()) =~= text@);
    assert(image.take(8) =~= "[Image: "@);
    assert(audio.take(8) =~= "[Audio: "@);
}

} // verus!
