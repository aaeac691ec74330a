//! One-shot prompts: what becomes of the agent's messages, and which agent a
//! command line asks for.

use vstd::prelude::*;

use crate::acp;
use crate::acp::{ContentBlock, EmbeddedResource, PermissionChoice, PermissionOptionKind};
use crate::bridge::StopReason;
use crate::text::chars;
use crate::text::search;
use crate::text::search::text_starts_with;
use crate::text::words;
use crate::text::words::trimmed_start;

verus! {

/// Why a prompt could not be run.
#[derive(Debug, PartialEq, Eq)]
pub enum PromptError {
    /// The underlying agent protocol returned an error.
    Agent(String),
}

impl PromptError {
    /// The error in words.
    pub fn message(&self) -> (text: String)
        ensures
            text@ == "agent protocol error: "@ + self->Agent_0@,
    {
        match self {
            PromptError::Agent(error) => {
                let mut text = "agent protocol error: ".to_owned();
                text.append(error.as_str());
                text
            },
        }
    }
}

/// The program that an agent runs as.
#[derive(Debug, PartialEq, Eq)]
pub struct AgentCommand {
    pub command: String,
    pub arguments: Vec<String>,
    pub environment: Vec<(String, String)>,
}

/// An agent's program as texts.
#[verifier::ext_equal]
pub struct AgentView {
    pub command: Seq<char>,
    pub arguments: Seq<Seq<char>>,
    pub environment: Seq<(Seq<char>, Seq<char>)>,
}

impl View for AgentCommand {
    type V = AgentView;

    open spec fn view(&self) -> AgentView {
        AgentView {
            command: self.command@,
            arguments: chars::texts(self.arguments@),
            environment: Seq::new(
                self.environment@.len(),
                |i: int| (self.environment@[i].0@, self.environment@[i].1@),
            ),
        }
    }
}

/// The agent that a configuration text describes, or what is wrong with it.
pub uninterp spec fn agent_of_configuration(text: Seq<char>) -> Result<AgentView, Seq<char>>;

/// Reads a configuration, which `AcpAgent`'s `FromStr` does of a JSON object
/// or a command line.
#[verifier::external_body]
fn configured_agent(text: &str) -> (agent: Result<AgentCommand, String>)
    ensures
        match agent {
            Ok(agent) => agent_of_configuration(text@) == Ok::<AgentView, Seq<char>>(agent@),
            Err(error) => agent_of_configuration(text@) == Err::<AgentView, Seq<char>>(error@),
        },
{
    let agent = text.parse::<agent_client_protocol::AcpAgent>().map_err(|err| err.to_string())?;
    let config = agent.into_config();
    Ok(
        AgentCommand {
            command: config.command().to_string_lossy().into_owned(),
            arguments: config.arguments().to_vec(),
            environment: config.environment().clone().into_iter().collect(),
        },
    )
}

/// The agent that a list of arguments describes, or what is wrong with it.
pub uninterp spec fn agent_of_arguments(arguments: Seq<Seq<char>>) -> Result<AgentView, Seq<char>>;

/// Reads a command and its arguments, which `AcpAgent::from_args` does. Leading
/// arguments of the form `NAME=value` set the environment; where the first
/// holds no `=`, it is the command and the rest are its arguments. No
/// arguments at all are an error.
#[verifier::external_body]
fn listed_agent(arguments: &Vec<String>) -> (agent: Result<AgentCommand, String>)
    ensures
        match agent {
            Ok(agent) => agent_of_arguments(chars::texts(arguments@)) == Ok::<
                AgentView,
                Seq<char>,
            >(agent@),
            Err(error) => agent_of_arguments(chars::texts(arguments@)) == Err::<
                AgentView,
                Seq<char>,
            >(error@),
        },
        arguments@.len() == 0 ==> agent is Err,
        arguments@.len() > 0 && !arguments@[0]@.contains('=') ==> agent is Ok
            && agent->Ok_0@.command == arguments@[0]@ && agent->Ok_0@.arguments == chars::texts(
            arguments@,
        ).skip(1) && agent->Ok_0@.environment.len() == 0,
{
    let config = agent_client_protocol::AcpAgent::from_args(arguments).map_err(
        |err| err.to_string(),
    )?.into_config();
    Ok(
        AgentCommand {
            command: config.command().to_string_lossy().into_owned(),
            arguments: config.arguments().to_vec(),
            environment: config.environment().clone().into_iter().collect(),
        },
    )
}

/// Whether arguments are a configuration: a single one that starts with a
/// brace.
pub open spec fn is_configuration(arguments: Seq<Seq<char>>) -> bool {
    arguments.len() == 1 && search::starts_with(words::trim_start(arguments[0]), "{"@)
}

/// The agent that command-line arguments ask for.
pub open spec fn agent_of(arguments: Seq<Seq<char>>) -> Result<AgentView, Seq<char>> {
    if is_configuration(arguments) {
        agent_of_configuration(arguments[0])
    } else {
        agent_of_arguments(arguments)
    }
}

/// Whether an option lets a tool call proceed.
pub open spec fn is_allowing(choice: PermissionChoice) -> bool {
    choice.kind is AllowOnce || choice.kind is AllowAlways
}

/// Whether an answer is the first option that lets a tool call proceed, or
/// none where there is no such option.
pub open spec fn is_first_allowing(choices: Seq<PermissionChoice>, answer: Option<String>) -> bool {
    match answer {
        Some(id) => exists|i: int|
            0 <= i < choices.len() && is_allowing(#[trigger] choices[i]) && choices[i].option_id@
                == id@ && forall|k: int| 0 <= k < i ==> !is_allowing(#[trigger] choices[k]),
        None => forall|i: int| 0 <= i < choices.len() ==> !is_allowing(#[trigger] choices[i]),
    }
}

/// A message of the agent while a prompt runs.
#[derive(Debug)]
pub enum PromptMessage {
    /// Content of the answer.
    Chunk(ContentBlock),
    /// The options of a permission request.
    Permission(Vec<PermissionChoice>),
    /// The turn ended.
    Stopped(StopReason),
    /// Any other message.
    Other,
}

/// What is to be done about a message.
#[derive(Debug)]
pub enum PromptStep {
    /// Hand the content to the callback.
    Deliver(ContentBlock),
    /// Answer the permission request: an option's id, or nothing to cancel.
    Answer(Option<String>),
    /// The prompt is complete.
    Finish,
    /// Wait for the next message.
    Wait,
}

/// Runs one-shot prompts against agents.
#[derive(Debug, Clone, Copy, PartialEq, Eq, Structural)]
pub struct PromptRunner;

impl PromptRunner {
    /// Converts a `ContentBlock` to its string representation.
    ///
    /// - `Text`: the text content
    /// - `Image`: a placeholder like `[Image: image/png]`
    /// - `Audio`: a placeholder like `[Audio: audio/wav]`
    /// - `ResourceLink`, `Resource`: the URI
    #[must_use]
    pub fn content_block_to_string(block: &ContentBlock) -> (text: String)
        ensures
            text@ == acp::block_text(*block),
    {
        match block {
            ContentBlock::Text(text) => text.clone(),
            ContentBlock::Image(mime_type) => {
                let mut text = "[Image: ".to_owned();
                text.append(mime_type.as_str());
                text.append("]");
                text
            },
            ContentBlock::Audio(mime_type) => {
                let mut text = "[Audio: ".to_owned();
                text.append(mime_type.as_str());
                text.append("]");
                text
            },
            ContentBlock::ResourceLink(uri) => uri.clone(),
            ContentBlock::Resource(EmbeddedResource::Text(uri)) => uri.clone(),
            ContentBlock::Resource(EmbeddedResource::Blob(uri)) => uri.clone(),
            ContentBlock::Resource(EmbeddedResource::Unknown) => {
                "[Unknown resource type]".to_owned()
            },
            ContentBlock::Unknown => "[Unknown content type]".to_owned(),
        }
    }

    /// Decides on a message while a prompt runs: content is delivered, every
    /// permission request is approved where an option allows it, and the
    /// prompt is complete when the turn ends, whatever the reason.
    pub fn handle_message(message: PromptMessage) -> (step: PromptStep)
        ensures
            match message {
                PromptMessage::Chunk(block) => step == PromptStep::Deliver(block),
                PromptMessage::Permission(choices) => step matches PromptStep::Answer(answer)
                    && is_first_allowing(choices@, answer),
                PromptMessage::Stopped(_) => step is Finish,
                PromptMessage::Other => step is Wait,
            },
    {
        match message {
            PromptMessage::Chunk(block) => PromptStep::Deliver(block),
            PromptMessage::Permission(choices) => PromptStep::Answer(Self::approval(&choices)),
            PromptMessage::Stopped(_) => PromptStep::Finish,
            PromptMessage::Other => PromptStep::Wait,
        }
    }

    /// The first option that allows a tool call to proceed.
    pub fn approval(choices: &Vec<PermissionChoice>) -> (answer: Option<String>)
        ensures
            is_first_allowing(choices@, answer),
    {
        let mut i: usize = 0;
        while i < choices.len()
            invariant
                i <= choices.len(),
                forall|k: int| 0 <= k < i ==> !is_allowing(#[trigger] choices@[k]),
            decreases choices.len() - i,
        {
            if choices[i].kind == PermissionOptionKind::AllowOnce || choices[i].kind
                == PermissionOptionKind::AllowAlways {
                assert(is_allowing(choices@[i as int]));
                return Some(choices[i].option_id.clone());
            }
            i = i + 1;
        }
        None
    }

    /// Adds content to the text of an answer.
    pub fn accumulate(answer: &mut String, block: &ContentBlock)
        ensures
            final(answer)@ == old(answer)@ + acp::block_text(*block),
    {
        answer.append(Self::content_block_to_string(block).as_str());
    }

    /// Parses agent command-line arguments.
    ///
    /// A single argument starting with `{` is parsed as a JSON configuration
    /// object; otherwise the arguments are treated as a command and its
    /// arguments.
    pub fn parse_agent_args(agent_args: &Vec<String>) -> (agent: Result<AgentCommand, PromptError>)
        ensures
            match agent {
                Ok(agent) => agent_of(chars::texts(agent_args@)) == Ok::<AgentView, Seq<char>>(
                    agent@,
                ),
                Err(PromptError::Agent(error)) => agent_of(chars::texts(agent_args@)) == Err::<
                    AgentView,
                    Seq<char>,
                >(error@),
            },
            agent_args@.len() == 0 ==> agent is Err,
            agent_args@.len() > 0 && !is_configuration(chars::texts(agent_args@))
                && !agent_args@[0]@.contains('=') ==> agent is Ok && agent->Ok_0@.command
                == agent_args@[0]@ && agent->Ok_0@.arguments == chars::texts(agent_args@).skip(1)
                && agent->Ok_0@.environment.len() == 0,
    {
        assert(chars::texts(agent_args@).len() == agent_args@.len());
        if agent_args.len() == 1 {
            assert(chars::texts(agent_args@)[0] == agent_args@[0]@);
            if text_starts_with(trimmed_start(agent_args[0].as_str()).as_str(), "{") {
                return match configured_agent(agent_args[0].as_str()) {
                    Ok(agent) => Ok(agent),
                    Err(error) => Err(PromptError::Agent(error)),
                };
            }
        }
        match listed_agent(agent_args) {
            Ok(agent) => Ok(agent),
            Err(error) => Err(PromptError::Agent(error)),
        }
    }
}

/// A permission request is never answered with an option that rejects: the
/// answer is the id of an option that allows, and there is none only where no
/// option allows.
pub proof fn only_allowing_options_are_chosen(
    choices: Seq<PermissionChoice>,
    answer: Option<String>,
    index: int,
)
    requires
        is_first_allowing(choices, answer),
        0 <= index < choices.len(),
    ensures
        choices[index].kind is AllowOnce || choices[index].kind is AllowAlways ==> answer is Some,
        answer matches Some(id) ==> exists|i: int|
            0 <= i < choices.len() && (#[trigger] choices[i]).option_id@ == id@ && (
            choices[i].kind is AllowOnce || choices[i].kind is AllowAlways),
        (choices[index].kind is AllowOnce || choices[index].kind is AllowAlways) && (forall|k: int|
            0 <= k < index ==> !((#[trigger] choices[k]).kind is AllowOnce
                || choices[k].kind is AllowAlways)) ==> (answer matches Some(id) && id@
            == choices[index].option_id@),
{
    if choices[index].kind is AllowOnce || choices[index].kind is AllowAlways {
        assert(is_allowing(choices[index]));
    }
    if let Some(id) = answer {
        let i = choose|i: int|
            0 <= i < choices.len() && is_allowing(#[trigger] choices[i]) && choices[i].option_id@
                == id@ && forall|k: int| 0 <= k < i ==> !is_allowing(#[trigger] choices[k]);
        assert(is_allowing(choices[i]));
        if i < index {
            assert(choices[i].kind is AllowOnce || choices[i].kind is AllowAlways);
        }
        if index < i && (choices[index].kind is AllowOnce || choices[index].kind is AllowAlways) {
            assert(!is_allowing(choices[index]));
        }
    }
}

/// Arguments are read as a configuration exactly where there is one argument and
/// it starts with a brace, white space aside.
pub proof fn a_single_brace_is_a_configuration(argument: Seq<char>, more: Seq<Seq<char>>)
    ensures
        argument.len() > 0 && argument[0] == '{' ==> agent_of(seq![argument])
            == agent_of_configuration(argument),
        argument.len() > 0 && argument[0] != '{' && !chars::is_space(argument[0]) ==> agent_of(
            seq![argument],
        ) == agent_of_arguments(seq![argument]),
        more.len() > 0 ==> agent_of(seq![argument] + more) == agent_of_arguments(
            seq![argument] + more,
        ),
        agent_of(Seq::empty()) == agent_of_arguments(Seq::empty()),
{
    reveal_strlit("{");
    assert("{"@ =~= seq!['{']);
    if argument.len() > 0 && argument[0] == '{' {
        assert(argument.take(1) =~= "{"@);
    }
    if argument.len() > 0 {
        assert(argument.take(1)[0] == argument[0]);
    }
}

} // verus!
