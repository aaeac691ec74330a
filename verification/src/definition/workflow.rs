//! A workflow from its definition to its completion.

use std::marker::PhantomData;

use vstd::prelude::*;

use crate::definition::completion_tool::CompletionTool;
use crate::definition::tool::{Tool, ToolResult, ToolSet};
use crate::text::chars::same_text;

verus! {

/// What a workflow is called, the tools it offers, and the one that completes
/// it.
#[derive(Debug, Clone, PartialEq, Eq)]
pub struct WorkflowDefinition {
    name: String,
    tools: ToolSet,
    completion_tool: Option<CompletionTool>,
}

/// A definition as texts.
#[verifier::ext_equal]
pub struct DefinitionView {
    pub name: Seq<char>,
    pub tools: Seq<Seq<char>>,
    pub completion_tool: Option<Seq<char>>,
}

impl View for WorkflowDefinition {
    type V = DefinitionView;

    closed spec fn view(&self) -> DefinitionView {
        DefinitionView {
            name: self.name@,
            tools: self.tools@,
            completion_tool: match self.completion_tool {
                Some(tool) => Some(tool@),
                None => None,
            },
        }
    }
}

impl WorkflowDefinition {
    /// A workflow without tools, which nothing completes.
    pub fn new(name: &str) -> (definition: Self)
        ensures
            definition@ == (DefinitionView {
                name: name@,
                tools: Seq::empty(),
                completion_tool: None,
            }),
    {
        WorkflowDefinition { name: name.to_owned(), tools: ToolSet::default(), completion_tool: None }
    }

    /// The workflow with other tools.
    pub fn with_tools(self, tools: ToolSet) -> (definition: Self)
        ensures
            definition@ == (DefinitionView { tools: tools@, ..self@ }),
    {
        WorkflowDefinition { name: self.name, tools, completion_tool: self.completion_tool }
    }

    /// The workflow completed by the success of a tool.
    pub fn completes_on_successful_tool(self, tool: Tool) -> (definition: Self)
        ensures
            definition@ == (DefinitionView { completion_tool: Some(tool@), ..self@ }),
    {
        WorkflowDefinition {
            name: self.name,
            tools: self.tools,
            completion_tool: Some(CompletionTool::from(tool)),
        }
    }

    /// The name of the workflow.
    pub fn name(&self) -> (name: &str)
        ensures
            name@ == self@.name,
    {
        self.name.as_str()
    }

    /// The tools that the workflow offers.
    pub fn tools(&self) -> (tools: &ToolSet)
        ensures
            tools@ == self@.tools,
    {
        &self.tools
    }
}

/// Why a workflow is complete.
#[derive(Debug, Clone, PartialEq, Eq)]
pub enum CompletionReason {
    ToolSucceeded { tool: CompletionTool },
}

/// The name of the tool that completed a workflow.
pub open spec fn completed_by(reason: Option<CompletionReason>) -> Option<Seq<char>> {
    match reason {
        Some(CompletionReason::ToolSucceeded { tool }) => Some(tool@),
        None => None,
    }
}

/// A workflow that has not started.
#[derive(Debug)]
pub struct Defined;

/// A workflow that runs.
#[derive(Debug)]
pub struct Running;

/// A workflow that is complete.
#[derive(Debug)]
pub struct Completed;

/// A workflow in some state.
#[derive(Debug)]
pub struct Workflow<S> {
    definition: WorkflowDefinition,
    completion_reason: Option<CompletionReason>,
    state: PhantomData<S>,
}

impl<S> View for Workflow<S> {
    type V = (DefinitionView, Option<Seq<char>>);

    /// The definition, and the name of the tool that completed the workflow.
    closed spec fn view(&self) -> (DefinitionView, Option<Seq<char>>) {
        (self.definition@, completed_by(self.completion_reason))
    }
}

/// Whether the result of a tool completes a workflow.
pub open spec fn is_completed_by(definition: DefinitionView, result: (Seq<char>, bool)) -> bool {
    result.1 && definition.completion_tool == Some(result.0)
}

impl Workflow<Defined> {
    /// A workflow that has not started.
    pub fn new(definition: WorkflowDefinition) -> (workflow: Self)
        ensures
            workflow@ == (definition@, None::<Seq<char>>),
    {
        Workflow { definition, completion_reason: None, state: PhantomData }
    }

    /// Starts the workflow.
    pub fn start(self) -> (running: Workflow<Running>)
        ensures
            running@ == (self@.0, None::<Seq<char>>),
    {
        Workflow { definition: self.definition, completion_reason: None, state: PhantomData }
    }
}

impl Workflow<Running> {
    /// Takes the result of a tool. The success of the tool that completes the
    /// workflow does so; with any other result it keeps running.
    pub fn handle_tool_result(self, result: &ToolResult) -> (next: Result<
        Workflow<Completed>,
        Workflow<Running>,
    >)
        ensures
            match next {
                Ok(completed) => is_completed_by(self@.0, result@) && completed@ == (
                    self@.0,
                    Some(result@.0),
                ),
                Err(running) => !is_completed_by(self@.0, result@) && running == self,
            },
    {
        let should_complete = result.is_success() && match &self.definition.completion_tool {
            Some(tool) => same_text(tool.name(), result.tool().name()),
            None => false,
        };
        if !should_complete {
            return Err(self);
        }
        Ok(
            Workflow {
                definition: self.definition,
                completion_reason: Some(
                    CompletionReason::ToolSucceeded {
                        tool: CompletionTool::from(result.tool().clone()),
                    },
                ),
                state: PhantomData,
            },
        )
    }

    /// The definition of the workflow.
    pub fn definition(&self) -> (definition: &WorkflowDefinition)
        ensures
            definition@ == self@.0,
    {
        &self.definition
    }
}

impl Workflow<Completed> {
    /// The definition of the workflow.
    pub fn definition(&self) -> (definition: &WorkflowDefinition)
        ensures
            definition@ == self@.0,
    {
        &self.definition
    }

    /// Why the workflow is complete.
    pub fn completion_reason(&self) -> (reason: Option<&CompletionReason>)
        ensures
            match reason {
                Some(reason) => self@.1 == completed_by(Some(*reason)),
                None => self@.1 is None,
            },
    {
        match &self.completion_reason {
            Some(reason) => Some(reason),
            None => None,
        }
    }
}

/// A failure completes no workflow, and neither does a tool that is not the one
/// the workflow names.
pub proof fn only_the_completion_tool_completes(definition: DefinitionView, result: (Seq<char>, bool))
    ensures
        !result.1 ==> !is_completed_by(definition, result),
        definition.completion_tool != Some(result.0) ==> !is_completed_by(definition, result),
        definition.completion_tool is None ==> !is_completed_by(definition, result),
{
}

/// The success of the tool that a workflow names completes it.
pub proof fn the_completion_tool_completes(definition: DefinitionView, tool: Seq<char>)
    ensures
        definition.completion_tool == Some(tool) ==> is_completed_by(definition, (tool, true)),
        !is_completed_by(definition, (tool, false)),
{
}

} // verus!
