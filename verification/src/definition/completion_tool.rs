//! The tool that completes a workflow.

use vstd::prelude::*;

use crate::definition::tool::Tool;

verus! {

/// The tool whose success completes a workflow.
#[derive(Debug, Clone, PartialEq, Eq)]
pub struct CompletionTool(pub Tool);

impl View for CompletionTool {
    type V = Seq<char>;

    /// The name of the tool.
    open spec fn view(&self) -> Seq<char> {
        self.0@
    }
}

impl CompletionTool {
    /// The name of the tool.
    pub fn name(&self) -> (name: &str)
        ensures
            name@ == self@,
    {
        self.0.name()
    }
}

impl From<Tool> for CompletionTool {
    fn from(tool: Tool) -> (completion: Self) {
        CompletionTool(tool)
    }
}

impl vstd::std_specs::convert::FromSpecImpl<Tool> for CompletionTool {
    open spec fn obeys_from_spec() -> bool {
        true
    }

    open spec fn from_spec(tool: Tool) -> Self {
        CompletionTool(tool)
    }
}

} // verus!
