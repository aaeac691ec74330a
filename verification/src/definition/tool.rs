//! Tools, sets of tools, and the results of tools.

use vstd::prelude::*;

use crate::text::chars::same_text;

verus! {

/// A tool, known by its name.
#[derive(Debug, PartialEq, Eq)]
pub struct Tool {
    name: String,
}

impl View for Tool {
    type V = Seq<char>;

    /// The name of the tool.
    closed spec fn view(&self) -> Seq<char> {
        self.name@
    }
}

impl Clone for Tool {
    fn clone(&self) -> (tool: Self)
        ensures
            tool@ == self@,
    {
        Tool { name: self.name.clone() }
    }
}

impl Tool {
    /// The tool with a name.
    pub fn new(name: &str) -> (tool: Self)
        ensures
            tool@ == name@,
    {
        Tool { name: name.to_owned() }
    }

    /// The name of the tool.
    pub fn name(&self) -> (name: &str)
        ensures
            name@ == self@,
    {
        self.name.as_str()
    }
}

/// The tools that a workflow offers.
#[derive(Debug, Clone, PartialEq, Eq)]
pub struct ToolSet {
    tools: Vec<Tool>,
}

/// The names of tools.
pub open spec fn tool_names(tools: Seq<Tool>) -> Seq<Seq<char>> {
    Seq::new(tools.len(), |i: int| tools[i]@)
}

impl View for ToolSet {
    type V = Seq<Seq<char>>;

    /// The names of the tools, in the order they were added.
    closed spec fn view(&self) -> Seq<Seq<char>> {
        tool_names(self.tools@)
    }
}

impl Default for ToolSet {
    fn default() -> (set: Self)
        ensures
            set@ == Seq::<Seq<char>>::empty(),
    {
        let set = ToolSet { tools: Vec::new() };
        assert(set@ =~= Seq::<Seq<char>>::empty());
        set
    }
}

impl ToolSet {
    /// The set with one more tool.
    pub fn with(self, tool: Tool) -> (set: Self)
        ensures
            set@ == self@.push(tool@),
    {
        let mut tools = self.tools;
        tools.push(tool);
        let set = ToolSet { tools };
        assert(set@ =~= self@.push(tool@));
        set
    }

    /// Whether a tool is in the set.
    pub fn contains(&self, name: &str) -> (found: bool)
        ensures
            found == self@.contains(name@),
    {
        let mut i: usize = 0;
        while i < self.tools.len()
            invariant
                i <= self.tools@.len(),
                forall|k: int| 0 <= k < i ==> #[trigger] self@[k] != name@,
            decreases self.tools@.len() - i,
        {
            assert(self@[i as int] == self.tools@[i as int]@);
            if same_text(self.tools[i].name(), name) {
                return true;
            }
            i = i + 1;
        }
        assert(self@.len() == self.tools@.len());
        false
    }
}

/// How the use of a tool ended.
#[derive(Debug, Clone, PartialEq, Eq)]
pub struct ToolResult {
    tool: Tool,
    success: bool,
}

impl View for ToolResult {
    type V = (Seq<char>, bool);

    /// The name of the tool, and whether it succeeded.
    closed spec fn view(&self) -> (Seq<char>, bool) {
        (self.tool@, self.success)
    }
}

impl ToolResult {
    /// A tool succeeded.
    pub fn success(tool: Tool) -> (result: Self)
        ensures
            result@ == (tool@, true),
    {
        ToolResult { tool, success: true }
    }

    /// A tool failed.
    pub fn failure(tool: Tool) -> (result: Self)
        ensures
            result@ == (tool@, false),
    {
        ToolResult { tool, success: false }
    }

    /// The tool.
    pub fn tool(&self) -> (tool: &Tool)
        ensures
            tool@ == self@.0,
    {
        &self.tool
    }

    /// Whether the tool succeeded.
    pub fn is_success(&self) -> (success: bool)
        ensures
            success == self@.1,
    {
        self.success
    }
}

} // verus!
