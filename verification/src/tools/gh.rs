//! Tools backed by the `gh` CLI.

use vstd::prelude::*;

use crate::text::chars;
use crate::text::number;
use crate::text::number::decimal_text;
use crate::tools::process;
use crate::tools::process::{program_output, ProcessRun};
use crate::tools::reply::{FailureView, OutputView, ProcessOutput, ToolFailure};

verus! {

/// The program that talks to GitHub.
pub const GH: &'static str = "gh";

/// The state of an issue.
#[derive(Debug, Clone, Copy, PartialEq, Eq, Structural)]
pub enum GhIssueState {
    Open,
    Closed,
}

/// The name of a state.
pub open spec fn state_name(state: GhIssueState) -> Seq<char> {
    match state {
        GhIssueState::Open => "open"@,
        GhIssueState::Closed => "closed"@,
    }
}

impl GhIssueState {
    /// The name of the state.
    pub fn name(&self) -> (name: &'static str)
        ensures
            name@ == state_name(*self),
    {
        match self {
            GhIssueState::Open => "open",
            GhIssueState::Closed => "closed",
        }
    }
}

/// The arguments that list the issues in a state.
pub fn gh_issue_list(state: GhIssueState) -> (args: Vec<String>)
    ensures
        chars::texts(args@) == seq![
            "issue"@,
            "list"@,
            "--state"@,
            state_name(state),
            "--json"@,
            "number,issueType,title"@,
        ],
{
    let args: Vec<String> = vec![
        "issue".to_owned(),
        "list".to_owned(),
        "--state".to_owned(),
        state.name().to_owned(),
        "--json".to_owned(),
        "number,issueType,title".to_owned(),
    ];
    assert(chars::texts(args@) =~= seq![
        "issue"@,
        "list"@,
        "--state"@,
        state_name(state),
        "--json"@,
        "number,issueType,title"@,
    ]);
    args
}

/// The arguments that view a single issue.
pub fn gh_issue_view(issue_number: u32) -> (args: Vec<String>)
    ensures
        chars::texts(args@) == seq![
            "issue"@,
            "view"@,
            number::decimal(issue_number as nat),
            "--json"@,
            "number,state,title,body,milestone,comments"@,
        ],
{
    let args: Vec<String> = vec![
        "issue".to_owned(),
        "view".to_owned(),
        decimal_text(issue_number as u64),
        "--json".to_owned(),
        "number,state,title,body,milestone,comments".to_owned(),
    ];
    assert(chars::texts(args@) =~= seq![
        "issue"@,
        "view"@,
        number::decimal(issue_number as nat),
        "--json"@,
        "number,state,title,body,milestone,comments"@,
    ]);
    args
}

/// The output of the program, whatever its status.
pub fn run_gh(run: ProcessRun) -> (output: Result<ProcessOutput, ToolFailure>)
    ensures
        match output {
            Ok(output) => process::output_of(run, GH@, GH@) == Ok::<OutputView, FailureView>(
                output@,
            ),
            Err(failure) => process::output_of(run, GH@, GH@) == Err::<OutputView, FailureView>(
                failure@,
            ),
        },
{
    program_output(run, GH, GH)
}

/// The states of an issue go by names of their own.
pub proof fn states_are_told_apart()
    ensures
        state_name(GhIssueState::Open) == "open"@,
        state_name(GhIssueState::Closed) == "closed"@,
        state_name(GhIssueState::Open) != state_name(GhIssueState::Closed),
{
    reveal_strlit("open");
    reveal_strlit("closed");
    assert("open"@.len() != "closed"@.len());
}

} // verus!
