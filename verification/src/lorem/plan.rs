//! What the stand-in does about a prompt.

use vstd::prelude::*;

use crate::acp::ToolCallStatus;
use crate::text::chars;
use crate::text::number;
use crate::text::number::decimal_text;
use crate::text::search;
use crate::text::words;
use crate::text::words::words;

verus! {

/// Number of words the stand-in replies with per prompt.
pub const REPLY_WORD_COUNT: usize = 48;

/// How a tool of a tool server is called.
#[derive(Debug, Clone, Copy, PartialEq, Eq, Structural)]
pub enum Invocation {
    /// Through the server that opens fix sessions.
    CommitWorkflow,
    /// Through the server of the Rust tools.
    RustTool,
    /// Through the server that closes fix sessions.
    GitCommit,
    /// Through the connection itself.
    Confetti,
}

/// A call of a tool server's tool.
#[derive(Debug, Clone, Copy, PartialEq, Eq)]
pub struct McpToolCall {
    pub name: &'static str,
    pub argument: Option<&'static str>,
    pub invoke: Invocation,
}

/// A step of a turn.
#[derive(Debug, Clone, Copy, PartialEq, Eq)]
pub enum Step {
    Thought(&'static str),
    SimulatedToolCall(&'static str),
    McpToolCall(McpToolCall),
}

/// A step as texts.
#[verifier::ext_equal]
pub enum StepPlan {
    Thought(Seq<char>),
    Simulated(Seq<char>),
    Called { name: Seq<char>, argument: Option<Seq<char>>, invoke: Invocation },
}

/// A call of a tool server's tool as texts.
pub open spec fn called(name: Seq<char>, argument: Option<Seq<char>>, invoke: Invocation) -> StepPlan {
    StepPlan::Called { name, argument, invoke }
}

impl View for Step {
    type V = StepPlan;

    open spec fn view(&self) -> StepPlan {
        match *self {
            Step::Thought(text) => StepPlan::Thought(text@),
            Step::SimulatedToolCall(name) => StepPlan::Simulated(name@),
            Step::McpToolCall(call) => StepPlan::Called {
                name: call.name@,
                argument: match call.argument {
                    Some(argument) => Some(argument@),
                    None => None,
                },
                invoke: call.invoke,
            },
        }
    }
}

/// Steps as texts.
pub open spec fn plan_views(steps: Seq<Step>) -> Seq<StepPlan> {
    Seq::new(steps.len(), |i: int| steps[i]@)
}

fn call(name: &'static str, argument: Option<&'static str>, invoke: Invocation) -> (step: Step)
    ensures
        step@ == called(
            name@,
            match argument {
                Some(argument) => Some(argument@),
                None => None,
            },
            invoke,
        ),
{
    Step::McpToolCall(McpToolCall { name, argument, invoke })
}

/// The plan for every third prompt, from the first on: a single thought and a
/// single tool call.
pub open spec fn first_plan() -> Seq<StepPlan> {
    seq![
        StepPlan::Thought(
            "Generating a deliberately long lorem ipsum response so the live UI has enough content to demonstrate line wrapping clearly"@,
        ),
        StepPlan::Simulated("generate_lorem_ipsum"@),
    ]
}

/// The plan for every third prompt, from the second on: tool calls with
/// thoughts between them.
pub open spec fn second_plan() -> Seq<StepPlan> {
    seq![
        StepPlan::Thought(
            "Breaking the request into several carefully chosen steps while keeping enough descriptive detail to exercise the live text wrapping behavior"@,
        ),
        StepPlan::Simulated("search_files"@),
        StepPlan::Simulated("read_file"@),
        StepPlan::Thought(
            "Cross-checking the findings against the surrounding context to make sure the rendered cluster remains readable while new chunks continue arriving"@,
        ),
        StepPlan::Simulated("list_directory"@),
        called("Git Commit With Fix"@, Some("feat(lorem-agent): demonstrate commit fix workflow"@), Invocation::CommitWorkflow),
    ]
}

/// The plan for every third prompt, from the third on: more than three tool
/// calls.
pub open spec fn third_plan() -> Seq<StepPlan> {
    seq![
        StepPlan::Thought(
            "Exploring several possible approaches and intentionally producing enough reasoning text to make incremental rendering and wrapping visible in a narrow terminal"@,
        ),
        StepPlan::Simulated("grep_codebase"@),
        StepPlan::Simulated("read_file"@),
        StepPlan::Thought(
            "Narrowing down the relevant files while preserving a long enough live thought stream to expose wrapping, indentation, and cluster growth"@,
        ),
        StepPlan::Simulated("read_file"@),
        StepPlan::Thought(
            "Verifying edge cases and checking that the final rendered output stays legible even when long messages and tool details arrive in many small chunks"@,
        ),
        StepPlan::Simulated("write_file"@),
    ]
}

/// What ends the third plan where tool servers are supported.
pub open spec fn celebration() -> Seq<StepPlan> {
    seq![StepPlan::Simulated("bash"@), called("confetti"@, None, Invocation::Confetti)]
}

/// The plan for a prompt, from its place among the prompts.
pub open spec fn main_plan(prompt_index: nat, supports_mcp: bool) -> Seq<StepPlan> {
    if prompt_index % 3 == 0 {
        first_plan()
    } else if prompt_index % 3 == 1 {
        second_plan()
    } else if supports_mcp {
        third_plan() + celebration()
    } else {
        third_plan()
    }
}

/// The plan for the one prompt of a fix session.
pub open spec fn fix_plan() -> Seq<StepPlan> {
    seq![
        StepPlan::Thought(
            "Investigating the failing checks reported by the main session and applying a fix before committing"@,
        ),
        called("Rust Check"@, Some("rust_check"@), Invocation::RustTool),
        called("Rust Lint"@, Some("rust_lint"@), Invocation::RustTool),
        called("Rust Test"@, Some("rust_test"@), Invocation::RustTool),
        called("Git Commit"@, Some("feat(lorem-agent): demonstrate commit fix workflow"@), Invocation::GitCommit),
    ]
}

/// The thought/tool-call plan for the `prompt_index`-th prompt in a
/// session. Cycles every three requests: a first request has a single thought
/// and a single tool call; the second interleaves a couple of tool calls with
/// thoughts; the third runs more than three tool calls so the inline UI's live
/// tail (last three steps) and its truncation marker actually have something
/// to show while the turn is still in progress. Since a thought does not end
/// the cluster it belongs to (only a following user/agent message does), every
/// step in one plan renders as a single growing tool cluster.
pub fn plan_for(prompt_index: usize, supports_mcp: bool) -> (steps: Vec<Step>)
    ensures
        plan_views(steps@) == main_plan(prompt_index as nat, supports_mcp),
{
    match prompt_index % 3 {
        0 => {
            let steps: Vec<Step> = vec![
                Step::Thought(
                    "Generating a deliberately long lorem ipsum response so the live UI has enough content to demonstrate line wrapping clearly",
                ),
                Step::SimulatedToolCall("generate_lorem_ipsum"),
            ];
            assert(plan_views(steps@) =~= first_plan());
            steps
        },
        1 => {
            let steps: Vec<Step> = vec![
                Step::Thought(
                    "Breaking the request into several carefully chosen steps while keeping enough descriptive detail to exercise the live text wrapping behavior",
                ),
                Step::SimulatedToolCall("search_files"),
                Step::SimulatedToolCall("read_file"),
                Step::Thought(
                    "Cross-checking the findings against the surrounding context to make sure the rendered cluster remains readable while new chunks continue arriving",
                ),
                Step::SimulatedToolCall("list_directory"),
                call("Git Commit With Fix", Some("feat(lorem-agent): demonstrate commit fix workflow"), Invocation::CommitWorkflow),
            ];
            assert(plan_views(steps@) =~= second_plan());
            steps
        },
        _ => {
            let mut steps: Vec<Step> = vec![
                Step::Thought(
                    "Exploring several possible approaches and intentionally producing enough reasoning text to make incremental rendering and wrapping visible in a narrow terminal",
                ),
                Step::SimulatedToolCall("grep_codebase"),
                Step::SimulatedToolCall("read_file"),
                Step::Thought(
                    "Narrowing down the relevant files while preserving a long enough live thought stream to expose wrapping, indentation, and cluster growth",
                ),
                Step::SimulatedToolCall("read_file"),
                Step::Thought(
                    "Verifying edge cases and checking that the final rendered output stays legible even when long messages and tool details arrive in many small chunks",
                ),
                Step::SimulatedToolCall("write_file"),
            ];
            assert(plan_views(steps@) =~= third_plan());
            if supports_mcp {
                steps.push(Step::SimulatedToolCall("bash"));
                steps.push(call("confetti", None, Invocation::Confetti));
                assert(plan_views(steps@) =~= third_plan() + celebration());
            }
            steps
        },
    }
}

/// The fixed thought/tool-call plan for a commit-fix session: investigate,
/// re-run the Rust checks, then call the close server's git_commit, which
/// both commits and closes the session. Unlike `plan_for`, this never
/// cycles - a fix session only ever gets a single seed prompt.
pub fn commit_fix_session_plan() -> (steps: Vec<Step>)
    ensures
        plan_views(steps@) == fix_plan(),
{
    let steps: Vec<Step> = vec![
        Step::Thought(
            "Investigating the failing checks reported by the main session and applying a fix before committing",
        ),
        call("Rust Check", Some("rust_check"), Invocation::RustTool),
        call("Rust Lint", Some("rust_lint"), Invocation::RustTool),
        call("Rust Test", Some("rust_test"), Invocation::RustTool),
        call("Git Commit", Some("feat(lorem-agent): demonstrate commit fix workflow"), Invocation::GitCommit),
    ];
    assert(plan_views(steps@) =~= fix_plan());
    steps
}

/// The plans repeat after three prompts.
pub proof fn plan_cycles(prompt_index: nat, supports_mcp: bool)
    ensures
        main_plan(prompt_index + 3, supports_mcp) == main_plan(prompt_index, supports_mcp),
{
}

/// Every plan starts with a thought, and confetti is thrown only where tool
/// servers are supported, as the last step.
pub proof fn plans_start_with_a_thought(prompt_index: nat, supports_mcp: bool)
    ensures
        main_plan(prompt_index, supports_mcp)[0] is Thought,
        fix_plan()[0] is Thought,
        prompt_index % 3 == 2 && supports_mcp ==> main_plan(prompt_index, supports_mcp).last()
            == called("confetti"@, None, Invocation::Confetti),
        fix_plan().last() matches StepPlan::Called { invoke, .. } && invoke is GitCommit,
{
}

/// The words of a text in pieces of two.
pub open spec fn pairs(all: Seq<Seq<char>>) -> Seq<Seq<char>>
    decreases all.len(),
{
    if all.len() == 0 {
        Seq::empty()
    } else if all.len() == 1 {
        seq![all[0]]
    } else {
        seq![all[0] + " "@ + all[1]] + pairs(all.skip(2))
    }
}

/// Cuts a text into chunks of two words, to be sent one by one.
pub fn word_chunks(text: &str) -> (chunks: Vec<String>)
    ensures
        chars::texts(chunks@) == pairs(words::words_of(text@)),
{
    let found = words(text);
    let ghost all = chars::texts(found@);
    let mut chunks: Vec<String> = Vec::new();
    let mut i: usize = 0;
    assert(all.skip(0) =~= all);
    assert(chars::texts(chunks@) + pairs(all) =~= pairs(all));
    while i < found.len()
        invariant
            all == chars::texts(found@),
            i <= found@.len(),
            chars::texts(chunks@) + pairs(all.skip(i as int)) == pairs(all),
        decreases found@.len() - i,
    {
        let ghost rest = all.skip(i as int);
        let ghost before = chars::texts(chunks@);
        assert(rest[0] == found@[i as int]@);
        let mut chunk = found[i].clone();
        if found.len() - i >= 2 {
            assert(rest[1] == found@[i + 1]@);
            assert(rest.skip(2) =~= all.skip(i + 2));
            chunk.append(" ");
            chunk.append(found[i + 1].as_str());
            proof {
                chars::lemma_texts_push(chunks@, chunk);
                assert(before.push(chunk@) + pairs(rest.skip(2)) =~= before + (seq![chunk@]
                    + pairs(rest.skip(2))));
            }
            chunks.push(chunk);
            i = i + 2;
        } else {
            proof {
                chars::lemma_texts_push(chunks@, chunk);
                assert(before.push(chunk@) =~= before + seq![chunk@]);
                assert(all.skip(i + 1) =~= Seq::<Seq<char>>::empty());
                assert(before.push(chunk@) + pairs(all.skip(i + 1)) =~= before.push(chunk@));
            }
            chunks.push(chunk);
            i = i + 1;
        }
    }
    assert(all.skip(all.len() as int) =~= Seq::<Seq<char>>::empty());
    assert(chars::texts(chunks@) + Seq::<Seq<char>>::empty() =~= chars::texts(chunks@));
    chunks
}

/// The chunks of a text, joined by spaces, are its words joined by spaces.
pub proof fn chunks_keep_the_words(all: Seq<Seq<char>>)
    ensures
        search::join(pairs(all), " "@) == search::join(all, " "@),
    decreases all.len(),
{
    let space = " "@;
    if all.len() == 1 {
        assert(pairs(all) =~= all);
    } else if all.len() == 2 {
        assert(all.skip(2) =~= Seq::<Seq<char>>::empty());
        assert(pairs(all.skip(2)) =~= Seq::<Seq<char>>::empty());
        assert(pairs(all) =~= seq![all[0] + space + all[1]]);
        search::lemma_join_first(all, space);
        assert(all.skip(1) =~= seq![all[1]]);
        assert(search::join(all.skip(1), space) == all[1]);
    } else if all.len() > 2 {
        let rest = all.skip(2);
        chunks_keep_the_words(rest);
        let first = seq![all[0] + space + all[1]];
        assert(search::join(first, space) == all[0] + space + all[1]);
        assert(pairs(rest).len() > 0);
        search::lemma_join_concat(first, pairs(rest), space);
        search::lemma_join_first(all, space);
        search::lemma_join_first(all.skip(1), space);
        assert(all.skip(1).skip(1) =~= rest);
        assert(all.skip(1)[0] == all[1]);
        assert(search::join(all, space) =~= all[0] + space + all[1] + space + search::join(
            rest,
            space,
        ));
    }
}

/// The id of a tool call.
pub open spec fn call_id(seed: nat, step_index: nat) -> Seq<char> {
    "lorem-tool-"@ + number::decimal(seed) + "-"@ + number::decimal(step_index)
}

/// The id of the tool call of a step, from the seed of the prompt and the
/// place of the step.
pub fn tool_call_id(seed: usize, step_index: usize) -> (id: String)
    ensures
        id@ == call_id(seed as nat, step_index as nat),
{
    let mut id = "lorem-tool-".to_owned();
    id.append(decimal_text(seed as u64).as_str());
    id.append("-");
    id.append(decimal_text(step_index as u64).as_str());
    id
}

/// How a simulated tool call ends, and what comes of it.
pub fn simulated_result(name: &str, fails: bool) -> (result: (ToolCallStatus, String))
    ensures
        fails ==> result.0 is Failed && result.1@ == name@ + ": simulated failure"@,
        !fails ==> result.0 is Completed && result.1@ == name@ + ": ok ("@ + number::decimal(
            REPLY_WORD_COUNT as nat,
        ) + " words)"@,
{
    let mut text = name.to_owned();
    if fails {
        text.append(": simulated failure");
        (ToolCallStatus::Failed, text)
    } else {
        text.append(": ok (");
        text.append(decimal_text(REPLY_WORD_COUNT as u64).as_str());
        text.append(" words)");
        (ToolCallStatus::Completed, text)
    }
}

/// What a tool server's tool reports when it was called, or why it could not
/// be.
pub open spec fn invocation_text(invoke: Invocation, argument: Option<Seq<char>>) -> Result<
    Seq<char>,
    Seq<char>,
> {
    match invoke {
        Invocation::Confetti => Ok("confetti: ok"@),
        Invocation::RustTool => match argument {
            Some(tool) => Ok(tool + ": ok"@),
            None => Err("rust tool name unavailable"@),
        },
        Invocation::CommitWorkflow => match argument {
            Some(_) => Ok("git_commit_with_fix: ok"@),
            None => Err("commit message unavailable"@),
        },
        Invocation::GitCommit => match argument {
            Some(_) => Ok("git_commit: ok"@),
            None => Err("commit message unavailable"@),
        },
    }
}

/// What a tool server's tool reports when it was called.
pub fn invocation_report(call: &McpToolCall) -> (report: Result<String, &'static str>)
    ensures
        match report {
            Ok(text) => invocation_text(
                call.invoke,
                match call.argument {
                    Some(argument) => Some(argument@),
                    None => None,
                },
            ) == Ok::<Seq<char>, Seq<char>>(text@),
            Err(error) => invocation_text(
                call.invoke,
                match call.argument {
                    Some(argument) => Some(argument@),
                    None => None,
                },
            ) == Err::<Seq<char>, Seq<char>>(error@),
        },
{
    match call.invoke {
        Invocation::Confetti => Ok("confetti: ok".to_owned()),
        Invocation::RustTool => match call.argument {
            Some(tool) => {
                let mut text = tool.to_owned();
                text.append(": ok");
                Ok(text)
            },
            None => Err("rust tool name unavailable"),
        },
        Invocation::CommitWorkflow => match call.argument {
            Some(_) => Ok("git_commit_with_fix: ok".to_owned()),
            None => Err("commit message unavailable"),
        },
        Invocation::GitCommit => match call.argument {
            Some(_) => Ok("git_commit: ok".to_owned()),
            None => Err("commit message unavailable"),
        },
    }
}

/// The tool that a call goes to, and the message that it takes.
pub open spec fn tool_of(invoke: Invocation, argument: Option<Seq<char>>) -> (
    Seq<char>,
    Option<Seq<char>>,
) {
    match invoke {
        Invocation::RustTool => (
            match argument {
                Some(tool) => tool,
                None => ""@,
            },
            None,
        ),
        Invocation::CommitWorkflow => ("git_commit_with_fix"@, argument),
        Invocation::GitCommit => ("git_commit"@, argument),
        Invocation::Confetti => ("confetti"@, None),
    }
}

/// The tool that a call goes to, and the message that it takes.
pub fn called_tool(call: &McpToolCall) -> (tool: (&'static str, Option<&'static str>))
    ensures
        (
            tool.0@,
            match tool.1 {
                Some(message) => Some(message@),
                None => None,
            },
        ) == tool_of(
            call.invoke,
            match call.argument {
                Some(argument) => Some(argument@),
                None => None,
            },
        ),
{
    match call.invoke {
        Invocation::RustTool => (
            match call.argument {
                Some(tool) => tool,
                None => "",
            },
            None,
        ),
        Invocation::CommitWorkflow => ("git_commit_with_fix", call.argument),
        Invocation::GitCommit => ("git_commit", call.argument),
        Invocation::Confetti => ("confetti", None),
    }
}

/// How a call of a tool server's tool ends, and what comes of it.
pub fn mcp_result(name: &str, outcome: Option<String>) -> (result: (ToolCallStatus, String))
    ensures
        match outcome {
            Some(text) => result.0 is Completed && result.1@ == text@,
            None => result.0 is Failed && result.1@ == name@ + ": failed"@,
        },
{
    match outcome {
        Some(text) => (ToolCallStatus::Completed, text),
        None => {
            let mut text = name.to_owned();
            text.append(": failed");
            (ToolCallStatus::Failed, text)
        },
    }
}

/// How many steps call a tool.
pub open spec fn call_count(steps: Seq<StepPlan>) -> nat
    decreases steps.len(),
{
    if steps.len() == 0 {
        0
    } else {
        call_count(steps.drop_last()) + (if steps.last() is Thought {
            0nat
        } else {
            1
        })
    }
}

/// The first of three prompts has one thought and one tool call, the second calls
/// tools with a thought between them and asks for a commit last, and the third
/// calls more than three tools.
pub proof fn plans_grow(prompt_index: nat, supports_mcp: bool)
    ensures
        ({
            let steps = main_plan(prompt_index, supports_mcp);
            &&& prompt_index % 3 == 0 ==> steps.len() == 2 && call_count(steps) == 1
            &&& prompt_index % 3 == 1 ==> call_count(steps) == 4 && (steps.last()
                matches StepPlan::Called { invoke, argument, .. } && invoke is CommitWorkflow
                && argument is Some)
            &&& prompt_index % 3 == 2 ==> call_count(steps) == (if supports_mcp {
                6
            } else {
                4nat
            })
        }),
        call_count(fix_plan()) == 4,
{
    reveal_with_fuel(call_count, 10);
}

/// Calls of one turn have ids of their own.
pub proof fn call_ids_are_distinct(seed: nat, left: nat, right: nat)
    requires
        left != right,
    ensures
        call_id(seed, left) != call_id(seed, right),
        search::starts_with(call_id(seed, left), "lorem-tool-"@ + number::decimal(seed)),
{
    let prefix = "lorem-tool-"@ + number::decimal(seed) + "-"@;
    let first = call_id(seed, left);
    let second = call_id(seed, right);
    let head = "lorem-tool-"@ + number::decimal(seed);
    assert(first.take(head.len() as int) =~= head);
    number::lemma_decimal_value(left);
    number::lemma_decimal_value(right);
    assert(first.skip(prefix.len() as int) =~= number::decimal(left));
    assert(second.skip(prefix.len() as int) =~= number::decimal(right));
}

/// A call goes to the tool it is of, with the message it takes; a tool that needs
/// a name or a message reports a failure where it has none.
pub proof fn calls_go_to_their_tools(invoke: Invocation, argument: Seq<char>)
    ensures
        tool_of(Invocation::Confetti, Some(argument)) == ("confetti"@, None::<Seq<char>>),
        tool_of(Invocation::RustTool, Some(argument)) == (argument, None::<Seq<char>>),
        tool_of(Invocation::CommitWorkflow, Some(argument)) == (
            "git_commit_with_fix"@,
            Some(argument),
        ),
        tool_of(Invocation::GitCommit, Some(argument)) == ("git_commit"@, Some(argument)),
        invocation_text(invoke, Some(argument)) is Ok,
        invocation_text(invoke, None) is Ok <==> invoke is Confetti,
        !(invoke is RustTool) ==> invocation_text(invoke, Some(argument)) == Ok::<
            Seq<char>,
            Seq<char>,
        >(tool_of(invoke, Some(argument)).0 + ": ok"@),
        invocation_text(Invocation::RustTool, Some(argument)) == Ok::<Seq<char>, Seq<char>>(
            argument + ": ok"@,
        ),
{
    reveal_strlit("confetti");
    reveal_strlit("confetti: ok");
    reveal_strlit(": ok");
    reveal_strlit("git_commit_with_fix");
    reveal_strlit("git_commit_with_fix: ok");
    reveal_strlit("git_commit");
    reveal_strlit("git_commit: ok");
    assert("confetti"@ + ": ok"@ =~= "confetti: ok"@);
    assert("git_commit_with_fix"@ + ": ok"@ =~= "git_commit_with_fix: ok"@);
    assert("git_commit"@ + ": ok"@ =~= "git_commit: ok"@);
}

} // verus!
