//! How the stand-in takes a turn: what it does next, from what came of what it
//! did last.

use vstd::prelude::*;

use super::agent;
use super::agent::{list_registered_tools, Listing, PromptStart, SessionKind};
use super::plan;
use super::plan::{
    commit_fix_session_plan, invocation_report, mcp_result, plan_for, simulated_result,
    tool_call_id, word_chunks, McpToolCall, Step, StepPlan, REPLY_WORD_COUNT,
};
use super::words;
use super::words::generate;
use crate::acp::ToolCallStatus;
use crate::json;
use crate::json::quote;
use crate::text::chars;
use crate::text::number;
use crate::text::number::decimal_text;
use crate::text::search;

verus! {

/// How far a turn has come.
#[derive(Debug, Clone, Copy, PartialEq, Eq, Structural)]
pub enum Phase {
    /// The tools of the session are to be listed.
    Opening,
    /// The tools are being listed.
    Listing,
    /// The step at this place is next. Behind the last one, it is the reply.
    Between(usize),
    /// The tool call of the step at this place was announced.
    Announced(usize),
    /// The tool of the step at this place is being called.
    Calling(usize),
    /// The reply was given.
    Replied,
    /// The turn is over; whether it was cancelled.
    Over(bool),
}

/// A turn of the stand-in.
#[derive(Debug)]
pub struct Turn {
    seed: usize,
    fail_tool: bool,
    steps: Vec<Step>,
    phase: Phase,
}

/// A turn as mathematical values.
#[verifier::ext_equal]
pub struct TurnView {
    pub seed: nat,
    pub fail_tool: bool,
    pub steps: Seq<StepPlan>,
    pub phase: Phase,
}

impl View for Turn {
    type V = TurnView;

    closed spec fn view(&self) -> TurnView {
        TurnView {
            seed: self.seed as nat,
            fail_tool: self.fail_tool,
            steps: plan::plan_views(self.steps@),
            phase: self.phase,
        }
    }
}

/// What came of the last thing that was done.
#[derive(Debug)]
pub struct TurnEvent {
    /// Whether the turn was cancelled.
    pub cancelled: bool,
    /// The tools that were listed, where they were to be.
    pub listings: Vec<Listing>,
    /// Whether the tool could be called, where it was to be.
    pub called: bool,
}

/// What the stand-in does next.
#[derive(Debug)]
pub enum TurnAction {
    /// List the tools of the session's servers.
    ListTools,
    /// Say which tools there are.
    Say(String),
    /// Think, chunk by chunk.
    Think(Vec<String>),
    /// Announce a tool call, with its input as JSON.
    Announce { id: String, name: &'static str, input: Option<String> },
    /// Call a tool.
    Call(McpToolCall),
    /// Tell what came of a tool call.
    Settle { id: String, status: ToolCallStatus, text: String },
    /// Reply, chunk by chunk.
    Reply(Vec<String>),
    /// End the turn.
    End { cancelled: bool },
}

/// What the stand-in does next, as texts.
#[verifier::ext_equal]
pub enum ActionView {
    ListTools,
    Say(Seq<char>),
    Think(Seq<Seq<char>>),
    Announce { id: Seq<char>, name: Seq<char>, input: Option<Seq<char>> },
    Call(StepPlan),
    Settle { id: Seq<char>, status: ToolCallStatus, text: Seq<char> },
    Reply(Seq<Seq<char>>),
    End { cancelled: bool },
}

impl View for TurnAction {
    type V = ActionView;

    open spec fn view(&self) -> ActionView {
        match *self {
            TurnAction::ListTools => ActionView::ListTools,
            TurnAction::Say(text) => ActionView::Say(text@),
            TurnAction::Think(chunks) => ActionView::Think(chars::texts(chunks@)),
            TurnAction::Announce { id, name, input } => ActionView::Announce {
                id: id@,
                name: name@,
                input: chars::optional_text(input),
            },
            TurnAction::Call(call) => ActionView::Call(Step::McpToolCall(call)@),
            TurnAction::Settle { id, status, text } => ActionView::Settle {
                id: id@,
                status,
                text: text@,
            },
            TurnAction::Reply(chunks) => ActionView::Reply(chars::texts(chunks@)),
            TurnAction::End { cancelled } => ActionView::End { cancelled },
        }
    }
}

/// The input of a simulated tool call.
pub open spec fn simulated_input(name: Seq<char>, seed: nat, index: nat) -> Seq<char> {
    "{\"tool\":"@ + json::quoted(name) + ",\"prompt_seed\":"@ + number::decimal(seed)
        + ",\"step_index\":"@ + number::decimal(index) + "}"@
}

/// The input of a call with an argument.
pub open spec fn argument_input(argument: Seq<char>) -> Seq<char> {
    "{\"argument\":"@ + json::quoted(argument) + "}"@
}

/// The reply of a turn, chunk by chunk.
pub open spec fn reply_chunks(seed: nat) -> Seq<Seq<char>> {
    plan::pairs(
        crate::text::words::words_of(
            search::join(words::words_from(seed, REPLY_WORD_COUNT as nat), " "@),
        ),
    )
}

/// What comes next where a step is next. A cancelled turn ends there.
pub open spec fn step_from(turn: TurnView, index: usize, cancelled: bool) -> (Phase, ActionView) {
    if cancelled {
        (Phase::Over(true), ActionView::End { cancelled: true })
    } else if index < turn.steps.len() {
        match turn.steps[index as int] {
            StepPlan::Thought(text) => (
                Phase::Between((index + 1) as usize),
                ActionView::Think(plan::pairs(crate::text::words::words_of(text))),
            ),
            StepPlan::Simulated(name) => (
                Phase::Announced(index),
                ActionView::Announce {
                    id: plan::call_id(turn.seed, index as nat),
                    name,
                    input: Some(simulated_input(name, turn.seed, index as nat)),
                },
            ),
            StepPlan::Called { name, argument, .. } => (
                Phase::Announced(index),
                ActionView::Announce {
                    id: plan::call_id(turn.seed, index as nat),
                    name,
                    input: match argument {
                        Some(argument) => Some(argument_input(argument)),
                        None => None,
                    },
                },
            ),
        }
    } else {
        (Phase::Replied, ActionView::Reply(reply_chunks(turn.seed)))
    }
}

/// Whether a step is to fail: where failure is asked for, the first tool call
/// of the turn is.
pub open spec fn is_to_fail(turn: TurnView, index: usize) -> bool {
    turn.fail_tool && forall|i: int| 0 <= i < index ==> #[trigger] turn.steps[i] is Thought
}

/// The name of the tool that a step calls.
pub open spec fn tool_name(step: StepPlan) -> Seq<char> {
    match step {
        StepPlan::Simulated(name) => name,
        StepPlan::Called { name, .. } => name,
        StepPlan::Thought(_) => Seq::empty(),
    }
}

/// What is told of a simulated tool call, or of one that is made to fail.
pub open spec fn simulated_end(turn: TurnView, index: usize, name: Seq<char>) -> ActionView {
    let fails = is_to_fail(turn, index);
    ActionView::Settle {
        id: plan::call_id(turn.seed, index as nat),
        status: if fails {
            ToolCallStatus::Failed
        } else {
            ToolCallStatus::Completed
        },
        text: if fails {
            name + ": simulated failure"@
        } else {
            name + ": ok ("@ + number::decimal(REPLY_WORD_COUNT as nat) + " words)"@
        },
    }
}

/// What is told of a call: what the tool reports where it could be called.
pub open spec fn call_end(turn: TurnView, index: usize, step: StepPlan, called: bool) -> ActionView {
    let id = plan::call_id(turn.seed, index as nat);
    match step {
        StepPlan::Called { name, argument, invoke } => match plan::invocation_text(invoke, argument) {
            Ok(text) if called => ActionView::Settle { id, status: ToolCallStatus::Completed, text },
            _ => ActionView::Settle {
                id,
                status: ToolCallStatus::Failed,
                text: name + ": failed"@,
            },
        },
        _ => ActionView::End { cancelled: false },
    }
}

/// What the stand-in does next, and how far it has come then.
pub open spec fn next_of(turn: TurnView, event: TurnEvent) -> (Phase, ActionView) {
    match turn.phase {
        Phase::Opening => (Phase::Listing, ActionView::ListTools),
        Phase::Listing => (
            Phase::Between(0),
            ActionView::Say(search::join(agent::listing_lines(event.listings@), "\n"@)),
        ),
        Phase::Between(index) => step_from(turn, index, event.cancelled),
        Phase::Announced(index) => {
            let step = turn.steps[index as int];
            if step is Simulated || is_to_fail(turn, index) {
                (
                    Phase::Between((index + 1) as usize),
                    simulated_end(turn, index, tool_name(step)),
                )
            } else {
                (Phase::Calling(index), ActionView::Call(step))
            }
        },
        Phase::Calling(index) => (
            Phase::Between((index + 1) as usize),
            call_end(turn, index, turn.steps[index as int], event.called),
        ),
        Phase::Replied => (Phase::Over(false), ActionView::End { cancelled: false }),
        Phase::Over(cancelled) => (Phase::Over(cancelled), ActionView::End { cancelled }),
    }
}

/// The steps of a turn: those of a fix session, or the next of the main plans.
pub open spec fn steps_of(start: PromptStart, supports_mcp: bool) -> Seq<StepPlan> {
    if start.session matches Some(session) && session.kind is Fix {
        plan::fix_plan()
    } else {
        plan::main_plan(start.prompt_index as nat, supports_mcp)
    }
}

/// Whether a turn has come to a place that there is: a step that was announced
/// is a tool call, one that is called a call of a tool server's tool.
pub open spec fn is_placed(turn: TurnView) -> bool {
    match turn.phase {
        Phase::Between(index) => index <= turn.steps.len(),
        Phase::Announced(index) => index < turn.steps.len() && !(
        turn.steps[index as int] is Thought),
        Phase::Calling(index) => index < turn.steps.len() && turn.steps[index as int] is Called,
        _ => true,
    }
}

impl Turn {
    /// Whether the turn is in a state that can come about.
    pub open spec fn well_formed(&self) -> bool {
        &&& is_placed(self@)
        &&& self@.steps.len() <= usize::MAX
        &&& self@.seed + REPLY_WORD_COUNT - 1 <= usize::MAX
    }

    /// A turn about a prompt. The tools of a session are listed at its first
    /// prompt.
    pub fn new(start: &PromptStart, supports_mcp: bool, fail_tool: bool) -> (turn: Self)
        requires
            start.seed + REPLY_WORD_COUNT - 1 <= usize::MAX,
        ensures
            turn.well_formed(),
            turn@ == (TurnView {
                seed: start.seed as nat,
                fail_tool,
                steps: steps_of(*start, supports_mcp),
                phase: if start.session is Some {
                    Phase::Opening
                } else {
                    Phase::Between(0)
                },
            }),
    {
        let (kind, phase) = match &start.session {
            Some(session) => (session.kind, Phase::Opening),
            None => (SessionKind::Main, Phase::Between(0)),
        };
        let steps = match kind {
            SessionKind::Fix => commit_fix_session_plan(),
            SessionKind::Main => plan_for(start.prompt_index, supports_mcp),
        };
        let turn = Turn { seed: start.seed, fail_tool, steps, phase };
        assert(turn@.steps.len() == steps@.len());
        turn
    }

    fn announcement(&self, index: usize) -> (action: TurnAction)
        requires
            self.well_formed(),
            index < self@.steps.len(),
            !(self@.steps[index as int] is Thought),
        ensures
            action@ == step_from(self@, index, false).1,
    {
        let id = tool_call_id(self.seed, index);
        assert(self@.steps[index as int] == self.steps@[index as int]@);
        match self.steps[index] {
            Step::McpToolCall(call) => {
                let input = match call.argument {
                    Some(argument) => {
                        let mut input = "{\"argument\":".to_owned();
                        input.append(quote(argument).as_str());
                        input.append("}");
                        Some(input)
                    },
                    None => None,
                };
                TurnAction::Announce { id, name: call.name, input }
            },
            Step::SimulatedToolCall(name) => {
                let mut input = "{\"tool\":".to_owned();
                input.append(quote(name).as_str());
                input.append(",\"prompt_seed\":");
                input.append(decimal_text(self.seed as u64).as_str());
                input.append(",\"step_index\":");
                input.append(decimal_text(index as u64).as_str());
                input.append("}");
                TurnAction::Announce { id, name, input: Some(input) }
            },
            Step::Thought(text) => TurnAction::Think(word_chunks(text)),
        }
    }

    fn take_step(&mut self, index: usize, cancelled: bool) -> (action: TurnAction)
        requires
            old(self).well_formed(),
            index <= old(self)@.steps.len(),
        ensures
            final(self).well_formed(),
            (final(self)@.phase, action@) == step_from(old(self)@, index, cancelled),
            final(self)@ == (TurnView { phase: final(self)@.phase, ..old(self)@ }),
    {
        assert(self@.steps.len() == self.steps@.len());
        if cancelled {
            self.phase = Phase::Over(true);
            return TurnAction::End { cancelled: true };
        }
        if index == self.steps.len() {
            self.phase = Phase::Replied;
            let text = generate(self.seed, REPLY_WORD_COUNT);
            return TurnAction::Reply(word_chunks(text.as_str()));
        }
        assert(self@.steps[index as int] == self.steps@[index as int]@);
        match self.steps[index] {
            Step::Thought(text) => {
                self.phase = Phase::Between(index + 1);
                TurnAction::Think(word_chunks(text))
            },
            _ => {
                let action = self.announcement(index);
                self.phase = Phase::Announced(index);
                action
            },
        }
    }

    fn fails(&self, index: usize) -> (fails: bool)
        requires
            index < self@.steps.len(),
        ensures
            fails == is_to_fail(self@, index),
    {
        if !self.fail_tool {
            return false;
        }
        let mut i: usize = 0;
        while i < index
            invariant
                i <= index < self.steps@.len(),
                forall|k: int| 0 <= k < i ==> #[trigger] self@.steps[k] is Thought,
            decreases index - i,
        {
            assert(self@.steps[i as int] == self.steps@[i as int]@);
            match self.steps[i] {
                Step::Thought(_) => {},
                _ => {
                    return false;
                },
            }
            i = i + 1;
        }
        true
    }

    fn settle(&self, index: usize, call: &McpToolCall, called: bool) -> (action: TurnAction)
        requires
            self.well_formed(),
        ensures
            action@ == call_end(self@, index, Step::McpToolCall(*call)@, called),
    {
        let outcome = match invocation_report(call) {
            Ok(text) => if called {
                Some(text)
            } else {
                None
            },
            Err(_) => None,
        };
        let (status, text) = mcp_result(call.name, outcome);
        TurnAction::Settle { id: tool_call_id(self.seed, index), status, text }
    }

    /// Decides what to do next, from what came of what was done last.
    pub fn next(&mut self, event: TurnEvent) -> (action: TurnAction)
        requires
            old(self).well_formed(),
        ensures
            final(self).well_formed(),
            (final(self)@.phase, action@) == next_of(old(self)@, event),
            final(self)@ == (TurnView { phase: final(self)@.phase, ..old(self)@ }),
    {
        assert(self@.steps.len() == self.steps@.len());
        match self.phase {
            Phase::Opening => {
                self.phase = Phase::Listing;
                TurnAction::ListTools
            },
            Phase::Listing => {
                self.phase = Phase::Between(0);
                TurnAction::Say(list_registered_tools(&event.listings))
            },
            Phase::Between(index) => self.take_step(index, event.cancelled),
            Phase::Announced(index) => {
                assert(self@.steps[index as int] == self.steps@[index as int]@);
                let fails = self.fails(index);
                let name = match self.steps[index] {
                    Step::McpToolCall(call) => {
                        if !fails {
                            self.phase = Phase::Calling(index);
                            return TurnAction::Call(call);
                        }
                        call.name
                    },
                    Step::SimulatedToolCall(name) => name,
                    Step::Thought(text) => text,
                };
                let (status, text) = simulated_result(name, fails);
                self.phase = Phase::Between(index + 1);
                TurnAction::Settle { id: tool_call_id(self.seed, index), status, text }
            },
            Phase::Calling(index) => {
                assert(self@.steps[index as int] == self.steps@[index as int]@);
                match self.steps[index] {
                    Step::McpToolCall(call) => {
                        let action = self.settle(index, &call, event.called);
                        self.phase = Phase::Between(index + 1);
                        action
                    },
                    _ => TurnAction::End { cancelled: false },
                }
            },
            Phase::Replied => {
                self.phase = Phase::Over(false);
                TurnAction::End { cancelled: false }
            },
            Phase::Over(cancelled) => TurnAction::End { cancelled },
        }
    }
}

/// A turn that has gone on.
pub open spec fn gone_on(turn: TurnView, event: TurnEvent) -> TurnView {
    TurnView { phase: next_of(turn, event).0, ..turn }
}

/// A tool call that was announced is settled under its id before anything else
/// is done, whatever comes of it and whether or not the turn is cancelled: at
/// once where it is simulated or made to fail, and else behind the call itself.
pub proof fn announced_calls_are_settled(turn: TurnView, first: TurnEvent, second: TurnEvent)
    requires
        is_placed(turn),
        turn.phase is Announced,
    ensures
        ({
            let index = turn.phase->Announced_0;
            let id = plan::call_id(turn.seed, index as nat);
            let (after, action) = next_of(turn, first);
            let (later, settled) = next_of(gone_on(turn, first), second);
            if turn.steps[index as int] is Simulated || is_to_fail(turn, index) {
                &&& action matches ActionView::Settle { id: of, .. } && of == id
                &&& after == Phase::Between((index + 1) as usize)
            } else {
                &&& action == ActionView::Call(turn.steps[index as int])
                &&& settled matches ActionView::Settle { id: of, .. } && of == id
                &&& later == Phase::Between((index + 1) as usize)
            }
        }),
{
}

/// Where failure is asked for, the first tool call of a turn fails and no other
/// is made to.
pub proof fn the_first_call_fails(turn: TurnView, index: usize, event: TurnEvent)
    requires
        is_placed(turn),
        turn.phase == Phase::Announced(index),
        turn.fail_tool,
    ensures
        is_to_fail(turn, index) ==> (next_of(turn, event).1 matches ActionView::Settle {
            status,
            text,
            ..
        } && status is Failed && text == tool_name(turn.steps[index as int])
            + ": simulated failure"@),
        !is_to_fail(turn, index) && turn.steps[index as int] is Simulated ==> (next_of(
            turn,
            event,
        ).1 matches ActionView::Settle { status, .. } && status is Completed),
        forall|later: usize|
            index < later ==> !#[trigger] is_to_fail(turn, later),
{
}

/// A turn that is cancelled ends before its next step, and its reply is not
/// given.
pub proof fn cancelled_turn_takes_no_step(turn: TurnView, event: TurnEvent, later: TurnEvent)
    requires
        turn.phase is Between,
        event.cancelled,
    ensures
        next_of(turn, event).1 == (ActionView::End { cancelled: true }),
        next_of(gone_on(turn, event), later) == next_of(turn, event),
{
}

/// How many things are left to do in a turn, at most.
pub open spec fn left_to_do(turn: TurnView) -> int {
    let steps = turn.steps.len() as int;
    match turn.phase {
        Phase::Opening => 3 * steps + 4,
        Phase::Listing => 3 * steps + 3,
        Phase::Between(index) => 3 * (steps - index) + 2,
        Phase::Announced(index) => 3 * (steps - index) + 1,
        Phase::Calling(index) => 3 * (steps - index),
        Phase::Replied => 1,
        Phase::Over(_) => 0,
    }
}

/// Every turn comes to its end: with each thing done, less is left to do.
pub proof fn turns_end(turn: TurnView, event: TurnEvent)
    requires
        is_placed(turn),
        turn.steps.len() < usize::MAX,
    ensures
        is_placed(gone_on(turn, event)),
        turn.phase is Over || left_to_do(gone_on(turn, event)) < left_to_do(turn),
        turn.phase is Over <==> left_to_do(turn) == 0,
{
}

/// A turn with a new session lists its tools and tells of them before its steps;
/// steps are taken in order, thoughts word for word and tool calls by name; and
/// behind the last step comes the reply, and then the end.
pub proof fn steps_are_taken_in_order(turn: TurnView, index: usize, event: TurnEvent)
    requires
        !event.cancelled,
    ensures
        turn.phase is Opening ==> next_of(turn, event) == (Phase::Listing, ActionView::ListTools),
        turn.phase is Listing ==> next_of(turn, event).0 == Phase::Between(0) && next_of(
            turn,
            event,
        ).1 is Say,
        turn.phase == Phase::Between(index) && index < turn.steps.len() ==> match turn.steps[
        index as int] {
            StepPlan::Thought(text) => next_of(turn, event).0 == Phase::Between(
                (index + 1) as usize,
            ) && (next_of(turn, event).1 matches ActionView::Think(chunks) && search::join(
                chunks,
                " "@,
            ) == search::join(crate::text::words::words_of(text), " "@)),
            StepPlan::Simulated(name) => next_of(turn, event).0 == Phase::Announced(index) && (
            next_of(turn, event).1 matches ActionView::Announce { name: told, .. } && told == name),
            StepPlan::Called { name, .. } => next_of(turn, event).0 == Phase::Announced(index) && (
            next_of(turn, event).1 matches ActionView::Announce { name: told, .. } && told == name),
        },
        turn.phase == Phase::Between(index) && index >= turn.steps.len() ==> next_of(turn, event).0
            is Replied && next_of(turn, event).1 is Reply,
        turn.phase is Replied ==> next_of(turn, event) == (
            Phase::Over(false),
            ActionView::End { cancelled: false },
        ),
{
    if turn.phase == Phase::Between(index) && index < turn.steps.len() {
        if let StepPlan::Thought(text) = turn.steps[index as int] {
            plan::chunks_keep_the_words(crate::text::words::words_of(text));
        }
    }
}

/// A reply has forty-eight words, counted around from the seed.
pub proof fn replies_hold_their_words(seed: nat)
    ensures
        search::join(reply_chunks(seed), " "@) == search::join(
            crate::text::words::words_of(search::join(words::words_from(seed, 48), " "@)),
            " "@,
        ),
{
    plan::chunks_keep_the_words(
        crate::text::words::words_of(search::join(words::words_from(seed, 48), " "@)),
    );
}

/// A call that could be made is settled by what its tool reports, and one that
/// could not fails by its name.
pub proof fn calls_are_settled_by_what_came_of_them(
    turn: TurnView,
    index: usize,
    event: TurnEvent,
)
    requires
        turn.phase == Phase::Calling(index),
        index < turn.steps.len(),
    ensures
        turn.steps[index as int] matches StepPlan::Called { name, argument, invoke } ==> {
            let told = next_of(turn, event).1;
            &&& !event.called ==> (told matches ActionView::Settle { status, text, .. } && status
                is Failed && search::starts_with(text, name))
            &&& event.called && argument is Some ==> (told matches ActionView::Settle {
                status,
                text,
                ..
            } && status is Completed && plan::invocation_text(invoke, argument) == Ok::<
                Seq<char>,
                Seq<char>,
            >(text))
        },
{
    if let StepPlan::Called { name, argument, invoke } = turn.steps[index as int] {
        let text = name + ": failed"@;
        assert(text.take(name.len() as int) =~= name);
        if argument is Some {
            plan::calls_go_to_their_tools(invoke, argument->0);
        }
    }
}

/// The input of a call names what it is of.
pub proof fn inputs_name_their_tool(name: Seq<char>, seed: nat, index: nat)
    ensures
        search::starts_with(
            simulated_input(name, seed, index),
            "{\"tool\":"@ + json::quoted(name) + ",\"prompt_seed\":"@ + number::decimal(seed),
        ),
        search::ends_with(
            simulated_input(name, seed, index),
            ",\"step_index\":"@ + number::decimal(index) + "}"@,
        ),
        argument_input(name) == "{\"argument\":"@ + json::quoted(name) + "}"@,
{
    let text = simulated_input(name, seed, index);
    let head = "{\"tool\":"@ + json::quoted(name) + ",\"prompt_seed\":"@ + number::decimal(seed);
    let tail = ",\"step_index\":"@ + number::decimal(index) + "}"@;
    assert(text.take(head.len() as int) =~= head);
    assert(text.skip(text.len() - tail.len()) =~= tail);
}

} // verus!
