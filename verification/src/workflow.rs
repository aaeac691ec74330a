//! The workflows of the assistant: the main session, and the fix session that
//! a failed commit opens beside it.

use vstd::prelude::*;

use crate::bridge::{SessionEvent, SessionEventView, StopReason, StopView};
use crate::text::chars;
use crate::text::search;
use crate::wire::close_action;
use crate::wire::close_action::{CloseAction, CloseActionVerdict};
use crate::wire::commit_fix;
use crate::wire::commit_fix::{CommitFixRequest, CommitFixVerdict, RequestView};

verus! {

/// The name of the main workflow.
pub const MAIN_WORKFLOW: &'static str = "programming";

/// The name of the workflow that a fix session belongs to.
pub const COMMIT_FIX_WORKFLOW: &'static str = "commit-fix";

/// How many milliseconds an authorized Git action may take.
pub const CLOSE_ACTION_TIMEOUT: u64 = 30_000;

/// Which workflow is under way.
#[derive(Debug, Clone, Copy, PartialEq, Eq, Structural)]
pub enum Workflow {
    Main,
    OpeningFix,
    Fix,
}

/// The name of a workflow.
pub open spec fn workflow_name(workflow: Workflow) -> Seq<char> {
    match workflow {
        Workflow::Main => MAIN_WORKFLOW@,
        Workflow::OpeningFix => COMMIT_FIX_WORKFLOW@,
        Workflow::Fix => COMMIT_FIX_WORKFLOW@,
    }
}

impl Workflow {
    /// The name of the workflow.
    pub fn name(self) -> (name: &'static str)
        ensures
            name@ == workflow_name(self),
    {
        match self {
            Workflow::Main => MAIN_WORKFLOW,
            Workflow::OpeningFix => COMMIT_FIX_WORKFLOW,
            Workflow::Fix => COMMIT_FIX_WORKFLOW,
        }
    }
}

/// A look at the workflow under way.
#[derive(Debug, PartialEq, Eq)]
pub struct WorkflowView {
    workflow: Workflow,
}

impl View for WorkflowView {
    type V = Workflow;

    closed spec fn view(&self) -> Workflow {
        self.workflow
    }
}

impl WorkflowView {
    /// A view of a workflow.
    pub fn new(workflow: Workflow) -> (view: Self)
        ensures
            view@ == workflow,
    {
        WorkflowView { workflow }
    }

    /// The workflow that is seen.
    pub fn workflow(&self) -> (workflow: Workflow)
        ensures
            workflow == self@,
    {
        self.workflow
    }

    /// The name of the workflow that is seen.
    pub fn name(&self) -> (name: &'static str)
        ensures
            name@ == workflow_name(self@),
    {
        self.workflow.name()
    }
}

/// What the manager reports to the UI.
#[derive(Debug)]
pub enum WorkflowEvent {
    /// An event of a session, and the workflow that was entered with it.
    Session { workflow: Workflow, transition: Option<Workflow>, event: SessionEvent },
    /// A session ended.
    SessionEnded { workflow: Workflow },
}

/// What is to be done about an event.
#[derive(Debug)]
pub enum Step {
    /// Report the event.
    Report(WorkflowEvent),
    /// Send the prompt of the event to the session of its workflow, and report
    /// the event.
    Prompt(WorkflowEvent),
    /// Answer the request for a fix session, and cancel the turn of the main
    /// session where that is asked.
    AnswerFix { verdict: CommitFixVerdict, cancel_main: bool },
    /// Answer the request for a Git action.
    AnswerClose(CloseActionVerdict),
    /// Start the fix session that was asked for, and hand it to
    /// [`WorkflowManager::fix_started`].
    StartFix(CommitFixRequest),
    /// Nothing.
    Wait,
}

/// Decides, event by event, which session is active and what becomes of the
/// requests of the helper servers. `H` is the handle of a session.
#[derive(Debug)]
pub struct WorkflowManager<H> {
    main_ended: bool,
    main: H,
    fix: Option<H>,
    pending_fix: Option<CommitFixRequest>,
    /// Close-side Git action currently authorized and running, and the time
    /// in milliseconds at which it has to be done.
    close_pending: Option<(CloseAction, u64)>,
    view: WorkflowView,
}

/// The state of a manager.
#[verifier::ext_equal]
pub struct ManagerView<H> {
    pub main_ended: bool,
    pub main: H,
    pub fix: Option<H>,
    pub pending_fix: Option<RequestView>,
    pub close_pending: Option<(CloseAction, u64)>,
    pub workflow: Workflow,
}

impl<H> WorkflowManager<H> {
    /// The state of the manager.
    pub closed spec fn state(&self) -> ManagerView<H> {
        ManagerView {
            main_ended: self.main_ended,
            main: self.main,
            fix: self.fix,
            pending_fix: match self.pending_fix {
                Some(request) => Some(request@),
                None => None,
            },
            close_pending: self.close_pending,
            workflow: self.view@,
        }
    }
}

/// Whether a state is one that can come about: a fix session is there exactly
/// in its workflow, a request for one waits only while it is opening, and a
/// Git action runs only while a fix session is there.
pub open spec fn is_consistent<H>(state: ManagerView<H>) -> bool {
    &&& state.fix is Some <==> state.workflow is Fix
    &&& state.pending_fix is Some ==> state.workflow is OpeningFix
    &&& state.close_pending is Some ==> state.workflow is Fix
}

/// Whether an event of a workflow's session can come about in a state. One of
/// the fix session does only while there is one.
pub open spec fn can_come_from<H>(state: ManagerView<H>, workflow: Workflow) -> bool {
    is_consistent(state) && (workflow is Fix ==> state.workflow is Fix)
}

/// The state of a manager whose sessions have not done anything yet.
pub open spec fn initial_state<H>(main: H) -> ManagerView<H> {
    ManagerView {
        main_ended: false,
        main,
        fix: None,
        pending_fix: None,
        close_pending: None,
        workflow: Workflow::Main,
    }
}

/// The answer to a request for a fix session.
pub open spec fn fix_verdict<H>(state: ManagerView<H>) -> commit_fix::VerdictView {
    if state.workflow is Main {
        commit_fix::VerdictView::Opening
    } else {
        commit_fix::VerdictView::Ignored("a commit-fix workflow is already active"@)
    }
}

/// The state after a request for a fix session.
pub open spec fn after_fix_request<H>(state: ManagerView<H>, request: RequestView) -> ManagerView<
    H,
> {
    if state.workflow is Main {
        ManagerView { pending_fix: Some(request), workflow: Workflow::OpeningFix, ..state }
    } else {
        state
    }
}

/// The answer to a request for a Git action.
pub open spec fn close_verdict<H>(state: ManagerView<H>) -> close_action::VerdictView {
    if !(state.workflow is Fix) {
        close_action::VerdictView::Rejected("no fix session is active"@)
    } else if state.close_pending is Some {
        close_action::VerdictView::Rejected("another Git action is already being processed"@)
    } else {
        close_action::VerdictView::Authorized
    }
}

/// The time at which a Git action that starts now has to be done, as far as
/// times can be counted.
pub open spec fn deadline_from(now: u64) -> u64 {
    if now + CLOSE_ACTION_TIMEOUT <= u64::MAX {
        (now + CLOSE_ACTION_TIMEOUT) as u64
    } else {
        u64::MAX
    }
}

/// The state after a request for a Git action.
pub open spec fn after_close_request<H>(
    state: ManagerView<H>,
    action: CloseAction,
    now: u64,
) -> ManagerView<H> {
    if state.workflow is Fix && state.close_pending is None {
        ManagerView { close_pending: Some((action, deadline_from(now))), ..state }
    } else {
        state
    }
}

/// Whether the Git action that is running has run out of time.
pub open spec fn is_expired<H>(state: ManagerView<H>, now: u64) -> bool {
    state.close_pending matches Some((_, deadline)) && deadline <= now
}

/// The state after the end of a session.
pub open spec fn after_session_end<H>(state: ManagerView<H>, workflow: Workflow) -> ManagerView<H> {
    match workflow {
        Workflow::Main => ManagerView { main_ended: true, pending_fix: None, ..state },
        Workflow::Fix => ManagerView {
            fix: None,
            close_pending: None,
            workflow: Workflow::Main,
            ..state
        },
        Workflow::OpeningFix => state,
    }
}

/// The workflow that is entered by a change, where it is one.
pub open spec fn transition(from: Workflow, to: Workflow) -> Option<Workflow> {
    if from == to {
        None
    } else {
        Some(to)
    }
}

/// The first prompt of a fix session.
pub open spec fn seed_prompt(request: RequestView) -> Seq<char> {
    request.instructions + "\n\nCommit Amend Decision: "@ + (if request.amend {
        "yes"@
    } else {
        "no"@
    }) + "\n\n## TL;DR\n\n"@ + request.tldr + "\n\n## Why is this change needed?\n\n"@ + request.why
        + "\n\n## What does this change do?\n\n"@ + request.what
}

/// The prompt that tells the main session of the commit.
pub open spec fn done_prompt(commit_message: Seq<char>) -> Seq<char> {
    "## Commit message used\n\n"@ + commit_message
}

/// Whether an event of the main session is the one that a waiting fix session
/// is started at: the end of the turn.
pub open spec fn starts_fix<H>(state: ManagerView<H>, event: SessionEventView) -> bool {
    &&& event matches SessionEventView::Stopped(reason) && (reason is Cancelled
        || reason is EndTurn)
    &&& state.workflow is OpeningFix
    &&& state.pending_fix is Some
}

/// Whether a Git action that ran is the one that was authorized.
pub open spec fn is_pending<H>(state: ManagerView<H>, action: CloseAction) -> bool {
    state.close_pending matches Some((pending, _)) && pending == action
}

/// What an event of a session is reported as, where no workflow changes.
pub open spec fn is_plain_report(step: Step, workflow: Workflow, event: SessionEventView) -> bool {
    step matches Step::Report(WorkflowEvent::Session { workflow: of, transition, event: reported })
        && of == workflow && transition is None && reported@ == event
}

/// What a prompt is reported as.
pub open spec fn is_prompt_report(
    event: WorkflowEvent,
    workflow: Workflow,
    entered: Option<Workflow>,
    prompt: Seq<char>,
) -> bool {
    event matches WorkflowEvent::Session { workflow: of, transition, event: reported } && of
        == workflow && transition == entered && reported@ == SessionEventView::AutoPrompt(prompt)
}

/// What becomes of an event of the main session.
pub open spec fn is_main_step<H>(
    before: ManagerView<H>,
    event: SessionEventView,
    after: ManagerView<H>,
    step: Step,
) -> bool {
    match event {
        SessionEventView::CommitFix(request) => {
            &&& step matches Step::AnswerFix { verdict, cancel_main } && verdict@ == fix_verdict(
                before,
            ) && cancel_main == (fix_verdict(before) is Opening)
            &&& after == after_fix_request(before, request)
        },
        _ => if starts_fix(before, event) {
            &&& step matches Step::StartFix(request) && Some(request@) == before.pending_fix
            &&& after == (ManagerView { pending_fix: None, ..before })
        } else {
            &&& is_plain_report(step, Workflow::Main, event)
            &&& after == before
        },
    }
}

/// What becomes of an event of the fix session.
pub open spec fn is_fix_step<H>(
    before: ManagerView<H>,
    event: SessionEventView,
    now: u64,
    after: ManagerView<H>,
    step: Step,
) -> bool {
    match event {
        SessionEventView::CloseAction(action) => {
            &&& step matches Step::AnswerClose(verdict) && verdict@ == close_verdict(before)
            &&& after == after_close_request(before, action, now)
        },
        SessionEventView::CommitFixDone(commit_message) => {
            &&& step matches Step::Prompt(reported) && is_prompt_report(
                reported,
                Workflow::Main,
                transition(before.workflow, Workflow::Main),
                done_prompt(commit_message),
            )
            &&& after == (ManagerView {
                fix: None,
                close_pending: None,
                workflow: Workflow::Main,
                ..before
            })
        },
        SessionEventView::CloseActionOutcome { action, .. } => {
            &&& step is Wait
            &&& after == (if is_pending(before, action) {
                ManagerView { close_pending: None, ..before }
            } else {
                before
            })
        },
        _ => {
            &&& is_plain_report(step, Workflow::Fix, event)
            &&& after == before
        },
    }
}

/// What the manager is waiting for.
#[derive(Debug, Clone, Copy, PartialEq, Eq, Structural)]
pub struct Waits {
    /// For an event of the main session.
    pub main: bool,
    /// For an event of the fix session.
    pub fix: bool,
    /// For a time in milliseconds.
    pub deadline: Option<u64>,
}

impl<H> WorkflowManager<H> {
    /// Starts in the main workflow.
    pub fn new(main: H) -> (manager: Self)
        ensures
            manager.state() == initial_state(main),
            is_consistent(manager.state()),
    {
        WorkflowManager {
            main_ended: false,
            main,
            fix: None,
            pending_fix: None,
            close_pending: None,
            view: WorkflowView::new(Self::initial_workflow()),
        }
    }

    /// The workflow under way. The view is lent: no workflow is entered or left
    /// while it is held, so it shows none that is over.
    pub fn view(&self) -> (view: &WorkflowView)
        ensures
            view@ == self.state().workflow,
    {
        &self.view
    }

    /// The workflow that a manager starts in.
    pub fn initial_workflow() -> (workflow: Workflow)
        ensures
            workflow == Workflow::Main,
    {
        Workflow::Main
    }

    /// The session that prompts go to: the fix session where there is one.
    pub fn active_session(&self) -> (session: &H)
        ensures
            *session == (match self.state().fix {
                Some(fix) => fix,
                None => self.state().main,
            }),
    {
        match &self.fix {
            Some(fix) => fix,
            None => &self.main,
        }
    }

    /// The main session.
    pub fn main_session(&self) -> (session: &H)
        ensures
            *session == self.state().main,
    {
        &self.main
    }

    /// The fix session, where there is one.
    pub fn fix_session(&self) -> (session: Option<&H>)
        ensures
            match session {
                Some(session) => self.state().fix == Some(*session),
                None => self.state().fix is None,
            },
    {
        match &self.fix {
            Some(fix) => Some(fix),
            None => None,
        }
    }

    /// Whether the main session has ended.
    pub fn main_ended(&self) -> (ended: bool)
        ensures
            ended == self.state().main_ended,
    {
        self.main_ended
    }

    /// What to wait for next: events of the main session until it has ended,
    /// and of the fix session and for the end of its Git action while there is
    /// one.
    pub fn waits(&self) -> (waits: Waits)
        ensures
            waits == (Waits {
                main: !self.state().main_ended,
                fix: self.state().fix is Some,
                deadline: if self.state().fix is Some {
                    match self.state().close_pending {
                        Some((_, deadline)) => Some(deadline),
                        None => None,
                    }
                } else {
                    None
                },
            }),
    {
        Waits {
            main: !self.main_ended,
            fix: self.fix.is_some(),
            deadline: if self.fix.is_some() {
                match &self.close_pending {
                    Some((_, deadline)) => Some(*deadline),
                    None => None,
                }
            } else {
                None
            },
        }
    }

    fn set_workflow(&mut self, workflow: Workflow) -> (entered: Option<Workflow>)
        ensures
            entered == transition(old(self).state().workflow, workflow),
            final(self).state() == (ManagerView { workflow, ..old(self).state() }),
    {
        let entered = if self.view.workflow == workflow {
            None
        } else {
            Some(workflow)
        };
        self.view = WorkflowView::new(workflow);
        entered
    }

    /// Records that a session ended.
    pub fn handle_session_end(&mut self, workflow: Workflow) -> (event: WorkflowEvent)
        ensures
            event == (WorkflowEvent::SessionEnded { workflow }),
            final(self).state() == after_session_end(old(self).state(), workflow),
            can_come_from(old(self).state(), workflow) ==> is_consistent(final(self).state()),
    {
        match workflow {
            Workflow::Main => {
                self.main_ended = true;
                self.pending_fix = None;
            },
            Workflow::Fix => {
                self.fix = None;
                self.close_pending = None;
                let _ = self.set_workflow(Workflow::Main);
            },
            Workflow::OpeningFix => {},
        }
        WorkflowEvent::SessionEnded { workflow }
    }

    /// Decides on a request for a fix session. While one is opening or active,
    /// a further request is ignored and changes nothing.
    pub fn request_fix(&mut self, request: CommitFixRequest) -> (verdict: CommitFixVerdict)
        ensures
            verdict@ == fix_verdict(old(self).state()),
            final(self).state() == after_fix_request(old(self).state(), request@),
            is_consistent(old(self).state()) ==> is_consistent(final(self).state()),
    {
        if self.view.workflow != Workflow::Main {
            return CommitFixVerdict::Ignored {
                reason: "a commit-fix workflow is already active".to_owned(),
            };
        }
        self.pending_fix = Some(request);
        let _ = self.set_workflow(Workflow::OpeningFix);
        CommitFixVerdict::Opening
    }

    /// Gates a close-side Git action: only one attempt at a time, and only
    /// while a fix session is active. `now` is a time in milliseconds.
    pub fn request_close_action(&mut self, action: CloseAction, now: u64) -> (verdict:
        CloseActionVerdict)
        ensures
            verdict@ == close_verdict(old(self).state()),
            final(self).state() == after_close_request(old(self).state(), action, now),
            is_consistent(old(self).state()) ==> is_consistent(final(self).state()),
    {
        if self.view.workflow != Workflow::Fix {
            return CloseActionVerdict::Rejected { reason: "no fix session is active".to_owned() };
        }
        if self.close_pending.is_some() {
            return CloseActionVerdict::Rejected {
                reason: "another Git action is already being processed".to_owned(),
            };
        }
        let deadline: u64 = if now <= u64::MAX - CLOSE_ACTION_TIMEOUT {
            now + CLOSE_ACTION_TIMEOUT
        } else {
            u64::MAX
        };
        self.close_pending = Some((action, deadline));
        CloseActionVerdict::Authorized
    }

    /// Lets the next Git action in where the pending one has run out of time.
    pub fn expire_close_action(&mut self, now: u64) -> (expired: bool)
        ensures
            expired == is_expired(old(self).state(), now),
            final(self).state() == (if expired {
                ManagerView { close_pending: None, ..old(self).state() }
            } else {
                old(self).state()
            }),
            is_consistent(old(self).state()) ==> is_consistent(final(self).state()),
    {
        let expired = match &self.close_pending {
            Some((_, deadline)) => *deadline <= now,
            None => false,
        };
        if expired {
            self.close_pending = None;
        }
        expired
    }

    /// Decides on an event of a session, or on its end. `now` is a time in
    /// milliseconds.
    pub fn handle_event(&mut self, workflow: Workflow, event: Option<SessionEvent>, now: u64) -> (step:
        Step)
        requires
            !(workflow is OpeningFix),
        ensures
            can_come_from(old(self).state(), workflow) ==> is_consistent(final(self).state()),
            match event {
                None => {
                    &&& step == Step::Report(WorkflowEvent::SessionEnded { workflow })
                    &&& final(self).state() == after_session_end(old(self).state(), workflow)
                },
                Some(event) => if workflow is Main {
                    is_main_step(old(self).state(), event@, final(self).state(), step)
                } else {
                    is_fix_step(old(self).state(), event@, now, final(self).state(), step)
                },
            },
    {
        match event {
            None => Step::Report(self.handle_session_end(workflow)),
            Some(event) => if workflow == Workflow::Main {
                self.handle_main_event(event)
            } else {
                self.handle_fix_event(event, now)
            },
        }
    }

    fn handle_main_event(&mut self, event: SessionEvent) -> (step: Step)
        ensures
            is_consistent(old(self).state()) ==> is_consistent(final(self).state()),
            is_main_step(old(self).state(), event@, final(self).state(), step),
    {
        match event {
            SessionEvent::CommitFix(request) => {
                let verdict = self.request_fix(request);
                let cancel_main = match &verdict {
                    CommitFixVerdict::Opening => true,
                    _ => false,
                };
                Step::AnswerFix { verdict, cancel_main }
            },
            event => {
                let turn_ended = match &event {
                    SessionEvent::Stopped(StopReason::Cancelled) => true,
                    SessionEvent::Stopped(StopReason::EndTurn) => true,
                    _ => false,
                };
                if turn_ended && self.view.workflow == Workflow::OpeningFix {
                    match self.pending_fix.take() {
                        Some(request) => {
                            return Step::StartFix(request);
                        },
                        None => {},
                    }
                }
                Step::Report(
                    WorkflowEvent::Session { workflow: Workflow::Main, transition: None, event },
                )
            },
        }
    }

    fn handle_fix_event(&mut self, event: SessionEvent, now: u64) -> (step: Step)
        ensures
            can_come_from(old(self).state(), Workflow::Fix) ==> is_consistent(final(self).state()),
            is_fix_step(old(self).state(), event@, now, final(self).state(), step),
    {
        match event {
            SessionEvent::CloseAction(action) => {
                Step::AnswerClose(self.request_close_action(action, now))
            },
            SessionEvent::CommitFixDone { commit_message } => {
                self.fix = None;
                self.close_pending = None;
                let mut prompt = "## Commit message used\n\n".to_owned();
                prompt.append(commit_message.as_str());
                Step::Prompt(self.send_prompt(Workflow::Main, prompt))
            },
            SessionEvent::CloseActionOutcome { action, success, reason } => {
                let released = match &self.close_pending {
                    Some((pending, _)) => *pending == action,
                    None => false,
                };
                if released {
                    self.close_pending = None;
                }
                Step::Wait
            },
            event => Step::Report(
                WorkflowEvent::Session { workflow: Workflow::Fix, transition: None, event },
            ),
        }
    }

    /// Enters a workflow with a prompt to its session.
    pub fn send_prompt(&mut self, workflow: Workflow, prompt: String) -> (event: WorkflowEvent)
        ensures
            is_prompt_report(
                event,
                workflow,
                transition(old(self).state().workflow, workflow),
                prompt@,
            ),
            final(self).state() == (ManagerView { workflow, ..old(self).state() }),
    {
        let transition = self.set_workflow(workflow);
        WorkflowEvent::Session { workflow, transition, event: SessionEvent::AutoPrompt(prompt) }
    }

    /// Takes over the fix session that was started for a request. Its first
    /// prompt is in the event that is returned.
    pub fn fix_started(&mut self, request: &CommitFixRequest, fix: H) -> (event: WorkflowEvent)
        ensures
            is_prompt_report(
                event,
                Workflow::Fix,
                transition(old(self).state().workflow, Workflow::Fix),
                seed_prompt(request@),
            ),
            event matches WorkflowEvent::Session { workflow, event: reported, .. } && workflow
                == Workflow::Fix && (reported@ matches SessionEventView::AutoPrompt(prompt)
                && search::starts_with(
                prompt,
                request.instructions@ + (if request.amend {
                    "\n\nCommit Amend Decision: yes\n"@
                } else {
                    "\n\nCommit Amend Decision: no\n"@
                }),
            )),
            final(self).state() == (ManagerView {
                fix: Some(fix),
                workflow: Workflow::Fix,
                ..old(self).state()
            }),
            is_consistent(old(self).state()) && old(self).state().pending_fix is None
                ==> is_consistent(final(self).state()),
    {
        let mut prompt = request.instructions.clone();
        prompt.append("\n\nCommit Amend Decision: ");
        prompt.append(
            if request.amend {
                "yes"
            } else {
                "no"
            },
        );
        prompt.append("\n\n## TL;DR\n\n");
        prompt.append(request.tldr.as_str());
        prompt.append("\n\n## Why is this change needed?\n\n");
        prompt.append(request.why.as_str());
        prompt.append("\n\n## What does this change do?\n\n");
        prompt.append(request.what.as_str());
        proof {
            first_prompt_tells_the_request(request@);
        }
        let event = self.send_prompt(Workflow::Fix, prompt);
        self.fix = Some(fix);
        event
    }
}

/// A request for a Git action gets one answer, which tells why it is rejected
/// where it is: without a fix session, or while another action is running. A
/// rejection changes nothing; an authorized action becomes the pending one, and
/// nothing else changes.
pub proof fn close_requests_are_answered<H>(state: ManagerView<H>, action: CloseAction, now: u64)
    ensures
        ({
            let after = after_close_request(state, action, now);
            &&& after.workflow == state.workflow
            &&& match close_verdict(state) {
                close_action::VerdictView::Rejected(reason) => {
                    &&& after == state
                    &&& reason == (if state.workflow is Fix {
                        "another Git action is already being processed"@
                    } else {
                        "no fix session is active"@
                    })
                    &&& state.workflow is Fix ==> state.close_pending is Some
                },
                close_action::VerdictView::Authorized => {
                    &&& state.workflow is Fix && state.close_pending is None
                    &&& after == (ManagerView { close_pending: after.close_pending, ..state })
                    &&& is_pending(after, action)
                    &&& close_verdict(after) is Rejected
                },
            }
        }),
{
}

/// An accepted request for a fix session, and no other, cancels the turn of the
/// main session.
pub proof fn opening_cancels_the_turn<H>(
    before: ManagerView<H>,
    request: RequestView,
    after: ManagerView<H>,
    step: Step,
)
    requires
        is_main_step(before, SessionEventView::CommitFix(request), after, step),
    ensures
        step is AnswerFix,
        step->cancel_main <==> before.workflow is Main,
        step->cancel_main <==> step->verdict@ is Opening,
        step->cancel_main ==> after.workflow is OpeningFix && after.pending_fix == Some(request),
{
}

/// At most one Git action is authorized at a time: after one was, every other
/// request is rejected and changes nothing.
pub proof fn one_action_at_a_time<H>(
    state: ManagerView<H>,
    first: CloseAction,
    second: CloseAction,
    now: u64,
    later: u64,
)
    requires
        close_verdict(state) is Authorized,
    ensures
        close_verdict(after_close_request(state, first, now)) is Rejected,
        after_close_request(after_close_request(state, first, now), second, later)
            == after_close_request(state, first, now),
        is_pending(after_close_request(state, first, now), first),
{
}

/// A Git action is authorized only in the workflow of a fix session.
pub proof fn actions_need_a_fix_session<H>(state: ManagerView<H>)
    ensures
        close_verdict(state) is Authorized ==> state.workflow is Fix && state.close_pending is None,
        !(state.workflow is Fix) ==> close_verdict(state) is Rejected,
{
}

/// An authorized Git action expires when its time is over, and not before.
pub proof fn action_expires_at_its_deadline<H>(
    state: ManagerView<H>,
    action: CloseAction,
    now: u64,
    later: u64,
)
    requires
        close_verdict(state) is Authorized,
    ensures
        is_expired(after_close_request(state, action, now), later) <==> later >= deadline_from(now),
        now + CLOSE_ACTION_TIMEOUT <= u64::MAX ==> deadline_from(now) == now
            + CLOSE_ACTION_TIMEOUT,
{
}

/// A second request for a fix session is ignored and leaves the state alone.
pub proof fn second_fix_request_is_ignored<H>(
    state: ManagerView<H>,
    first: RequestView,
    second: RequestView,
)
    ensures
        fix_verdict(after_fix_request(state, first)) is Ignored,
        after_fix_request(after_fix_request(state, first), second) == after_fix_request(
            state,
            first,
        ),
{
}

/// However a fix session ends, the main workflow is under way again and no Git
/// action is left running.
pub proof fn fix_session_returns_to_main<H>(
    before: ManagerView<H>,
    commit_message: Seq<char>,
    now: u64,
    after: ManagerView<H>,
    step: Step,
)
    requires
        is_consistent(before),
        before.workflow is Fix,
        is_fix_step(before, SessionEventView::CommitFixDone(commit_message), now, after, step),
    ensures
        after.workflow is Main && after.fix is None && after.close_pending is None,
        after == after_session_end(before, Workflow::Fix),
{
}

/// The first prompt of a fix session starts with the instructions, right behind
/// which it tells whether to amend, and goes on with the summary, the reason and
/// the change, each under a heading of its own. Nothing else stands in it.
pub proof fn first_prompt_tells_the_request(request: RequestView)
    ensures
        request.amend ==> search::starts_with(
            seed_prompt(request),
            request.instructions + "\n\nCommit Amend Decision: yes\n"@,
        ),
        !request.amend ==> search::starts_with(
            seed_prompt(request),
            request.instructions + "\n\nCommit Amend Decision: no\n"@,
        ),
        search::ends_with(
            seed_prompt(request),
            "\n\n## TL;DR\n\n"@ + request.tldr + "\n\n## Why is this change needed?\n\n"@
                + request.why + "\n\n## What does this change do?\n\n"@ + request.what,
        ),
        seed_prompt(request).len() == request.instructions.len() + request.tldr.len()
            + request.why.len() + request.what.len() + 104 + (if request.amend {
            1int
        } else {
            0
        }),
{
    reveal_strlit("\n\nCommit Amend Decision: ");
    reveal_strlit("\n\nCommit Amend Decision: yes\n");
    reveal_strlit("\n\nCommit Amend Decision: no\n");
    reveal_strlit("yes");
    reveal_strlit("no");
    reveal_strlit("\n\n## TL;DR\n\n");
    reveal_strlit("\n\n## Why is this change needed?\n\n");
    reveal_strlit("\n\n## What does this change do?\n\n");
    let prompt = seed_prompt(request);
    let start = request.instructions + (if request.amend {
        "\n\nCommit Amend Decision: yes\n"@
    } else {
        "\n\nCommit Amend Decision: no\n"@
    });
    let end = "\n\n## TL;DR\n\n"@ + request.tldr + "\n\n## Why is this change needed?\n\n"@
        + request.why + "\n\n## What does this change do?\n\n"@ + request.what;
    assert(prompt.take(start.len() as int) =~= start);
    assert(prompt.skip(prompt.len() - end.len()) =~= end);
}

/// Requests that differ in their amend decision alone have different first
/// prompts.
pub proof fn prompts_differ_with_the_amend_decision(request: RequestView)
    ensures
        seed_prompt(RequestView { amend: true, ..request }) != seed_prompt(
            RequestView { amend: false, ..request },
        ),
{
    first_prompt_tells_the_request(RequestView { amend: true, ..request });
    first_prompt_tells_the_request(RequestView { amend: false, ..request });
}

/// The main workflow goes by one name, and that of a fix session by another from
/// the moment it is opening.
pub proof fn workflows_go_by_their_names()
    ensures
        workflow_name(Workflow::Main) == "programming"@,
        workflow_name(Workflow::Fix) == "commit-fix"@,
        workflow_name(Workflow::OpeningFix) == "commit-fix"@,
{
}

/// A fix session starts at the end of the turn in which it was asked for, whether
/// the turn came to its end or was cancelled; every other event of the main
/// session is passed on as it is and changes nothing.
pub proof fn fix_sessions_start_at_the_end_of_the_turn<H>(
    before: ManagerView<H>,
    event: SessionEventView,
    after: ManagerView<H>,
    step: Step,
)
    requires
        is_main_step(before, event, after, step),
        !(event is CommitFix),
    ensures
        ({
            let ended = event == SessionEventView::Stopped(StopView::EndTurn) || event
                == SessionEventView::Stopped(StopView::Cancelled);
            if ended && before.workflow is OpeningFix && before.pending_fix is Some {
                &&& step matches Step::StartFix(request) && request@ == before.pending_fix->0
                &&& after.pending_fix is None
                &&& after.workflow == before.workflow && after.fix == before.fix
            } else {
                &&& step matches Step::Report(
                    WorkflowEvent::Session { workflow, transition, event: told },
                ) && workflow is Main && transition is None && told@ == event
                &&& after == before
            }
        }),
{
}

/// The commit that closes a fix session is told to the main session, word for
/// word, and takes the view back to the main workflow; every event of the fix
/// session that is not about Git is passed on as it is.
pub proof fn fix_sessions_end_with_their_commit<H>(
    before: ManagerView<H>,
    event: SessionEventView,
    now: u64,
    after: ManagerView<H>,
    step: Step,
)
    requires
        before.workflow is Fix,
        is_fix_step(before, event, now, after, step),
    ensures
        event matches SessionEventView::CommitFixDone(commit_message) ==> (step matches Step::Prompt(
            WorkflowEvent::Session { workflow, transition, event: told },
        ) && workflow is Main && transition == Some(Workflow::Main) && (
        told@ matches SessionEventView::AutoPrompt(prompt) && search::ends_with(
            prompt,
            commit_message,
        ) && prompt.len() == commit_message.len() + 24)),
        event is Chunk || event is Thought || event is ToolCall || event is ToolCallUpdate
            || event is ModelChanged || event is PermissionRequest || event is Stopped
            || event is Error || event is CommitFix || event is Confetti || event is AutoPrompt
            ==> (step matches Step::Report(
            WorkflowEvent::Session { workflow, transition, event: told },
        ) && workflow is Fix && transition is None && told@ == event) && after == before,
{
    reveal_strlit("## Commit message used\n\n");
    if let SessionEventView::CommitFixDone(commit_message) = event {
        let prompt = done_prompt(commit_message);
        assert(prompt.skip(prompt.len() - commit_message.len()) =~= commit_message);
    }
}

/// A Git action that has run makes room for the next one; the report of another
/// does not.
pub proof fn an_action_that_ran_makes_room<H>(
    before: ManagerView<H>,
    action: CloseAction,
    success: bool,
    reason: Option<Seq<char>>,
    now: u64,
    after: ManagerView<H>,
    step: Step,
)
    requires
        before.workflow is Fix,
        is_fix_step(
            before,
            SessionEventView::CloseActionOutcome { action, success, reason },
            now,
            after,
            step,
        ),
    ensures
        step is Wait,
        before.close_pending matches Some((pending, _)) ==> {
            &&& pending == action ==> after.close_pending is None && close_verdict(after) is Authorized
            &&& pending != action ==> after == before
        },
        after.workflow is Fix && after.fix == before.fix,
{
}

/// A Git action has thirty seconds.
pub proof fn actions_have_half_a_minute(now: u64)
    ensures
        now <= u64::MAX - 30_000 ==> deadline_from(now) == now + 30_000,
        deadline_from(now) >= now,
{
}

/// The end of the main session is noted and takes the request that waits for it
/// with it, but leaves a fix session alone; the end of the fix session leaves the
/// main session alone.
pub proof fn sessions_end_each_for_itself<H>(state: ManagerView<H>)
    ensures
        ({
            let after = after_session_end(state, Workflow::Main);
            &&& after.main_ended && after.pending_fix is None
            &&& after.fix == state.fix && after.workflow == state.workflow && after.close_pending
                == state.close_pending && after.main == state.main
        }),
        ({
            let after = after_session_end(state, Workflow::Fix);
            &&& after.fix is None && after.close_pending is None && after.workflow is Main
            &&& after.main_ended == state.main_ended && after.main == state.main
                && after.pending_fix == state.pending_fix
        }),
{
}

/// A workflow is entered by leaving another.
pub proof fn workflows_are_entered_from_others(from: Workflow, to: Workflow)
    ensures
        from != to ==> transition(from, to) == Some(to),
        transition(to, to) is None,
{
}

/// A manager starts in the main workflow, with nothing under way.
pub proof fn managers_start_in_the_main_workflow<H>(main: H)
    ensures
        is_consistent(initial_state(main)),
        initial_state(main).workflow is Main,
        !initial_state(main).main_ended,
        initial_state(main).main == main,
        initial_state(main).fix is None,
        fix_verdict(initial_state(main)) is Opening,
        close_verdict(initial_state(main)) is Rejected,
{
}

} // verus!
