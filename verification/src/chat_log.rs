//! Append-only chat history: user and agent text, session notices, and tool
//! clusters, which may interleave thoughts and tool calls, in the order in
//! which they occurred.

use vstd::prelude::*;
use vstd::slice::slice_subrange;

use crate::text::chars;

verus! {

/// Progress of a tool call.
#[derive(Debug, Clone, Copy, PartialEq, Eq, Structural)]
pub enum Status {
    Pending,
    Running,
    Done,
    Failed,
}

/// Text sent by the user.
#[derive(Debug, Clone, PartialEq, Eq)]
pub struct UserMessage {
    pub text: String,
}

/// Text produced by the agent.
#[derive(Debug, Clone, PartialEq, Eq)]
pub struct AgentMessage {
    pub text: String,
}

/// Outcome of an interactive session.
#[derive(Debug, Clone, Copy, PartialEq, Eq, Structural)]
pub enum SessionNoticeKind {
    Error,
    Stopped,
}

/// A session outcome shown in the chat history.
#[derive(Debug, Clone, PartialEq, Eq)]
pub struct SessionNotice {
    pub kind: SessionNoticeKind,
    pub text: String,
}

/// The view moved on to the session of a workflow, the main one pausing.
#[derive(Debug, Clone, PartialEq, Eq)]
pub struct SessionTransition {
    pub workflow_name: String,
}

/// A single tool call within a [`ToolCluster`].
#[derive(Debug, Clone, PartialEq, Eq)]
pub struct ToolCallEntry {
    pub name: String,
    pub status: Status,
    pub parameters: Option<String>,
    pub result: Option<String>,
}

/// A single item within a [`ToolCluster`]: a thought, or a tool call.
#[derive(Debug, Clone, PartialEq, Eq)]
pub enum Step {
    Thought(String),
    ToolCall(ToolCallEntry),
}

/// A run of consecutive thoughts and tool calls, rendered as one collapsible
/// row. Any other message breaks it, so that it never spans unrelated turns.
#[derive(Debug, Clone, PartialEq, Eq)]
pub struct ToolCluster {
    steps: Vec<Step>,
    expanded: bool,
}

/// A single entry in the chat history.
#[derive(Debug, Clone, PartialEq, Eq)]
pub enum Message {
    User(UserMessage),
    Agent(AgentMessage),
    ToolCluster(ToolCluster),
    SessionNotice(SessionNotice),
    SessionTransition(SessionTransition),
}

/// Opaque handle to a [`Step`] or an agent message, returned where it was
/// pushed and consumed by the updates.
#[derive(Debug, Clone, Copy, PartialEq, Eq, Structural)]
pub struct EntryId {
    message_index: usize,
    step_index: usize,
}

/// Ordered chat history. Entries come in through the push methods alone, so
/// the stored [`Message`] variant always matches how it was inserted.
#[derive(Debug, Clone, PartialEq, Eq)]
pub struct ChatLog {
    messages: Vec<Message>,
}

/// A tool call as texts.
#[verifier::ext_equal]
pub struct CallView {
    pub name: Seq<char>,
    pub status: Status,
    pub parameters: Option<Seq<char>>,
    pub result: Option<Seq<char>>,
}

/// A step as texts.
#[verifier::ext_equal]
pub enum StepView {
    Thought(Seq<char>),
    ToolCall(CallView),
}

/// A cluster as the sequence of its steps.
#[verifier::ext_equal]
pub struct ClusterView {
    pub steps: Seq<StepView>,
    pub expanded: bool,
}

/// A message as texts.
#[verifier::ext_equal]
pub enum MessageView {
    User(Seq<char>),
    Agent(Seq<char>),
    ToolCluster(ClusterView),
    SessionNotice(SessionNoticeKind, Seq<char>),
    SessionTransition(Seq<char>),
}

impl View for ToolCallEntry {
    type V = CallView;

    open spec fn view(&self) -> CallView {
        CallView {
            name: self.name@,
            status: self.status,
            parameters: chars::optional_text(self.parameters),
            result: chars::optional_text(self.result),
        }
    }
}

impl View for Step {
    type V = StepView;

    open spec fn view(&self) -> StepView {
        match *self {
            Step::Thought(text) => StepView::Thought(text@),
            Step::ToolCall(entry) => StepView::ToolCall(entry@),
        }
    }
}

/// The steps of a cluster as texts.
pub open spec fn step_views(steps: Seq<Step>) -> Seq<StepView> {
    Seq::new(steps.len(), |i: int| steps[i]@)
}

impl View for ToolCluster {
    type V = ClusterView;

    closed spec fn view(&self) -> ClusterView {
        ClusterView { steps: step_views(self.steps@), expanded: self.expanded }
    }
}

impl View for Message {
    type V = MessageView;

    open spec fn view(&self) -> MessageView {
        match *self {
            Message::User(message) => MessageView::User(message.text@),
            Message::Agent(message) => MessageView::Agent(message.text@),
            Message::ToolCluster(cluster) => MessageView::ToolCluster(cluster@),
            Message::SessionNotice(notice) => MessageView::SessionNotice(notice.kind, notice.text@),
            Message::SessionTransition(transition) => MessageView::SessionTransition(
                transition.workflow_name@,
            ),
        }
    }
}

/// Messages as texts.
pub open spec fn message_views(messages: Seq<Message>) -> Seq<MessageView> {
    Seq::new(messages.len(), |i: int| messages[i]@)
}

impl View for ChatLog {
    type V = Seq<MessageView>;

    closed spec fn view(&self) -> Seq<MessageView> {
        message_views(self.messages@)
    }
}

impl View for EntryId {
    type V = (nat, nat);

    /// The position of the message, and of the step within it.
    closed spec fn view(&self) -> (nat, nat) {
        (self.message_index as nat, self.step_index as nat)
    }
}

/// Handles with the same position are the same.
pub proof fn lemma_entry_id_injective(left: EntryId, right: EntryId)
    requires
        left@ == right@,
    ensures
        left == right,
{
}

/// Whether a step is a tool call with a given status.
pub open spec fn has_status(step: StepView, status: Status) -> bool {
    step matches StepView::ToolCall(call) && call.status == status
}

/// Whether a tool call among the steps has a given status.
pub open spec fn any_status(steps: Seq<StepView>, status: Status) -> bool {
    exists|i: int| 0 <= i < steps.len() && has_status(#[trigger] steps[i], status)
}

/// The status of the tool calls taken together: running if any is running,
/// else failed if any failed, else pending if any is pending, else done.
pub open spec fn aggregate_status(steps: Seq<StepView>) -> Status {
    if any_status(steps, Status::Running) {
        Status::Running
    } else if any_status(steps, Status::Failed) {
        Status::Failed
    } else if any_status(steps, Status::Pending) {
        Status::Pending
    } else {
        Status::Done
    }
}

/// How many steps are tool calls.
pub open spec fn call_count(steps: Seq<StepView>) -> nat
    decreases steps.len(),
{
    if steps.len() == 0 {
        0
    } else {
        call_count(steps.drop_last()) + if steps.last() is ToolCall {
            1nat
        } else {
            0nat
        }
    }
}

/// How many steps of an unsettled cluster show while it is collapsed.
pub const LIVE_STEPS: usize = 3;

/// Whether a collapsed cluster still shows its newest steps.
pub open spec fn shows_live(cluster: ClusterView, keep_live: bool) -> bool {
    keep_live || aggregate_status(cluster.steps) is Pending || aggregate_status(
        cluster.steps,
    ) is Running
}

/// The steps that show under the summary line: all of an expanded cluster, the
/// newest of one that is live, and none of any other.
pub open spec fn shown_steps(cluster: ClusterView, keep_live: bool) -> Seq<StepView> {
    if cluster.expanded {
        cluster.steps
    } else if shows_live(cluster, keep_live) {
        if cluster.steps.len() > LIVE_STEPS {
            cluster.steps.skip(cluster.steps.len() - LIVE_STEPS)
        } else {
            cluster.steps
        }
    } else {
        Seq::empty()
    }
}

/// How many rows a cluster takes: the summary, a marker where steps are
/// hidden, and the steps that show. The summary stands alone where none does.
pub open spec fn row_count(cluster: ClusterView, keep_live: bool) -> nat {
    let shown = shown_steps(cluster, keep_live).len();
    if shown == 0 {
        1
    } else if cluster.steps.len() > shown {
        2 + shown
    } else {
        1 + shown
    }
}

impl ToolCluster {
    /// Thoughts and tool calls in this cluster, in insertion order.
    pub fn steps(&self) -> (steps: &[Step])
        ensures
            step_views(steps@) == self@.steps,
    {
        self.steps.as_slice()
    }

    /// Whether the cluster is showing its individual steps rather than just a
    /// summary line, regardless of [`Self::status`].
    pub fn expanded(&self) -> (expanded: bool)
        ensures
            expanded == self@.expanded,
    {
        self.expanded
    }

    /// Number of tool call steps in the cluster, thoughts excluded.
    pub fn tool_call_count(&self) -> (count: usize)
        ensures
            count == call_count(self@.steps),
    {
        let ghost all = self@.steps;
        let mut count: usize = 0;
        let mut i: usize = 0;
        assert(all.take(0).len() == 0);
        while i < self.steps.len()
            invariant
                all == step_views(self.steps@),
                i <= self.steps.len(),
                count <= i,
                count == call_count(all.take(i as int)),
            decreases self.steps.len() - i,
        {
            assert(all.take(i + 1).drop_last() =~= all.take(i as int));
            match &self.steps[i] {
                Step::ToolCall(_) => {
                    count = count + 1;
                },
                Step::Thought(_) => {},
            }
            i = i + 1;
        }
        assert(all.take(all.len() as int) =~= all);
        count
    }

    /// Aggregate status across the cluster's tool call steps. A cluster of
    /// thoughts alone is done.
    pub fn status(&self) -> (status: Status)
        ensures
            status == aggregate_status(self@.steps),
    {
        let ghost all = self@.steps;
        let mut aggregate = Status::Done;
        let mut i: usize = 0;
        while i < self.steps.len()
            invariant
                all == step_views(self.steps@),
                i <= self.steps.len(),
                forall|k: int| 0 <= k < i ==> !has_status(#[trigger] all[k], Status::Running),
                aggregate is Failed <==> exists|k: int|
                    0 <= k < i && has_status(#[trigger] all[k], Status::Failed),
                aggregate is Pending <==> (!(aggregate is Failed) && exists|k: int|
                    0 <= k < i && has_status(#[trigger] all[k], Status::Pending)),
                !(aggregate is Running),
            decreases self.steps.len() - i,
        {
            let ghost before = aggregate;
            assert(all[i as int] == self.steps@[i as int]@);
            match &self.steps[i] {
                Step::ToolCall(entry) => match entry.status {
                    Status::Running => {
                        assert(has_status(all[i as int], Status::Running));
                        return Status::Running;
                    },
                    Status::Failed => {
                        assert(has_status(all[i as int], Status::Failed));
                        aggregate = Status::Failed;
                    },
                    Status::Pending => {
                        assert(has_status(all[i as int], Status::Pending));
                        if aggregate != Status::Failed {
                            aggregate = Status::Pending;
                        }
                    },
                    Status::Done => {},
                },
                Step::Thought(_) => {},
            }
            i = i + 1;
        }
        aggregate
    }

    /// The steps rendered under the summary line. `keep_live` defers the
    /// collapse of a just-settled cluster while it is still the newest message.
    pub fn visible_steps(&self, keep_live: bool) -> (steps: &[Step])
        ensures
            step_views(steps@) == shown_steps(self@, keep_live),
    {
        let len: usize = self.steps.len();
        let all = self.steps.as_slice();
        if self.expanded {
            all
        } else {
            let status = self.status();
            if keep_live || status == Status::Pending || status == Status::Running {
                let start: usize = if len > LIVE_STEPS {
                    len - LIVE_STEPS
                } else {
                    0
                };
                let shown = slice_subrange(all, start, len);
                assert(step_views(shown@) =~= shown_steps(self@, keep_live));
                shown
            } else {
                let none = slice_subrange(all, 0, 0);
                assert(step_views(none@) =~= shown_steps(self@, keep_live));
                none
            }
        }
    }

    /// Number of rows this cluster renders as.
    pub fn visible_row_count(&self, keep_live: bool) -> (rows: usize)
        requires
            self@.steps.len() < usize::MAX,
        ensures
            rows == row_count(self@, keep_live),
    {
        let steps = self.visible_steps(keep_live);
        assert(step_views(steps@).len() == steps@.len());
        let shown: usize = steps.len();
        if shown == 0 {
            1
        } else if self.steps.len() > shown {
            2 + shown
        } else {
            1 + shown
        }
    }
}

/// The steps of the cluster at a place in the log, where there is one.
pub open spec fn cluster_at(log: Seq<MessageView>, index: int) -> Option<ClusterView> {
    if 0 <= index < log.len() {
        match log[index] {
            MessageView::ToolCluster(cluster) => Some(cluster),
            _ => None,
        }
    } else {
        None
    }
}

/// The step that a handle refers to, where it refers to one.
pub open spec fn step_at(log: Seq<MessageView>, id: (nat, nat)) -> Option<StepView> {
    match cluster_at(log, id.0 as int) {
        Some(cluster) => if id.1 < cluster.steps.len() {
            Some(cluster.steps[id.1 as int])
        } else {
            None
        },
        None => None,
    }
}

/// The tool call that a handle refers to, where it refers to one.
pub open spec fn call_at(log: Seq<MessageView>, id: (nat, nat)) -> Option<CallView> {
    match step_at(log, id) {
        Some(StepView::ToolCall(call)) => Some(call),
        _ => None,
    }
}

/// The log with one step of a cluster replaced.
pub open spec fn with_step(log: Seq<MessageView>, id: (nat, nat), step: StepView) -> Seq<
    MessageView,
> {
    match cluster_at(log, id.0 as int) {
        Some(cluster) => log.update(
            id.0 as int,
            MessageView::ToolCluster(
                ClusterView { steps: cluster.steps.update(id.1 as int, step), ..cluster },
            ),
        ),
        None => log,
    }
}

/// The log with one tool call replaced.
pub open spec fn with_call(log: Seq<MessageView>, id: (nat, nat), call: CallView) -> Seq<
    MessageView,
> {
    with_step(log, id, StepView::ToolCall(call))
}

/// The log with a step added: to the cluster at its end, or in a cluster of
/// its own.
pub open spec fn with_pushed_step(log: Seq<MessageView>, step: StepView) -> Seq<MessageView> {
    match cluster_at(log, log.len() - 1) {
        Some(cluster) => log.update(
            log.len() - 1,
            MessageView::ToolCluster(ClusterView { steps: cluster.steps.push(step), ..cluster }),
        ),
        None => log.push(
            MessageView::ToolCluster(ClusterView { steps: seq![step], expanded: false }),
        ),
    }
}

/// Where a step comes to stand that is pushed now.
pub open spec fn pushed_step_id(log: Seq<MessageView>) -> (nat, nat) {
    match cluster_at(log, log.len() - 1) {
        Some(cluster) => ((log.len() - 1) as nat, cluster.steps.len()),
        None => (log.len(), 0),
    }
}

/// A tool call as it is pushed.
pub open spec fn pending_call(name: Seq<char>, parameters: Option<Seq<char>>) -> CallView {
    CallView { name, status: Status::Pending, parameters, result: None }
}

/// The positions of the tool calls among the first steps of a cluster.
pub open spec fn call_positions(steps: Seq<StepView>) -> Seq<nat>
    decreases steps.len(),
{
    if steps.len() == 0 {
        Seq::empty()
    } else {
        let before = call_positions(steps.drop_last());
        if steps.last() is ToolCall {
            before.push((steps.len() - 1) as nat)
        } else {
            before
        }
    }
}

/// The positions that handles stand for.
pub open spec fn id_views(ids: Seq<EntryId>) -> Seq<(nat, nat)> {
    Seq::new(ids.len(), |i: int| ids[i]@)
}

/// The handles of a cluster's tool calls.
pub open spec fn call_ids(log: Seq<MessageView>, message_index: nat) -> Seq<(nat, nat)> {
    match cluster_at(log, message_index as int) {
        Some(cluster) => {
            let positions = call_positions(cluster.steps);
            Seq::new(positions.len(), |i: int| (message_index, positions[i]))
        },
        None => Seq::empty(),
    }
}

proof fn lemma_step_views_update(steps: Seq<Step>, index: int, step: Step)
    requires
        0 <= index < steps.len(),
    ensures
        step_views(steps.update(index, step)) == step_views(steps).update(index, step@),
{
    assert(step_views(steps.update(index, step)) =~= step_views(steps).update(index, step@));
}

proof fn lemma_message_views_update(messages: Seq<Message>, index: int, message: Message)
    requires
        0 <= index < messages.len(),
    ensures
        message_views(messages.update(index, message)) == message_views(messages).update(
            index,
            message@,
        ),
{
    assert(message_views(messages.update(index, message)) =~= message_views(messages).update(
        index,
        message@,
    ));
}

/// Putting a step in its own place changes nothing.
proof fn lemma_same_step(log: Seq<MessageView>, id: (nat, nat))
    requires
        step_at(log, id) is Some,
    ensures
        with_step(log, id, step_at(log, id)->0) == log,
{
    let cluster = cluster_at(log, id.0 as int)->0;
    assert(cluster.steps.update(id.1 as int, cluster.steps[id.1 as int]) =~= cluster.steps);
    assert(with_step(log, id, step_at(log, id)->0) =~= log);
}

impl Default for ChatLog {
    fn default() -> (log: Self)
        ensures
            log@ == Seq::<MessageView>::empty(),
    {
        let log = ChatLog { messages: Vec::new() };
        assert(log@ =~= Seq::<MessageView>::empty());
        log
    }
}

impl ChatLog {
    /// Creates an empty chat log.
    pub fn new() -> (log: Self)
        ensures
            log@ == Seq::<MessageView>::empty(),
    {
        ChatLog::default()
    }

    fn push(&mut self, message: Message)
        ensures
            final(self)@ == old(self)@.push(message@),
    {
        self.messages.push(message);
        assert(self@ =~= old(self)@.push(message@));
    }

    /// Appends a user message. Ends whatever tool cluster is currently open,
    /// so the next thought or tool call starts a fresh one.
    pub fn push_user(&mut self, text: &str)
        ensures
            final(self)@ == old(self)@.push(MessageView::User(text@)),
    {
        self.push(Message::User(UserMessage { text: text.to_owned() }));
    }

    /// Appends a session outcome and ends the current tool cluster.
    pub fn push_session_notice(&mut self, kind: SessionNoticeKind, text: &str)
        ensures
            final(self)@ == old(self)@.push(MessageView::SessionNotice(kind, text@)),
    {
        self.push(Message::SessionNotice(SessionNotice { kind, text: text.to_owned() }));
    }

    /// Marks that the view moved to another session, and ends the current
    /// tool cluster.
    pub fn push_session_transition(&mut self, workflow_name: &str)
        ensures
            final(self)@ == old(self)@.push(MessageView::SessionTransition(workflow_name@)),
    {
        self.push(
            Message::SessionTransition(
                SessionTransition { workflow_name: workflow_name.to_owned() },
            ),
        );
    }

    /// Appends an agent message. Ends whatever tool cluster is currently open,
    /// so the next thought or tool call starts a fresh one. The handle is for
    /// [`append_to_agent`](Self::append_to_agent).
    pub fn push_agent(&mut self, text: &str) -> (id: EntryId)
        ensures
            final(self)@ == old(self)@.push(MessageView::Agent(text@)),
            id@ == (old(self)@.len(), 0nat),
    {
        let id = EntryId { message_index: self.messages.len(), step_index: 0 };
        self.push(Message::Agent(AgentMessage { text: text.to_owned() }));
        id
    }

    /// Continues the agent message that a handle refers to. A no-op if it
    /// refers to no agent message.
    pub fn append_to_agent(&mut self, id: EntryId, text: &str)
        ensures
            id@.0 < old(self)@.len() && old(self)@[id@.0 as int] is Agent ==> final(self)@ == old(
                self,
            )@.update(
                id@.0 as int,
                MessageView::Agent(old(self)@[id@.0 as int]->Agent_0 + text@),
            ),
            !(id@.0 < old(self)@.len() && old(self)@[id@.0 as int] is Agent) ==> final(self)@
                == old(self)@,
    {
        let ghost before = self.messages@;
        let index: usize = id.message_index;
        if index < self.messages.len() {
            match &mut self.messages[index] {
                Message::Agent(message) => {
                    message.text.append(text);
                },
                _ => {},
            }
            proof {
                assert(old(self)@[index as int] == before[index as int]@);
                assert(self.messages@ =~= before.update(index as int, self.messages@[index as int]));
                lemma_message_views_update(before, index as int, self.messages@[index as int]);
                assert(self@ =~= old(self)@.update(index as int, self.messages@[index as int]@));
            }
        }
    }

    /// Appends a thought, joining the open cluster at the end of the log if
    /// there is one, or starting a new one otherwise. The handle is for
    /// [`append_to_thought`](Self::append_to_thought).
    pub fn push_thought(&mut self, text: &str) -> (id: EntryId)
        ensures
            final(self)@ == with_pushed_step(old(self)@, StepView::Thought(text@)),
            id@ == pushed_step_id(old(self)@),
    {
        self.push_step(Step::Thought(text.to_owned()))
    }

    /// Continues the thought that a handle refers to, behind a space. A no-op
    /// if it refers to no thought.
    pub fn append_to_thought(&mut self, id: EntryId, text: &str)
        ensures
            match step_at(old(self)@, id@) {
                Some(StepView::Thought(thought)) => final(self)@ == with_step(
                    old(self)@,
                    id@,
                    StepView::Thought(thought + " "@ + text@),
                ),
                _ => final(self)@ == old(self)@,
            },
    {
        match self.step_mut(id) {
            Some(Step::Thought(thought)) => {
                thought.append(" ");
                thought.append(text);
            },
            Some(Step::ToolCall(_)) => {
                proof {
                    lemma_same_step(old(self)@, id@);
                }
            },
            None => {},
        }
    }

    /// Appends a pending tool call, joining the open cluster at the end of the
    /// log if there is one, or starting a new one otherwise. Returns a handle
    /// for later updates.
    pub fn push_tool_call(&mut self, name: &str) -> (id: EntryId)
        ensures
            final(self)@ == with_pushed_step(
                old(self)@,
                StepView::ToolCall(pending_call(name@, None)),
            ),
            id@ == pushed_step_id(old(self)@),
    {
        self.push_tool_call_with_parameters(name, None)
    }

    /// Appends a pending tool call with optional audit parameters.
    pub fn push_tool_call_with_parameters(&mut self, name: &str, parameters: Option<String>) -> (id:
        EntryId)
        ensures
            final(self)@ == with_pushed_step(
                old(self)@,
                StepView::ToolCall(pending_call(name@, chars::optional_text(parameters))),
            ),
            id@ == pushed_step_id(old(self)@),
    {
        self.push_step(
            Step::ToolCall(
                ToolCallEntry {
                    name: name.to_owned(),
                    status: Status::Pending,
                    parameters,
                    result: None,
                },
            ),
        )
    }

    fn push_step(&mut self, step: Step) -> (id: EntryId)
        ensures
            final(self)@ == with_pushed_step(old(self)@, step@),
            id@ == pushed_step_id(old(self)@),
    {
        let ghost before = self.messages@;
        let len: usize = self.messages.len();
        if len > 0 {
            let index: usize = len - 1;
            match &mut self.messages[index] {
                Message::ToolCluster(cluster) => {
                    let ghost steps = cluster.steps@;
                    let step_index: usize = cluster.steps.len();
                    cluster.steps.push(step);
                    proof {
                        assert(step_views(cluster.steps@) =~= step_views(steps).push(step@));
                    }
                    proof {
                        assert(self.messages@ =~= before.update(
                            index as int,
                            self.messages@[index as int],
                        ));
                        lemma_message_views_update(
                            before,
                            index as int,
                            self.messages@[index as int],
                        );
                        assert(old(self)@[index as int] == before[index as int]@);
                        assert(self@ =~= with_pushed_step(old(self)@, step@));
                    }
                    return EntryId { message_index: index, step_index };
                },
                _ => {},
            }
            assert(self.messages@ =~= before);
            assert(old(self)@[index as int] == before[index as int]@);
        }
        let mut steps: Vec<Step> = Vec::new();
        steps.push(step);
        let cluster = ToolCluster { steps, expanded: false };
        assert(cluster@.steps =~= seq![step@]);
        self.push(Message::ToolCluster(cluster));
        EntryId { message_index: len, step_index: 0 }
    }

    /// The step that a handle refers to, for a change in place.
    fn step_mut(&mut self, id: EntryId) -> (step: Option<&mut Step>)
        ensures
            match step {
                Some(step) => {
                    &&& step_at(old(self)@, id@) == Some(step@)
                    &&& final(self)@ == with_step(old(self)@, id@, final(step)@)
                },
                None => step_at(old(self)@, id@) is None && final(self)@ == old(self)@,
            },
    {
        let ghost before = self.messages@;
        let index: usize = id.message_index;
        let position: usize = id.step_index;
        if index < self.messages.len() {
            assert(old(self)@[index as int] == before[index as int]@);
            proof {
                assert forall|message: Message| #[trigger]
                    message_views(before.update(index as int, message)) == message_views(
                        before,
                    ).update(index as int, message@) by {
                    lemma_message_views_update(before, index as int, message);
                }
            }
            match &mut self.messages[index] {
                Message::ToolCluster(cluster) => {
                    let ghost steps = cluster.steps@;
                    if position < cluster.steps.len() {
                        proof {
                            assert forall|step: Step| #[trigger]
                                step_views(steps.update(position as int, step)) == step_views(
                                    steps,
                                ).update(position as int, step@) by {
                                lemma_step_views_update(steps, position as int, step);
                            }
                        }
                        return Some(&mut cluster.steps[position]);
                    }
                },
                _ => {},
            }
        }
        None
    }

    /// Updates the parameters of the tool call step identified by `id`. A
    /// no-op if `id` refers to no tool call step.
    pub fn update_tool_call_parameters(&mut self, id: EntryId, parameters: String)
        ensures
            match call_at(old(self)@, id@) {
                Some(call) => final(self)@ == with_call(
                    old(self)@,
                    id@,
                    (CallView { parameters: Some(parameters@), ..call }),
                ),
                None => final(self)@ == old(self)@,
            },
    {
        match self.step_mut(id) {
            Some(Step::ToolCall(entry)) => {
                entry.parameters = Some(parameters);
            },
            Some(Step::Thought(_)) => {
                proof {
                    lemma_same_step(old(self)@, id@);
                }
            },
            None => {},
        }
    }

    /// Updates the result of the tool call step identified by `id`. A no-op if
    /// `id` refers to no tool call step.
    pub fn update_tool_call_result(&mut self, id: EntryId, result: String)
        ensures
            match call_at(old(self)@, id@) {
                Some(call) => final(self)@ == with_call(
                    old(self)@,
                    id@,
                    (CallView { result: Some(result@), ..call }),
                ),
                None => final(self)@ == old(self)@,
            },
    {
        match self.step_mut(id) {
            Some(Step::ToolCall(entry)) => {
                entry.result = Some(result);
            },
            Some(Step::Thought(_)) => {
                proof {
                    lemma_same_step(old(self)@, id@);
                }
            },
            None => {},
        }
    }

    /// Returns the tool call entry identified by `id`.
    pub fn tool_call(&self, id: EntryId) -> (entry: Option<&ToolCallEntry>)
        ensures
            match entry {
                Some(entry) => call_at(self@, id@) == Some(entry@),
                None => call_at(self@, id@) is None,
            },
    {
        if id.message_index < self.messages.len() {
            match &self.messages[id.message_index] {
                Message::ToolCluster(cluster) => {
                    if id.step_index < cluster.steps.len() {
                        match &cluster.steps[id.step_index] {
                            Step::ToolCall(entry) => {
                                return Some(entry);
                            },
                            Step::Thought(_) => {},
                        }
                    }
                },
                _ => {},
            }
        }
        None
    }

    /// Updates the status of the tool call step identified by `id`. A no-op if
    /// `id` refers to no tool call step.
    pub fn update_tool_call_status(&mut self, id: EntryId, status: Status)
        ensures
            match call_at(old(self)@, id@) {
                Some(call) => final(self)@ == with_call(
                    old(self)@,
                    id@,
                    (CallView { status, ..call }),
                ),
                None => final(self)@ == old(self)@,
            },
    {
        match self.step_mut(id) {
            Some(Step::ToolCall(entry)) => {
                entry.status = status;
            },
            Some(Step::Thought(_)) => {
                proof {
                    lemma_same_step(old(self)@, id@);
                }
            },
            None => {},
        }
    }

    /// Returns the tool call handles in a cluster in insertion order.
    pub fn tool_call_ids(&self, message_index: usize) -> (ids: Vec<EntryId>)
        ensures
            id_views(ids@) == call_ids(self@, message_index as nat),
    {
        let mut ids: Vec<EntryId> = Vec::new();
        if message_index < self.messages.len() {
            match &self.messages[message_index] {
                Message::ToolCluster(cluster) => {
                    let ghost all = cluster@.steps;
                    let mut i: usize = 0;
                    assert(all.take(0).len() == 0);
                    while i < cluster.steps.len()
                        invariant
                            all == step_views(cluster.steps@),
                            i <= cluster.steps.len(),
                            ids@.len() == call_positions(all.take(i as int)).len(),
                            forall|k: int|
                                0 <= k < ids@.len() ==> (#[trigger] ids@[k])@ == (
                                    message_index as nat,
                                    call_positions(all.take(i as int))[k],
                                ),
                        decreases cluster.steps.len() - i,
                    {
                        assert(all.take(i + 1).drop_last() =~= all.take(i as int));
                        match &cluster.steps[i] {
                            Step::ToolCall(_) => {
                                ids.push(EntryId { message_index, step_index: i });
                            },
                            Step::Thought(_) => {},
                        }
                        i = i + 1;
                    }
                    assert(all.take(all.len() as int) =~= all);
                },
                _ => {},
            }
        }
        assert(id_views(ids@) =~= call_ids(self@, message_index as nat));
        ids
    }

    /// Returns the step index for a tool call handle in a cluster.
    pub fn tool_call_step_index(&self, message_index: usize, id: EntryId) -> (step: Option<usize>)
        ensures
            step == (if id@.0 == message_index && cluster_at(
                self@,
                message_index as int,
            ) is Some {
                Some(id@.1 as usize)
            } else {
                None
            }),
    {
        if id.message_index == message_index && message_index < self.messages.len() {
            match &self.messages[message_index] {
                Message::ToolCluster(_) => Some(id.step_index),
                _ => None,
            }
        } else {
            None
        }
    }

    /// Toggles whether the tool cluster at `message_index` shows its
    /// individual steps. A no-op if there is no cluster at that index.
    pub fn toggle_cluster(&mut self, message_index: usize)
        ensures
            final(self)@ == toggled(old(self)@, message_index as int),
    {
        let ghost before = self.messages@;
        if message_index < self.messages.len() {
            match &mut self.messages[message_index] {
                Message::ToolCluster(cluster) => {
                    cluster.expanded = !cluster.expanded;
                },
                _ => {},
            }
            proof {
                let now = self.messages@[message_index as int];
                assert(self.messages@ =~= before.update(message_index as int, now));
                lemma_message_views_update(before, message_index as int, now);
                assert(self@ =~= old(self)@.update(message_index as int, now@));
                assert(self@ =~= toggled(old(self)@, message_index as int));
            }
        }
    }

    /// Number of messages in the log.
    pub fn len(&self) -> (len: usize)
        ensures
            len == self@.len(),
    {
        self.messages.len()
    }

    /// Whether the log has no messages.
    pub fn is_empty(&self) -> (empty: bool)
        ensures
            empty == (self@.len() == 0),
    {
        self.messages.len() == 0
    }

    /// Messages in insertion order.
    pub fn messages(&self) -> (messages: &[Message])
        ensures
            message_views(messages@) == self@,
    {
        self.messages.as_slice()
    }
}

/// The log with one cluster expanded where it was collapsed, and the other
/// way round.
pub open spec fn toggled(log: Seq<MessageView>, index: int) -> Seq<MessageView> {
    match cluster_at(log, index) {
        Some(cluster) => log.update(
            index,
            MessageView::ToolCluster(ClusterView { expanded: !cluster.expanded, ..cluster }),
        ),
        None => log,
    }
}

/// Whether a log keeps its shape: clusters are never empty, and never stand
/// next to each other.
pub open spec fn well_formed(log: Seq<MessageView>) -> bool {
    &&& forall|i: int|
        0 <= i < log.len() ==> (#[trigger] log[i] matches MessageView::ToolCluster(cluster)
            ==> cluster.steps.len() > 0)
    &&& forall|i: int, j: int|
        0 <= i && j == i + 1 && j < log.len() ==> !(#[trigger] log[i] is ToolCluster
            && #[trigger] log[j] is ToolCluster)
}

/// A log without entries is well formed.
pub proof fn empty_log_is_well_formed()
    ensures
        well_formed(Seq::empty()),
{
}

/// A message that is no cluster keeps the log well formed.
pub proof fn message_keeps_the_shape(log: Seq<MessageView>, message: MessageView)
    requires
        well_formed(log),
        !(message is ToolCluster),
    ensures
        well_formed(log.push(message)),
{
}

/// A pushed step keeps the log well formed.
pub proof fn step_keeps_the_shape(log: Seq<MessageView>, step: StepView)
    requires
        well_formed(log),
    ensures
        well_formed(with_pushed_step(log, step)),
{
    let after = with_pushed_step(log, step);
    assert forall|i: int, j: int|
        0 <= i && j == i + 1 && j < after.len() implies !(#[trigger] after[i] is ToolCluster
        && #[trigger] after[j] is ToolCluster) by {
        if j < log.len() {
            assert(!(log[i] is ToolCluster && log[j] is ToolCluster));
        }
    }
}

/// Changing a step, or expanding or collapsing a cluster, keeps the log well
/// formed.
pub proof fn change_keeps_the_shape(
    log: Seq<MessageView>,
    id: (nat, nat),
    step: StepView,
    index: int,
)
    requires
        well_formed(log),
        step_at(log, id) is Some,
    ensures
        well_formed(with_step(log, id, step)),
        well_formed(toggled(log, index)),
{
    let changed = with_step(log, id, step);
    assert forall|i: int, j: int|
        0 <= i && j == i + 1 && j < changed.len() implies !(#[trigger] changed[i] is ToolCluster
        && #[trigger] changed[j] is ToolCluster) by {
        assert(!(log[i] is ToolCluster && log[j] is ToolCluster));
    }
    let flipped = toggled(log, index);
    assert forall|i: int, j: int|
        0 <= i && j == i + 1 && j < flipped.len() implies !(#[trigger] flipped[i] is ToolCluster
        && #[trigger] flipped[j] is ToolCluster) by {
        assert(!(log[i] is ToolCluster && log[j] is ToolCluster));
    }
}

/// The log is append-only: a pushed step leaves every earlier message as it
/// was, and every earlier step of the cluster it joins.
pub proof fn pushing_a_step_keeps_what_was_there(log: Seq<MessageView>, step: StepView)
    ensures
        forall|i: int|
            0 <= i < log.len() - 1 ==> #[trigger] with_pushed_step(log, step)[i] == log[i],
        forall|id: (nat, nat)|
            step_at(log, id) is Some ==> #[trigger] step_at(with_pushed_step(log, step), id)
                == step_at(log, id),
        forall|i: int|
            0 <= i < log.len() && !(log[i] is ToolCluster) ==> #[trigger] with_pushed_step(
                log,
                step,
            )[i] == log[i],
{
}

/// A pushed message leaves all others, and the meaning of every handle, as
/// they were.
pub proof fn pushing_a_message_keeps_what_was_there(log: Seq<MessageView>, message: MessageView)
    ensures
        log.push(message).drop_last() == log,
        forall|id: (nat, nat)|
            step_at(log, id) is Some ==> #[trigger] step_at(log.push(message), id) == step_at(
                log,
                id,
            ),
{
    assert(log.push(message).drop_last() =~= log);
}

/// The handle of a pushed step refers to that step.
pub proof fn pushed_step_is_found(log: Seq<MessageView>, step: StepView)
    ensures
        step_at(with_pushed_step(log, step), pushed_step_id(log)) == Some(step),
{
}

/// The handle of a pushed step referred to nothing before, so that two steps
/// never share a handle.
pub proof fn pushed_step_id_is_new(log: Seq<MessageView>)
    ensures
        step_at(log, pushed_step_id(log)) is None,
{
}

/// A message between two steps puts them in two clusters.
pub proof fn message_ends_the_cluster(
    log: Seq<MessageView>,
    message: MessageView,
    step: StepView,
)
    requires
        !(message is ToolCluster),
    ensures
        with_pushed_step(log.push(message), step) == log.push(message).push(
            MessageView::ToolCluster(ClusterView { steps: seq![step], expanded: false }),
        ),
{
}

/// Two steps pushed one after the other stand in one cluster.
pub proof fn consecutive_steps_share_a_cluster(
    log: Seq<MessageView>,
    first: StepView,
    second: StepView,
)
    ensures
        pushed_step_id(with_pushed_step(log, first)).0 == pushed_step_id(log).0,
        pushed_step_id(with_pushed_step(log, first)).1 == pushed_step_id(log).1 + 1,
        with_pushed_step(with_pushed_step(log, first), second).len() == with_pushed_step(
            log,
            first,
        ).len(),
{
}

/// An update reaches the tool call that its handle refers to, and no other
/// step or message.
pub proof fn update_touches_its_target_alone(
    log: Seq<MessageView>,
    id: (nat, nat),
    call: CallView,
    other: (nat, nat),
)
    requires
        call_at(log, id) is Some,
        other != id,
    ensures
        call_at(with_call(log, id, call), id) == Some(call),
        step_at(with_call(log, id, call), other) == step_at(log, other),
        with_call(log, id, call).len() == log.len(),
        forall|i: int|
            0 <= i < log.len() && i != id.0 ==> #[trigger] with_call(log, id, call)[i] == log[i],
{
}

/// Toggling a cluster twice changes nothing.
pub proof fn toggling_twice_changes_nothing(log: Seq<MessageView>, index: int)
    ensures
        toggled(toggled(log, index), index) == log,
{
    assert(toggled(toggled(log, index), index) =~= log);
}

/// Toggling shows or hides steps, and changes none.
pub proof fn toggling_keeps_the_steps(log: Seq<MessageView>, index: int, id: (nat, nat))
    ensures
        step_at(toggled(log, index), id) == step_at(log, id),
{
}

/// The status of a cluster is what its tool calls come to: running as long as one
/// is running, failed where one has failed and none is running, and done only
/// where every one of them is done.
pub proof fn status_tells_the_worst(steps: Seq<StepView>, index: int)
    requires
        0 <= index < steps.len(),
    ensures
        steps[index] matches StepView::ToolCall(call) ==> {
            &&& call.status is Running ==> aggregate_status(steps) is Running
            &&& call.status is Failed ==> aggregate_status(steps) is Failed || aggregate_status(
                steps,
            ) is Running
            &&& call.status is Pending ==> !(aggregate_status(steps) is Done)
            &&& aggregate_status(steps) is Done ==> call.status is Done
        },
{
    if let StepView::ToolCall(call) = steps[index] {
        assert(has_status(steps[index], call.status));
    }
}

/// A cluster has a status other than done only where one of its tool calls has
/// it: one is running, or failed, or pending. Where a failed one stands beside
/// others that do not run, the cluster has failed.
pub proof fn status_comes_from_a_call(steps: Seq<StepView>)
    ensures
        !(aggregate_status(steps) is Done) ==> exists|i: int|
            0 <= i < steps.len() && (#[trigger] steps[i] matches StepView::ToolCall(call)
                && call.status == aggregate_status(steps)),
        (forall|i: int|
            0 <= i < steps.len() ==> (#[trigger] steps[i] matches StepView::ToolCall(call)
                ==> call.status is Done)) ==> aggregate_status(steps) is Done,
        (exists|i: int|
            0 <= i < steps.len() && (#[trigger] steps[i] matches StepView::ToolCall(call)
                && call.status is Failed)) && (forall|i: int|
            0 <= i < steps.len() ==> (#[trigger] steps[i] matches StepView::ToolCall(call)
                ==> !(call.status is Running))) ==> aggregate_status(steps) is Failed,
{
    let status = aggregate_status(steps);
    if !(status is Done) {
        let i = choose|i: int| 0 <= i < steps.len() && has_status(#[trigger] steps[i], status);
        assert(has_status(steps[i], status));
    }
    assert forall|i: int|
        0 <= i < steps.len() && (#[trigger] steps[i] matches StepView::ToolCall(call)
            && call.status is Failed) implies has_status(steps[i], Status::Failed) by {
    }
}

/// The handles of a cluster's tool calls are those of all its tool calls, in
/// order, and of nothing else; and there are as many as are counted.
pub proof fn every_call_has_its_place(steps: Seq<StepView>)
    ensures
        call_positions(steps).len() == call_count(steps),
        call_count(steps) <= steps.len(),
        forall|k: int|
            0 <= k < call_positions(steps).len() ==> (#[trigger] call_positions(steps)[k])
                < steps.len() && steps[call_positions(steps)[k] as int] is ToolCall,
        forall|j: int, k: int|
            0 <= j < k < call_positions(steps).len() ==> (#[trigger] call_positions(steps)[j])
                < (#[trigger] call_positions(steps)[k]),
        forall|i: int|
            0 <= i < steps.len() && #[trigger] steps[i] is ToolCall ==> call_positions(
                steps,
            ).contains(i as nat),
        (forall|i: int| 0 <= i < steps.len() ==> #[trigger] steps[i] is ToolCall) ==> call_count(
            steps,
        ) == steps.len(),
    decreases steps.len(),
{
    let all = call_positions(steps);
    if steps.len() > 0 {
        let less = steps.drop_last();
        let before = call_positions(less);
        every_call_has_its_place(less);
        assert forall|k: int| 0 <= k < all.len() implies (#[trigger] all[k]) < steps.len()
            && steps[all[k] as int] is ToolCall by {
            if k < before.len() {
                assert(all[k] == before[k]);
                assert(less[before[k] as int] == steps[before[k] as int]);
            }
        }
        assert forall|j: int, k: int| 0 <= j < k < all.len() implies (#[trigger] all[j]) < (
        #[trigger] all[k]) by {
            assert(all[j] == before[j]);
            if k < before.len() {
                assert(all[k] == before[k]);
            }
        }
        assert forall|i: int| 0 <= i < steps.len() && #[trigger] steps[i] is ToolCall implies
            all.contains(i as nat) by {
            if i < less.len() {
                assert(less[i] == steps[i]);
                assert(before.contains(i as nat));
                let k = choose|k: int| 0 <= k < before.len() && before[k] == i as nat;
                assert(all[k] == i as nat);
            } else {
                assert(all[before.len() as int] == i as nat);
            }
        }
        if forall|i: int| 0 <= i < steps.len() ==> #[trigger] steps[i] is ToolCall {
            assert forall|i: int| 0 <= i < less.len() implies #[trigger] less[i] is ToolCall by {
                assert(less[i] == steps[i]);
            }
        }
    }
}

/// Thoughts do not count as tool calls, and a tool call counts once.
pub proof fn calls_are_counted_once(steps: Seq<StepView>, step: StepView)
    ensures
        call_count(Seq::empty()) == 0,
        step is Thought ==> call_count(steps.push(step)) == call_count(steps),
        step is ToolCall ==> call_count(steps.push(step)) == call_count(steps) + 1,
{
    assert(steps.push(step).drop_last() =~= steps);
}

/// The newest steps of a cluster show, up to the last of them: all of them where
/// it is expanded, three at most where it is collapsed and still under way or
/// kept live, and none where it is collapsed and settled.
pub proof fn the_newest_steps_show(cluster: ClusterView, keep_live: bool)
    ensures
        shown_steps(cluster, keep_live).len() <= cluster.steps.len(),
        forall|k: int|
            0 <= k < shown_steps(cluster, keep_live).len() ==> #[trigger] shown_steps(
                cluster,
                keep_live,
            )[k] == cluster.steps[cluster.steps.len() - shown_steps(cluster, keep_live).len() + k],
        cluster.expanded ==> shown_steps(cluster, keep_live).len() == cluster.steps.len(),
        !cluster.expanded && (keep_live || aggregate_status(cluster.steps) is Running
            || aggregate_status(cluster.steps) is Pending) ==> shown_steps(cluster, keep_live).len()
            == (if cluster.steps.len() > 3 {
            3
        } else {
            cluster.steps.len()
        }),
        !cluster.expanded && !keep_live && (aggregate_status(cluster.steps) is Done
            || aggregate_status(cluster.steps) is Failed) ==> shown_steps(cluster, keep_live).len()
            == 0,
{
}

/// A cluster takes a row for its summary, one for each step that shows, and one
/// for a marker where some show and others do not.
pub proof fn rows_are_summary_marker_and_steps(cluster: ClusterView, keep_live: bool)
    ensures
        row_count(cluster, keep_live) == 1 + shown_steps(cluster, keep_live).len() + (if 0
            < shown_steps(cluster, keep_live).len() < cluster.steps.len() {
            1int
        } else {
            0
        }),
        cluster.expanded ==> row_count(cluster, keep_live) == 1 + cluster.steps.len(),
{
}

/// Toggling turns the cluster at its place, and nothing else.
pub proof fn toggling_turns_one_cluster(log: Seq<MessageView>, index: int)
    ensures
        toggled(log, index).len() == log.len(),
        forall|i: int|
            0 <= i < log.len() && i != index ==> #[trigger] toggled(log, index)[i] == log[i],
        0 <= index < log.len() ==> (log[index] matches MessageView::ToolCluster(cluster) ==> (
        toggled(log, index)[index] matches MessageView::ToolCluster(turned) && turned.expanded
            != cluster.expanded && turned.steps == cluster.steps)),
        0 <= index < log.len() && !(log[index] is ToolCluster) ==> toggled(log, index) == log,
{
}

/// A tool call starts as pending, under its name, with what it was called with
/// and no result; and the log tells so of it.
pub proof fn a_pushed_call_is_pending(
    log: Seq<MessageView>,
    name: Seq<char>,
    parameters: Option<Seq<char>>,
)
    ensures
        ({
            let after = with_pushed_step(log, StepView::ToolCall(pending_call(name, parameters)));
            call_at(after, pushed_step_id(log)) matches Some(call) && call.name == name
                && call.status is Pending && call.parameters == parameters && call.result is None
        }),
{
    pushed_step_is_found(log, StepView::ToolCall(pending_call(name, parameters)));
}

/// Steps, messages and handles are viewed one by one, in order.
pub proof fn views_keep_the_order(
    steps: Seq<Step>,
    messages: Seq<Message>,
    ids: Seq<EntryId>,
    index: int,
)
    ensures
        step_views(steps).len() == steps.len(),
        message_views(messages).len() == messages.len(),
        id_views(ids).len() == ids.len(),
        0 <= index < steps.len() ==> step_views(steps)[index] == steps[index]@,
        0 <= index < messages.len() ==> message_views(messages)[index] == messages[index]@,
        0 <= index < ids.len() ==> id_views(ids)[index] == ids[index]@,
{
}

} // verus!
