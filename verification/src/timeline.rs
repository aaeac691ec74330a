//! Append-only log of tool calls and agent thoughts, rendered as a vertical
//! timeline alongside the chat bubbles.

use vstd::prelude::*;

use crate::text::chars;

verus! {

/// Progress of a tool call. Thoughts are always [`Status::Done`].
#[derive(Debug, Clone, Copy, PartialEq, Eq, Structural)]
pub enum Status {
    Pending,
    Running,
    Done,
    Failed,
}

/// What kind of event a [`TimelineEntry`] represents.
#[derive(Debug, Clone, PartialEq, Eq)]
pub enum EntryKind {
    ToolCall { name: String },
    Thought,
}

/// A single entry in the timeline.
#[derive(Debug, Clone, PartialEq, Eq)]
pub struct TimelineEntry {
    pub kind: EntryKind,
    pub status: Status,
    pub lines: Vec<String>,
}

/// Opaque handle to a [`TimelineEntry`], returned by
/// [`TimelineLog::push_tool_call`] and consumed by
/// [`TimelineLog::update_tool_call_status`].
#[derive(Debug, Clone, Copy, PartialEq, Eq, Structural)]
pub struct EntryId(usize);

/// Ordered log of tool calls and thoughts. The only way to add entries is
/// through [`TimelineLog::push_tool_call`] and [`TimelineLog::push_thought`],
/// so the stored [`EntryKind`] always matches how it was inserted.
#[derive(Debug, Clone, PartialEq, Eq)]
pub struct TimelineLog {
    entries: Vec<TimelineEntry>,
}

/// An entry as texts: the name of a tool call, nothing for a thought.
#[verifier::ext_equal]
pub struct EntryView {
    pub tool: Option<Seq<char>>,
    pub status: Status,
    pub lines: Seq<Seq<char>>,
}

impl View for TimelineEntry {
    type V = EntryView;

    open spec fn view(&self) -> EntryView {
        EntryView {
            tool: match self.kind {
                EntryKind::ToolCall { name } => Some(name@),
                EntryKind::Thought => None,
            },
            status: self.status,
            lines: chars::texts(self.lines@),
        }
    }
}

/// Entries as texts.
pub open spec fn entry_views(entries: Seq<TimelineEntry>) -> Seq<EntryView> {
    Seq::new(entries.len(), |i: int| entries[i]@)
}

impl View for TimelineLog {
    type V = Seq<EntryView>;

    closed spec fn view(&self) -> Seq<EntryView> {
        entry_views(self.entries@)
    }
}

impl View for EntryId {
    type V = nat;

    closed spec fn view(&self) -> nat {
        self.0 as nat
    }
}

/// The log with the status of one tool call changed.
pub open spec fn with_status(log: Seq<EntryView>, id: nat, status: Status) -> Seq<EntryView> {
    if id < log.len() && log[id as int].tool is Some {
        log.update(id as int, EntryView { status, ..log[id as int] })
    } else {
        log
    }
}

impl Default for TimelineLog {
    fn default() -> (log: Self)
        ensures
            log@ == Seq::<EntryView>::empty(),
    {
        let log = TimelineLog { entries: Vec::new() };
        assert(log@ =~= Seq::<EntryView>::empty());
        log
    }
}

impl TimelineLog {
    /// Creates an empty timeline log.
    pub fn new() -> (log: Self)
        ensures
            log@ == Seq::<EntryView>::empty(),
    {
        TimelineLog::default()
    }

    /// Appends a pending tool call entry and returns a handle for later status
    /// updates via [`update_tool_call_status`](Self::update_tool_call_status).
    pub fn push_tool_call(&mut self, name: &str, lines: Vec<String>) -> (id: EntryId)
        ensures
            final(self)@ == old(self)@.push(
                (EntryView {
                    tool: Some(name@),
                    status: Status::Pending,
                    lines: chars::texts(lines@),
                }),
            ),
            id@ == old(self)@.len(),
    {
        let id = EntryId(self.entries.len());
        let entry = TimelineEntry {
            kind: EntryKind::ToolCall { name: name.to_owned() },
            status: Status::Pending,
            lines,
        };
        self.entries.push(entry);
        assert(self@ =~= old(self)@.push(entry@));
        id
    }

    /// Appends a thought entry with [`Status::Done`].
    pub fn push_thought(&mut self, lines: Vec<String>)
        ensures
            final(self)@ == old(self)@.push(
                (EntryView { tool: None, status: Status::Done, lines: chars::texts(lines@) }),
            ),
    {
        let entry = TimelineEntry { kind: EntryKind::Thought, status: Status::Done, lines };
        self.entries.push(entry);
        assert(self@ =~= old(self)@.push(entry@));
    }

    /// Updates the status of the tool call entry identified by `id`. A no-op
    /// if `id` refers to no such entry.
    pub fn update_tool_call_status(&mut self, id: EntryId, status: Status)
        ensures
            final(self)@ == with_status(old(self)@, id@, status),
    {
        let ghost before = self.entries@;
        let index: usize = id.0;
        if index < self.entries.len() {
            assert(old(self)@[index as int] == before[index as int]@);
            if let EntryKind::ToolCall { .. } = &self.entries[index].kind {
                let entry = &mut self.entries[index];
                entry.status = status;
                assert(self@ =~= with_status(old(self)@, id@, status));
            }
        }
    }

    /// Number of entries in the log.
    pub fn len(&self) -> (len: usize)
        ensures
            len == self@.len(),
    {
        self.entries.len()
    }

    /// Whether the log has no entries.
    pub fn is_empty(&self) -> (empty: bool)
        ensures
            empty == (self@.len() == 0),
    {
        self.entries.len() == 0
    }

    /// Entries in insertion order.
    pub fn entries(&self) -> (entries: &[TimelineEntry])
        ensures
            entry_views(entries@) == self@,
    {
        self.entries.as_slice()
    }
}

/// Whether every thought of a log is done.
pub open spec fn thoughts_are_done(log: Seq<EntryView>) -> bool {
    forall|i: int| 0 <= i < log.len() && (#[trigger] log[i]).tool is None ==> log[i].status is Done
}

/// Thoughts are always done: an empty log has none that is not, and they stay
/// done under every push of a tool call or a thought and every update.
pub proof fn thoughts_stay_done(
    log: Seq<EntryView>,
    name: Seq<char>,
    lines: Seq<Seq<char>>,
    id: nat,
    status: Status,
)
    requires
        thoughts_are_done(log),
    ensures
        thoughts_are_done(Seq::empty()),
        thoughts_are_done(
            log.push(EntryView { tool: Some(name), status: Status::Pending, lines }),
        ),
        thoughts_are_done(log.push(EntryView { tool: None, status: Status::Done, lines })),
        thoughts_are_done(with_status(log, id, status)),
{
}

/// A status update reaches the tool call of its handle and leaves every other
/// entry, and everything else of that one, as it was.
pub proof fn update_touches_its_target_alone(
    log: Seq<EntryView>,
    id: nat,
    status: Status,
    other: int,
)
    requires
        id < log.len(),
        log[id as int].tool is Some,
        0 <= other < log.len(),
    ensures
        with_status(log, id, status).len() == log.len(),
        with_status(log, id, status)[id as int].status == status,
        with_status(log, id, status)[other].tool == log[other].tool,
        with_status(log, id, status)[other].lines == log[other].lines,
        other != id ==> with_status(log, id, status)[other] == log[other],
{
}

/// An update of no tool call changes nothing.
pub proof fn updates_of_nothing_change_nothing(log: Seq<EntryView>, id: nat, status: Status)
    requires
        id >= log.len() || log[id as int].tool is None,
    ensures
        with_status(log, id, status) == log,
{
}

} // verus!
