//! The state of the terminal view: what it shows of a session, and where the
//! user is in it.

use vstd::prelude::*;

use crate::acp;
use crate::acp::ToolCallStatus;
use crate::bridge;
use crate::bridge::{
    PermissionOption, SessionEvent, SessionEventView, StopReason, StopView, ToolStatus,
};
use crate::bubble_layout::ScrollAnchor;
use crate::chat_log;
use crate::chat_log::{
    CallView, ChatLog, EntryId, MessageView, SessionNoticeKind, Status, StepView,
};
use crate::text::chars;
use crate::text::search;
use crate::text::text_map::TextMap;
use crate::text::words;
use crate::text::words::trimmed_start;
use crate::ui::confetti;
use crate::ui::confetti::Confetti;
use crate::ui::navigation;

verus! {

/// A permission request awaiting the user's decision.
#[derive(Debug)]
pub struct PendingPermission {
    pub options: Vec<PermissionOption>,
}

/// The state of the terminal view.
#[derive(Debug)]
pub struct App {
    pub chat_log: ChatLog,
    /// Where the viewport was anchored at the last redraw, resolved
    /// against the current layout so it survives bubble height changes
    /// (e.g. a tool cluster settling and collapsing) without jumping.
    pub scroll_anchor: Option<ScrollAnchor>,
    /// Unapplied row delta from PageUp/PageDown, consumed on the next
    /// redraw.
    pub pending_scroll_delta: i16,
    pub pending_permission: Option<PendingPermission>,
    /// Whether the view tracks new messages automatically. Disabled by
    /// navigating to older content; re-enabled via the End key.
    pub autoscroll: bool,
    pub should_quit: bool,
    pub tool_call_ids: TextMap<EntryId>,
    pub confetti: Option<Confetti>,
    pub spinner_phase: usize,
    /// Index of the tool cluster currently navigated via Ctrl+↑/↓, if any.
    /// `None` means the prompt has focus.
    pub focused_cluster: Option<usize>,
    pub focused_tool_call: Option<EntryId>,
    pub tool_call_popup: Option<EntryId>,
    pub log_popup: bool,
    pub log_popup_scroll: u16,
    pub tool_call_popup_scroll: u16,
    /// The entry ID of the last thought step, for live appending of subsequent
    /// thought chunks. Cleared when a non-Thought event arrives.
    pub last_thought_entry_id: Option<EntryId>,
    /// The entry ID of the last agent message, for live appending of subsequent
    /// speech chunks. Cleared when a non-Chunk event arrives.
    pub last_agent_message_entry_id: Option<EntryId>,
}

/// The state of the view as mathematical values. Of confetti it holds the
/// frame; where the pieces are is stated beside it.
#[verifier::ext_equal]
pub struct AppView {
    pub log: Seq<MessageView>,
    pub scroll_anchor: Option<ScrollAnchor>,
    pub pending_scroll_delta: i16,
    pub pending_permission: Option<Seq<(Seq<char>, Seq<char>)>>,
    pub autoscroll: bool,
    pub should_quit: bool,
    pub tool_call_ids: Map<Seq<char>, (nat, nat)>,
    pub confetti: Option<u8>,
    pub spinner_phase: usize,
    pub focused_cluster: Option<nat>,
    pub focused_tool_call: Option<(nat, nat)>,
    pub tool_call_popup: Option<(nat, nat)>,
    pub log_popup: bool,
    pub log_popup_scroll: u16,
    pub tool_call_popup_scroll: u16,
    pub last_thought: Option<(nat, nat)>,
    pub last_agent_message: Option<(nat, nat)>,
}

/// The options of a pending request.
pub open spec fn pending_options(pending: Option<PendingPermission>) -> Option<
    Seq<(Seq<char>, Seq<char>)>,
> {
    match pending {
        Some(pending) => Some(bridge::option_texts(pending.options@)),
        None => None,
    }
}

impl View for App {
    type V = AppView;

    open spec fn view(&self) -> AppView {
        AppView {
            log: self.chat_log@,
            scroll_anchor: self.scroll_anchor,
            pending_scroll_delta: self.pending_scroll_delta,
            pending_permission: pending_options(self.pending_permission),
            autoscroll: self.autoscroll,
            should_quit: self.should_quit,
            tool_call_ids: self.tool_call_ids@.map_values(|id: EntryId| id@),
            confetti: match self.confetti {
                Some(confetti) => Some(confetti.frame),
                None => None,
            },
            spinner_phase: self.spinner_phase,
            focused_cluster: navigation::place(self.focused_cluster),
            focused_tool_call: navigation::handle(self.focused_tool_call),
            tool_call_popup: navigation::handle(self.tool_call_popup),
            log_popup: self.log_popup,
            log_popup_scroll: self.log_popup_scroll,
            tool_call_popup_scroll: self.tool_call_popup_scroll,
            last_thought: navigation::handle(self.last_thought_entry_id),
            last_agent_message: navigation::handle(self.last_agent_message_entry_id),
        }
    }
}

/// The view of a session in which nothing has happened yet.
pub open spec fn initial_view() -> AppView {
    AppView {
        log: Seq::empty(),
        scroll_anchor: None,
        pending_scroll_delta: 0,
        pending_permission: None,
        autoscroll: true,
        should_quit: false,
        tool_call_ids: Map::empty(),
        confetti: None,
        spinner_phase: 0,
        focused_cluster: None,
        focused_tool_call: None,
        tool_call_popup: None,
        log_popup: false,
        log_popup_scroll: 0,
        tool_call_popup_scroll: 0,
        last_thought: None,
        last_agent_message: None,
    }
}

/// The status of a tool call in the log.
pub open spec fn status_of(status: ToolStatus) -> Status {
    match status {
        ToolStatus::Pending => Status::Pending,
        ToolStatus::Running => Status::Running,
        ToolStatus::Done => Status::Done,
        ToolStatus::Failed => Status::Failed,
    }
}

fn log_status(status: ToolStatus) -> (logged: Status)
    ensures
        logged == status_of(status),
{
    match status {
        ToolStatus::Pending => Status::Pending,
        ToolStatus::Running => Status::Running,
        ToolStatus::Done => Status::Done,
        ToolStatus::Failed => Status::Failed,
    }
}

/// Maps a tool call status of the protocol onto the chat log's
/// protocol-agnostic [`Status`]. One that is not known counts as pending.
pub fn map_tool_call_status(status: ToolCallStatus) -> (logged: Status)
    ensures
        logged == status_of(acp::tool_status_of(status)),
{
    log_status(status.tool_status())
}

/// Why a turn ended, in words.
pub open spec fn stop_text(reason: StopView) -> Seq<char> {
    match reason {
        StopView::Cancelled => "Session cancelled."@,
        StopView::MaxTokens => "Session stopped: maximum tokens reached."@,
        StopView::MaxTurnRequests => "Session stopped: maximum turn requests reached."@,
        StopView::Refusal => "Session stopped: agent refused the request."@,
        StopView::EndTurn => ""@,
        StopView::Other(text) => "Session stopped: "@ + text + "."@,
    }
}

/// Why a turn ended, in words.
pub fn stop_reason_text(reason: &StopReason) -> (text: String)
    ensures
        text@ == stop_text(reason@),
{
    match reason {
        StopReason::Cancelled => "Session cancelled.".to_owned(),
        StopReason::MaxTokens => "Session stopped: maximum tokens reached.".to_owned(),
        StopReason::MaxTurnRequests => {
            "Session stopped: maximum turn requests reached.".to_owned()
        },
        StopReason::Refusal => "Session stopped: agent refused the request.".to_owned(),
        StopReason::EndTurn => "".to_owned(),
        StopReason::Other(reason) => {
            let mut text = "Session stopped: ".to_owned();
            text.append(reason.as_str());
            text.append(".");
            text
        },
    }
}

/// The log with an agent message continued.
pub open spec fn with_more_speech(log: Seq<MessageView>, id: (nat, nat), text: Seq<char>) -> Seq<
    MessageView,
> {
    if id.0 < log.len() && log[id.0 as int] is Agent {
        log.update(id.0 as int, MessageView::Agent(log[id.0 as int]->Agent_0 + text))
    } else {
        log
    }
}

/// The log with a thought continued, behind a space.
pub open spec fn with_more_thought(log: Seq<MessageView>, id: (nat, nat), text: Seq<char>) -> Seq<
    MessageView,
> {
    match chat_log::step_at(log, id) {
        Some(StepView::Thought(thought)) => chat_log::with_step(
            log,
            id,
            StepView::Thought(thought + " "@ + text),
        ),
        _ => log,
    }
}

/// The log with what is known anew of a tool call.
pub open spec fn with_update(
    log: Seq<MessageView>,
    id: (nat, nat),
    status: Option<ToolStatus>,
    parameters: Option<Seq<char>>,
    result: Option<Seq<char>>,
) -> Seq<MessageView> {
    match chat_log::call_at(log, id) {
        Some(call) => chat_log::with_call(
            log,
            id,
            CallView {
                name: call.name,
                status: match status {
                    Some(status) => status_of(status),
                    None => call.status,
                },
                parameters: match parameters {
                    Some(parameters) => Some(parameters),
                    None => call.parameters,
                },
                result: match result {
                    Some(result) => Some(result),
                    None => call.result,
                },
            },
        ),
        None => log,
    }
}

/// The view with neither speech nor thought left to continue.
pub open spec fn interrupted(app: AppView) -> AppView {
    AppView { last_thought: None, last_agent_message: None, ..app }
}

/// The view after a chunk of speech. Blanks before the first words of a
/// message are dropped, and nothing comes of a chunk without any.
pub open spec fn after_chunk(app: AppView, chunk: Seq<char>) -> AppView {
    let text = if app.last_agent_message is None {
        words::trim_start(chunk)
    } else {
        chunk
    };
    if text.len() == 0 {
        app
    } else {
        match app.last_agent_message {
            Some(id) => AppView {
                log: with_more_speech(app.log, id, text),
                last_thought: None,
                ..app
            },
            None => AppView {
                log: app.log.push(MessageView::Agent(text)),
                last_thought: None,
                last_agent_message: Some((app.log.len(), 0)),
                ..app
            },
        }
    }
}

/// The view after a chunk of thought.
pub open spec fn after_thought(app: AppView, text: Seq<char>) -> AppView {
    match app.last_thought {
        Some(id) => AppView {
            log: with_more_thought(app.log, id, text),
            last_agent_message: None,
            ..app
        },
        None => AppView {
            log: chat_log::with_pushed_step(app.log, StepView::Thought(text)),
            last_thought: Some(chat_log::pushed_step_id(app.log)),
            last_agent_message: None,
            ..app
        },
    }
}

/// The view after an event. Of events about other sessions it shows nothing,
/// but what was being said or thought is not continued behind them.
pub open spec fn after_event(app: AppView, event: SessionEventView) -> AppView {
    match event {
        SessionEventView::Confetti => AppView { confetti: Some(0), ..interrupted(app) },
        SessionEventView::Chunk(text) => after_chunk(app, text),
        SessionEventView::Thought(text) => after_thought(app, text),
        SessionEventView::PermissionRequest { options, .. } => AppView {
            pending_permission: Some(options),
            ..interrupted(app)
        },
        SessionEventView::Stopped(reason) => if reason is EndTurn {
            interrupted(app)
        } else {
            AppView {
                log: app.log.push(
                    MessageView::SessionNotice(SessionNoticeKind::Stopped, stop_text(reason)),
                ),
                ..interrupted(app)
            }
        },
        SessionEventView::Error(error) => AppView {
            log: app.log.push(
                MessageView::SessionNotice(SessionNoticeKind::Error, "Session failed: "@ + error),
            ),
            ..interrupted(app)
        },
        SessionEventView::ToolCall { id, title, status, parameters, result } => AppView {
            log: chat_log::with_pushed_step(
                app.log,
                StepView::ToolCall(
                    CallView { name: title, status: status_of(status), parameters, result },
                ),
            ),
            tool_call_ids: app.tool_call_ids.insert(id, chat_log::pushed_step_id(app.log)),
            ..interrupted(app)
        },
        SessionEventView::ToolCallUpdate { id, status, parameters, result } => {
            if app.tool_call_ids.dom().contains(id) {
                AppView {
                    log: with_update(
                        app.log,
                        app.tool_call_ids[id],
                        status,
                        parameters,
                        result,
                    ),
                    ..interrupted(app)
                }
            } else {
                interrupted(app)
            }
        },
        _ => interrupted(app),
    }
}

proof fn lemma_pushed_call(log: Seq<MessageView>, call: CallView, changed: CallView)
    ensures
        ({
            let pushed = chat_log::with_pushed_step(log, StepView::ToolCall(call));
            let id = chat_log::pushed_step_id(log);
            &&& chat_log::call_at(pushed, id) == Some(call)
            &&& chat_log::with_call(pushed, id, changed) == chat_log::with_pushed_step(
                log,
                StepView::ToolCall(changed),
            )
        }),
{
    let pushed = chat_log::with_pushed_step(log, StepView::ToolCall(call));
    let id = chat_log::pushed_step_id(log);
    chat_log::pushed_step_is_found(log, StepView::ToolCall(call));
    let now = chat_log::with_pushed_step(log, StepView::ToolCall(changed));
    let cluster = chat_log::cluster_at(pushed, id.0 as int)->0;
    let other = chat_log::cluster_at(now, id.0 as int)->0;
    assert(cluster.steps.update(id.1 as int, StepView::ToolCall(changed)) =~= other.steps);
    assert(chat_log::with_call(pushed, id, changed) =~= now);
}

proof fn lemma_call_twice(log: Seq<MessageView>, id: (nat, nat), call: CallView, changed: CallView)
    requires
        chat_log::call_at(log, id) is Some,
    ensures
        chat_log::call_at(chat_log::with_call(log, id, call), id) == Some(call),
        chat_log::with_call(chat_log::with_call(log, id, call), id, changed) == chat_log::with_call(
            log,
            id,
            changed,
        ),
{
    let once = chat_log::with_call(log, id, call);
    let cluster = chat_log::cluster_at(log, id.0 as int)->0;
    let then = chat_log::cluster_at(once, id.0 as int)->0;
    assert(then.steps =~= cluster.steps.update(id.1 as int, StepView::ToolCall(call)));
    assert(then.steps.update(id.1 as int, StepView::ToolCall(changed)) =~= cluster.steps.update(
        id.1 as int,
        StepView::ToolCall(changed),
    ));
    assert(chat_log::with_call(once, id, changed) =~= chat_log::with_call(log, id, changed));
}

proof fn lemma_same_call(log: Seq<MessageView>, id: (nat, nat))
    requires
        chat_log::call_at(log, id) is Some,
    ensures
        chat_log::with_call(log, id, chat_log::call_at(log, id)->0) == log,
{
    let cluster = chat_log::cluster_at(log, id.0 as int)->0;
    assert(cluster.steps.update(id.1 as int, cluster.steps[id.1 as int]) =~= cluster.steps);
    assert(chat_log::with_call(log, id, chat_log::call_at(log, id)->0) =~= log);
}

impl App {
    /// Whether the focus is in the log and the confetti in its place.
    pub open spec fn well_formed(&self) -> bool {
        &&& self.focused_cluster matches Some(focused) ==> focused < self.chat_log@.len()
        &&& self.confetti matches Some(confetti) ==> confetti.well_formed()
    }

    /// The view of a session in which nothing has happened yet.
    pub fn new() -> (app: Self)
        ensures
            app.well_formed(),
            app@ == initial_view(),
    {
        let app = App {
            chat_log: ChatLog::new(),
            scroll_anchor: None,
            pending_scroll_delta: 0,
            pending_permission: None,
            autoscroll: true,
            should_quit: false,
            tool_call_ids: TextMap::new(),
            confetti: None,
            spinner_phase: 0,
            focused_cluster: None,
            focused_tool_call: None,
            tool_call_popup: None,
            log_popup: false,
            log_popup_scroll: 0,
            tool_call_popup_scroll: 0,
            last_thought_entry_id: None,
            last_agent_message_entry_id: None,
        };
        assert(app@ =~= initial_view());
        app
    }

    fn interrupt(&mut self)
        ensures
            final(self).confetti == old(self).confetti,
            final(self)@ == interrupted(old(self)@),
            old(self).well_formed() ==> final(self).well_formed(),
    {
        self.last_thought_entry_id = None;
        self.last_agent_message_entry_id = None;
    }

    fn handle_chunk(&mut self, chunk: &str)
        requires
            old(self).well_formed(),
        ensures
            final(self).confetti == old(self).confetti,
            final(self).well_formed(),
            final(self)@ == after_chunk(old(self)@, chunk@),
    {
        match self.last_agent_message_entry_id {
            Some(entry_id) => {
                if chunk.unicode_len() == 0 {
                    return;
                }
                self.last_thought_entry_id = None;
                self.chat_log.append_to_agent(entry_id, chunk);
            },
            None => {
                let text = trimmed_start(chunk);
                if text.as_str().unicode_len() == 0 {
                    return;
                }
                self.last_thought_entry_id = None;
                let entry_id = self.chat_log.push_agent(text.as_str());
                self.last_agent_message_entry_id = Some(entry_id);
            },
        }
    }

    fn handle_thought(&mut self, text: &str)
        requires
            old(self).well_formed(),
        ensures
            final(self).confetti == old(self).confetti,
            final(self).well_formed(),
            final(self)@ == after_thought(old(self)@, text@),
    {
        self.last_agent_message_entry_id = None;
        match self.last_thought_entry_id {
            Some(entry_id) => {
                self.chat_log.append_to_thought(entry_id, text);
            },
            None => {
                let entry_id = self.chat_log.push_thought(text);
                self.last_thought_entry_id = Some(entry_id);
            },
        }
    }

    fn handle_tool_call(
        &mut self,
        id: String,
        title: String,
        status: ToolStatus,
        parameters: Option<String>,
        result: Option<String>,
    )
        requires
            old(self).well_formed(),
        ensures
            final(self).confetti == old(self).confetti,
            final(self).well_formed(),
            final(self)@ == after_event(
                old(self)@,
                SessionEventView::ToolCall {
                    id: id@,
                    title: title@,
                    status,
                    parameters: chars::optional_text(parameters),
                    result: chars::optional_text(result),
                },
            ),
    {
        self.interrupt();
        let ghost log = self.chat_log@;
        let ghost pending = chat_log::pending_call(title@, chars::optional_text(parameters));
        let ghost known = CallView { status: status_of(status), ..pending };
        proof {
            lemma_pushed_call(log, pending, known);
            let text = chars::optional_text(result);
            if text is Some {
                lemma_pushed_call(log, known, CallView { result: text, ..known });
            }
        }
        let entry_id = self.chat_log.push_tool_call_with_parameters(title.as_str(), parameters);
        self.chat_log.update_tool_call_status(entry_id, log_status(status));
        if let Some(result) = result {
            self.chat_log.update_tool_call_result(entry_id, result);
        }
        self.tool_call_ids.insert(id, entry_id);
        assert(self@.tool_call_ids =~= old(self)@.tool_call_ids.insert(id@, entry_id@));
    }

    fn handle_tool_call_update(
        &mut self,
        id: &str,
        status: Option<ToolStatus>,
        parameters: Option<String>,
        result: Option<String>,
    )
        requires
            old(self).well_formed(),
        ensures
            final(self).confetti == old(self).confetti,
            final(self).well_formed(),
            final(self)@ == after_event(
                old(self)@,
                SessionEventView::ToolCallUpdate {
                    id: id@,
                    status,
                    parameters: chars::optional_text(parameters),
                    result: chars::optional_text(result),
                },
            ),
    {
        self.interrupt();
        if let Some(entry_id) = self.tool_call_ids.get(id) {
            let ghost log = self.chat_log@;
            let ghost at = entry_id@;
            proof {
                if chat_log::call_at(log, at) is Some {
                    let call = chat_log::call_at(log, at)->0;
                    lemma_same_call(log, at);
                    let first = CallView {
                        status: match status {
                            Some(status) => status_of(status),
                            None => call.status,
                        },
                        ..call
                    };
                    let second = CallView {
                        parameters: match chars::optional_text(parameters) {
                            Some(parameters) => Some(parameters),
                            None => call.parameters,
                        },
                        ..first
                    };
                    let third = CallView {
                        result: match chars::optional_text(result) {
                            Some(result) => Some(result),
                            None => call.result,
                        },
                        ..second
                    };
                    lemma_call_twice(log, at, first, second);
                    lemma_call_twice(log, at, second, third);
                }
            }
            if let Some(status) = status {
                self.chat_log.update_tool_call_status(entry_id, log_status(status));
            }
            if let Some(parameters) = parameters {
                self.chat_log.update_tool_call_parameters(entry_id, parameters);
            }
            if let Some(result) = result {
                self.chat_log.update_tool_call_result(entry_id, result);
            }
        }
    }

    /// Takes an event of the session.
    pub fn handle_session_event(&mut self, event: SessionEvent)
        requires
            old(self).well_formed(),
        ensures
            !(event is Confetti) ==> final(self).confetti == old(self).confetti,
            final(self).well_formed(),
            final(self)@ == after_event(old(self)@, event@),
    {
        match event {
            SessionEvent::Confetti => {
                self.interrupt();
                self.confetti = Some(Confetti::new());
            },
            SessionEvent::Chunk(text) => {
                self.handle_chunk(text.as_str());
            },
            SessionEvent::PermissionRequest { options, .. } => {
                self.interrupt();
                self.pending_permission = Some(PendingPermission { options });
            },
            SessionEvent::Stopped(reason) => {
                self.interrupt();
                match reason {
                    StopReason::EndTurn => {},
                    _ => {
                        let text = stop_reason_text(&reason);
                        self.chat_log.push_session_notice(
                            SessionNoticeKind::Stopped,
                            text.as_str(),
                        );
                    },
                }
            },
            SessionEvent::Error(error) => {
                self.interrupt();
                let mut text = "Session failed: ".to_owned();
                text.append(error.as_str());
                self.chat_log.push_session_notice(SessionNoticeKind::Error, text.as_str());
            },
            SessionEvent::Thought(text) => {
                self.handle_thought(text.as_str());
            },
            SessionEvent::ToolCall { id, title, status, parameters, result } => {
                self.handle_tool_call(id, title, status, parameters, result);
            },
            SessionEvent::ToolCallUpdate { id, status, parameters, result } => {
                self.handle_tool_call_update(id.as_str(), status, parameters, result);
            },
            _ => {
                self.interrupt();
            },
        }
    }

    /// Turns the spinner.
    pub fn tick_spinner(&mut self)
        requires
            old(self).well_formed(),
        ensures
            final(self).confetti == old(self).confetti,
            final(self).well_formed(),
            final(self)@ == (AppView {
                spinner_phase: (if old(self)@.spinner_phase == usize::MAX {
                    0
                } else {
                    old(self)@.spinner_phase + 1
                }) as usize,
                ..old(self)@
            }),
    {
        self.spinner_phase = if self.spinner_phase == usize::MAX {
            0
        } else {
            self.spinner_phase + 1
        };
    }

    /// Moves the confetti on, and sweeps it up when its time is over.
    pub fn tick_confetti(&mut self)
        requires
            old(self).well_formed(),
        ensures
            final(self).well_formed(),
            final(self)@ == (AppView {
                confetti: match old(self)@.confetti {
                    Some(frame) => if frame + 1 < confetti::DURATION {
                        Some((frame + 1) as u8)
                    } else {
                        None
                    },
                    None => None,
                },
                ..old(self)@
            }),
            final(self).confetti is Some ==> forall|i: int|
                0 <= i < confetti::PARTICLES ==> confetti::may_drift(
                    old(self).confetti->0.particles@[i],
                    #[trigger] final(self).confetti->0.particles@[i],
                ),
    {
        if let Some(mut confetti) = self.confetti.take() {
            if confetti.tick() {
                self.confetti = Some(confetti);
            }
        }
    }

    /// Marks that the session has ended before it took a prompt.
    pub fn prompt_not_sent(&mut self)
        requires
            old(self).well_formed(),
        ensures
            final(self).confetti == old(self).confetti,
            final(self).well_formed(),
            final(self)@ == (AppView {
                log: old(self)@.log.push(MessageView::Agent("[session closed]"@)),
                should_quit: true,
                ..old(self)@
            }),
    {
        let _ = self.chat_log.push_agent("[session closed]");
        self.should_quit = true;
    }
}

/// Whether every handle that the view holds leads where it should: the focus
/// to a cluster, the selection, the popup and the announced ids to a tool
/// call, and what is to be continued to speech and to a thought.
pub open spec fn is_consistent(app: AppView) -> bool {
    &&& app.focused_cluster matches Some(focused) ==> chat_log::cluster_at(
        app.log,
        focused as int,
    ) is Some
    &&& app.focused_tool_call matches Some(id) ==> chat_log::call_at(app.log, id) is Some
    &&& app.tool_call_popup matches Some(id) ==> chat_log::call_at(app.log, id) is Some
    &&& forall|id: Seq<char>| #[trigger]
        app.tool_call_ids.dom().contains(id) ==> chat_log::call_at(
            app.log,
            app.tool_call_ids[id],
        ) is Some
    &&& app.last_thought matches Some(id) ==> chat_log::step_at(app.log, id) matches Some(step)
        && step is Thought
    &&& app.last_agent_message matches Some(id) ==> id.0 < app.log.len()
        && app.log[id.0 as int] is Agent
}

/// Whether a log holds what another did: no message is gone or of another
/// kind, and no step is.
pub open spec fn continues(log: Seq<MessageView>, before: Seq<MessageView>) -> bool {
    &&& before.len() <= log.len()
    &&& forall|i: int|
        0 <= i < before.len() ==> (#[trigger] before[i] is Agent ==> log[i] is Agent)
    &&& forall|i: int|
        chat_log::cluster_at(before, i) is Some ==> #[trigger] chat_log::cluster_at(
            log,
            i,
        ) is Some
    &&& forall|id: (nat, nat)|
        chat_log::call_at(before, id) is Some ==> #[trigger] chat_log::call_at(log, id) is Some
    &&& forall|id: (nat, nat)|
        (chat_log::step_at(before, id) matches Some(step) && step is Thought) ==> (
        #[trigger] chat_log::step_at(log, id) matches Some(step) && step is Thought)
}

proof fn lemma_pushed_step_continues(log: Seq<MessageView>, step: StepView)
    ensures
        continues(chat_log::with_pushed_step(log, step), log),
{
    let now = chat_log::with_pushed_step(log, step);
    assert forall|id: (nat, nat)| chat_log::step_at(log, id) is Some implies #[trigger]
        chat_log::step_at(now, id) == chat_log::step_at(log, id) by {
        let steps = chat_log::cluster_at(log, id.0 as int)->0.steps;
        if id.0 == log.len() - 1 {
            assert(steps.push(step)[id.1 as int] == steps[id.1 as int]);
        }
    }
}

proof fn lemma_step_continues(log: Seq<MessageView>, at: (nat, nat), step: StepView)
    requires
        chat_log::step_at(log, at) matches Some(before) && (before is Thought <==> step is Thought),
    ensures
        continues(chat_log::with_step(log, at, step), log),
{
    let now = chat_log::with_step(log, at, step);
    let before = chat_log::step_at(log, at)->0;
    assert forall|id: (nat, nat)| chat_log::step_at(log, id) is Some implies (
    #[trigger] chat_log::step_at(now, id) matches Some(found) && (found is Thought
        <==> chat_log::step_at(log, id)->0 is Thought)) by {}
}

/// Whatever happens, the log keeps what it held.
pub proof fn events_keep_the_log(app: AppView, event: SessionEventView)
    ensures
        continues(after_event(app, event).log, app.log),
{
    match event {
        SessionEventView::Thought(text) => match app.last_thought {
            Some(id) => {
                if let Some(StepView::Thought(thought)) = chat_log::step_at(app.log, id) {
                    lemma_step_continues(app.log, id, StepView::Thought(thought + " "@ + text));
                }
            },
            None => {
                lemma_pushed_step_continues(app.log, StepView::Thought(text));
            },
        },
        SessionEventView::ToolCall { id, title, status, parameters, result } => {
            lemma_pushed_step_continues(
                app.log,
                StepView::ToolCall(
                    CallView { name: title, status: status_of(status), parameters, result },
                ),
            );
        },
        SessionEventView::ToolCallUpdate { id, status, parameters, result } => {
            if app.tool_call_ids.dom().contains(id) {
                let at = app.tool_call_ids[id];
                if chat_log::call_at(app.log, at) is Some {
                    let now = with_update(app.log, at, status, parameters, result);
                    let call = chat_log::call_at(now, at);
                    let old_call = chat_log::call_at(app.log, at)->0;
                    let changed = CallView {
                        name: old_call.name,
                        status: match status {
                            Some(status) => status_of(status),
                            None => old_call.status,
                        },
                        parameters: match parameters {
                            Some(parameters) => Some(parameters),
                            None => old_call.parameters,
                        },
                        result: match result {
                            Some(result) => Some(result),
                            None => old_call.result,
                        },
                    };
                    lemma_step_continues(app.log, at, StepView::ToolCall(changed));
                }
            }
        },
        _ => {},
    }
}

/// A fresh view is consistent.
pub proof fn initial_view_is_consistent()
    ensures
        is_consistent(initial_view()),
{
}

/// Events keep a consistent view consistent: what is said of a tool call
/// reaches the call it is about, and speech and thoughts go on where they left
/// off.
pub proof fn events_keep_the_view_consistent(app: AppView, event: SessionEventView)
    requires
        is_consistent(app),
    ensures
        is_consistent(after_event(app, event)),
{
    events_keep_the_log(app, event);
    let now = after_event(app, event);
    match event {
        SessionEventView::Thought(text) => {
            if app.last_thought is None {
                chat_log::pushed_step_is_found(app.log, StepView::Thought(text));
            }
        },
        SessionEventView::ToolCall { id, title, status, parameters, result } => {
            let step = StepView::ToolCall(
                CallView { name: title, status: status_of(status), parameters, result },
            );
            chat_log::pushed_step_is_found(app.log, step);
            assert forall|known: Seq<char>| #[trigger]
                now.tool_call_ids.dom().contains(known) implies chat_log::call_at(
                now.log,
                now.tool_call_ids[known],
            ) is Some by {
                if known != id {
                    assert(app.tool_call_ids.dom().contains(known));
                }
            }
        },
        _ => {
            assert(now.tool_call_ids == app.tool_call_ids);
        },
    }
}

/// An event moves neither the focus nor the viewport, and opens or closes no
/// popup but that of a permission request.
pub proof fn events_leave_the_user_in_place(app: AppView, event: SessionEventView)
    ensures
        ({
            let now = after_event(app, event);
            &&& now.focused_cluster == app.focused_cluster
            &&& now.focused_tool_call == app.focused_tool_call
            &&& now.tool_call_popup == app.tool_call_popup
            &&& now.log_popup == app.log_popup
            &&& now.autoscroll == app.autoscroll
            &&& now.scroll_anchor == app.scroll_anchor
            &&& now.pending_scroll_delta == app.pending_scroll_delta
            &&& now.should_quit == app.should_quit
        }),
{
}

/// A message is continued by speech alone: any other event ends it.
pub proof fn other_events_end_the_message(app: AppView, event: SessionEventView)
    requires
        !(event is Chunk),
    ensures
        after_event(app, event).last_agent_message is None,
{
}

/// A thought is continued by thoughts alone: any other event ends it, but for
/// speech that is skipped because there is nothing to show of it.
pub proof fn other_events_end_the_thought(app: AppView, event: SessionEventView)
    requires
        !(event is Thought),
        event matches SessionEventView::Chunk(text) ==> if app.last_agent_message is Some {
            text.len() > 0
        } else {
            words::trim_start(text).len() > 0
        },
    ensures
        after_event(app, event).last_thought is None,
{
}

/// Speech that comes in pieces with nothing between them is one message.
pub proof fn consecutive_chunks_are_one_message(app: AppView, first: Seq<char>, second: Seq<char>)
    requires
        app.last_agent_message is None,
        words::trim_start(first).len() > 0,
    ensures
        after_chunk(after_chunk(app, first), second).log == app.log.push(
            MessageView::Agent(words::trim_start(first) + second),
        ),
{
    let text = words::trim_start(first);
    if second.len() == 0 {
        assert(text + second =~= text);
    }
    assert(after_chunk(after_chunk(app, first), second).log =~= app.log.push(
        MessageView::Agent(text + second),
    ));
}

/// Thoughts that come one after the other are one step, joined by a space.
pub proof fn consecutive_thoughts_are_one_step(app: AppView, first: Seq<char>, second: Seq<char>)
    requires
        app.last_thought is None,
    ensures
        after_thought(after_thought(app, first), second).log == chat_log::with_pushed_step(
            app.log,
            StepView::Thought(first + " "@ + second),
        ),
{
    let once = after_thought(app, first);
    let id = chat_log::pushed_step_id(app.log);
    chat_log::pushed_step_is_found(app.log, StepView::Thought(first));
    let step = StepView::Thought(first + " "@ + second);
    let now = chat_log::with_pushed_step(app.log, step);
    let cluster = chat_log::cluster_at(once.log, id.0 as int)->0;
    let other = chat_log::cluster_at(now, id.0 as int)->0;
    assert(cluster.steps.update(id.1 as int, step) =~= other.steps);
    assert(chat_log::with_step(once.log, id, step) =~= now);
}

/// The log shows a tool call in the state that is reported of it.
pub proof fn the_log_shows_the_reported_state(status: ToolStatus)
    ensures
        status_of(status) is Pending <==> status is Pending,
        status_of(status) is Running <==> status is Running,
        status_of(status) is Done <==> status is Done,
        status_of(status) is Failed <==> status is Failed,
{
}

/// A reported tool call stands at the end of the log, under its title, with its
/// state, its parameters and its result, and is found under its id from then on.
/// What was found under other ids still is.
pub proof fn reported_calls_are_found(
    app: AppView,
    id: Seq<char>,
    title: Seq<char>,
    status: ToolStatus,
    parameters: Option<Seq<char>>,
    result: Option<Seq<char>>,
    other: Seq<char>,
)
    ensures
        ({
            let event = SessionEventView::ToolCall { id, title, status, parameters, result };
            let now = after_event(app, event);
            &&& now.tool_call_ids.dom().contains(id)
            &&& chat_log::call_at(now.log, now.tool_call_ids[id]) matches Some(call) && call.name
                == title && call.status == status_of(status) && call.parameters == parameters
                && call.result == result
            &&& now.tool_call_ids[id].0 == now.log.len() - 1
            &&& other != id ==> now.tool_call_ids.get(other) == app.tool_call_ids.get(other)
        }),
{
    chat_log::pushed_step_is_found(
        app.log,
        StepView::ToolCall(CallView { name: title, status: status_of(status), parameters, result }),
    );
}

/// An update brings the tool call of its id to what it reports, leaves the rest
/// of the call as it was, and leaves every other call alone.
pub proof fn updates_reach_their_call(
    app: AppView,
    id: Seq<char>,
    status: Option<ToolStatus>,
    parameters: Option<Seq<char>>,
    result: Option<Seq<char>>,
    other: (nat, nat),
)
    requires
        app.tool_call_ids.dom().contains(id),
        chat_log::call_at(app.log, app.tool_call_ids[id]) is Some,
    ensures
        ({
            let event = SessionEventView::ToolCallUpdate { id, status, parameters, result };
            let now = after_event(app, event);
            let before = chat_log::call_at(app.log, app.tool_call_ids[id])->0;
            &&& now.tool_call_ids == app.tool_call_ids
            &&& now.log.len() == app.log.len()
            &&& chat_log::call_at(now.log, app.tool_call_ids[id]) matches Some(call) && {
                &&& call.name == before.name
                &&& status matches Some(told) ==> call.status == status_of(told)
                &&& status is None ==> call.status == before.status
                &&& parameters is Some ==> call.parameters == parameters
                &&& parameters is None ==> call.parameters == before.parameters
                &&& result is Some ==> call.result == result
                &&& result is None ==> call.result == before.result
            }
            &&& other != app.tool_call_ids[id] ==> chat_log::step_at(now.log, other)
                == chat_log::step_at(app.log, other)
        }),
{
    let at = app.tool_call_ids[id];
    let before = chat_log::call_at(app.log, at)->0;
    let changed = CallView {
        name: before.name,
        status: match status {
            Some(status) => status_of(status),
            None => before.status,
        },
        parameters: match parameters {
            Some(parameters) => Some(parameters),
            None => before.parameters,
        },
        result: match result {
            Some(result) => Some(result),
            None => before.result,
        },
    };
    if other != at {
        chat_log::update_touches_its_target_alone(app.log, at, changed, other);
    } else {
        let elsewhere: (nat, nat) = (at.0, at.1 + 1);
        chat_log::update_touches_its_target_alone(app.log, at, changed, elsewhere);
    }
}

/// An update of a tool call that was never reported changes nothing in the log.
pub proof fn updates_of_strangers_change_nothing(
    app: AppView,
    id: Seq<char>,
    status: Option<ToolStatus>,
    parameters: Option<Seq<char>>,
    result: Option<Seq<char>>,
)
    requires
        !app.tool_call_ids.dom().contains(id),
    ensures
        after_event(
            app,
            SessionEventView::ToolCallUpdate { id, status, parameters, result },
        ).log == app.log,
{
}

/// A turn that ends as it should leaves no notice; one that ends otherwise leaves
/// one at the end of the log, which says why; and so does a failure, with its
/// error. Nothing else of the log changes.
pub proof fn the_end_is_noticed(app: AppView, reason: StopView, error: Seq<char>)
    ensures
        reason is EndTurn ==> after_event(app, SessionEventView::Stopped(reason)).log == app.log,
        !(reason is EndTurn) ==> {
            let now = after_event(app, SessionEventView::Stopped(reason)).log;
            &&& now.len() == app.log.len() + 1
            &&& now.drop_last() == app.log
            &&& now.last() matches MessageView::SessionNotice(kind, text) && kind is Stopped && text
                == stop_text(reason) && text.len() > 0
        },
        ({
            let now = after_event(app, SessionEventView::Error(error)).log;
            &&& now.len() == app.log.len() + 1
            &&& now.drop_last() == app.log
            &&& now.last() matches MessageView::SessionNotice(kind, text) && kind is Error
                && search::ends_with(text, error)
        }),
{
    reveal_strlit("Session cancelled.");
    reveal_strlit("Session stopped: maximum tokens reached.");
    reveal_strlit("Session stopped: maximum turn requests reached.");
    reveal_strlit("Session stopped: agent refused the request.");
    reveal_strlit("Session stopped: ");
    let text = "Session failed: "@ + error;
    assert(text.skip(text.len() - error.len()) =~= error);
    let failed = after_event(app, SessionEventView::Error(error)).log;
    assert(failed.drop_last() =~= app.log);
    let stopped = after_event(app, SessionEventView::Stopped(reason)).log;
    if !(reason is EndTurn) {
        assert(stopped.drop_last() =~= app.log);
    }
}

/// Each reason why a turn ended is told in words of its own, and a reason that
/// came as text is told with that text.
pub proof fn reasons_are_told_apart(text: Seq<char>)
    ensures
        stop_text(StopView::EndTurn).len() == 0,
        search::contains(stop_text(StopView::Cancelled), "cancelled"@),
        search::contains(stop_text(StopView::MaxTokens), "maximum tokens"@),
        search::contains(stop_text(StopView::MaxTurnRequests), "maximum turn requests"@),
        search::contains(stop_text(StopView::Refusal), "refused"@),
        search::contains(stop_text(StopView::Other(text)), text),
{
    reveal_strlit("");
    reveal_strlit("Session cancelled.");
    reveal_strlit("Session stopped: maximum tokens reached.");
    reveal_strlit("Session stopped: maximum turn requests reached.");
    reveal_strlit("Session stopped: agent refused the request.");
    reveal_strlit("Session stopped: ");
    reveal_strlit("cancelled");
    reveal_strlit("maximum tokens");
    reveal_strlit("maximum turn requests");
    reveal_strlit("refused");
    lemma_stands_at(stop_text(StopView::Cancelled), "cancelled"@, 8);
    lemma_stands_at(stop_text(StopView::MaxTokens), "maximum tokens"@, 17);
    lemma_stands_at(stop_text(StopView::MaxTurnRequests), "maximum turn requests"@, 17);
    lemma_stands_at(stop_text(StopView::Refusal), "refused"@, 23);
    lemma_stands_at(stop_text(StopView::Other(text)), text, 17);
}

proof fn lemma_stands_at(text: Seq<char>, part: Seq<char>, at: int)
    requires
        0 <= at,
        at + part.len() <= text.len(),
        text.subrange(at, at + part.len()) =~= part,
    ensures
        search::contains(text, part),
{
    search::containing_is_standing_somewhere(text, part);
    assert(text.subrange(at, at + part.len()) == part);
}

/// A permission request waits with the options it offers; no other event asks
/// for anything or takes the question back.
pub proof fn questions_wait_for_the_user(app: AppView, event: SessionEventView)
    ensures
        event matches SessionEventView::PermissionRequest { options, .. } ==> after_event(
            app,
            event,
        ).pending_permission == Some(options),
        !(event is PermissionRequest) ==> after_event(app, event).pending_permission
            == app.pending_permission,
        event is PermissionRequest ==> after_event(app, event).log == app.log,
{
}

/// Speech is shown as it comes: a first piece without the blanks before it, and
/// every later one whole, behind what was said before.
pub proof fn speech_is_shown_as_it_comes(app: AppView, text: Seq<char>)
    ensures
        app.last_agent_message is None && text.len() > 0 && !chars::is_space(text[0])
            ==> after_event(app, SessionEventView::Chunk(text)).log == app.log.push(
            MessageView::Agent(text),
        ),
        app.last_agent_message is None && words::words_of(text).len() == 0 ==> after_event(
            app,
            SessionEventView::Chunk(text),
        ) == app,
        app.last_agent_message matches Some(id) ==> (id.0 < app.log.len() && text.len() > 0 ==> (
        app.log[id.0 as int] matches MessageView::Agent(said) ==> {
            let now = after_event(app, SessionEventView::Chunk(text)).log;
            &&& now.len() == app.log.len()
            &&& now[id.0 as int] == MessageView::Agent(said + text)
            &&& forall|i: int| 0 <= i < now.len() && i != id.0 ==> #[trigger] now[i] == app.log[i]
        })),
{
    if words::words_of(text).len() == 0 {
        lemma_blank_start(text);
    }
}

proof fn lemma_blank_start(text: Seq<char>)
    requires
        words::words_of(text).len() == 0,
    ensures
        words::trim_start(text).len() == 0,
    decreases text.len(),
{
    if text.len() > 0 {
        if chars::is_space(text[0]) {
            lemma_blank_start(text.skip(1));
        } else {
            words::lemma_word_len(text);
        }
    }
}

/// Confetti starts with its event and no other, at its first frame.
pub proof fn confetti_starts_with_its_event(app: AppView, event: SessionEventView)
    ensures
        event is Confetti ==> after_event(app, event).confetti == Some(0u8),
        !(event is Confetti) ==> after_event(app, event).confetti == app.confetti,
{
}

/// A thought goes on where the last one stands, behind a space, and is a step of
/// its own elsewhere.
pub proof fn thoughts_go_on(app: AppView, text: Seq<char>)
    ensures
        app.last_thought is None ==> after_event(app, SessionEventView::Thought(text)).log
            == chat_log::with_pushed_step(app.log, StepView::Thought(text)),
        app.last_thought matches Some(id) ==> (chat_log::step_at(app.log, id) matches Some(
            StepView::Thought(thought),
        ) ==> chat_log::step_at(
            after_event(app, SessionEventView::Thought(text)).log,
            id,
        ) == Some(StepView::Thought(thought + seq![' '] + text))),
{
    reveal_strlit(" ");
    assert(" "@ =~= seq![' ']);
}

/// A view starts with nothing in it, follows what comes, and has the keys at the
/// prompt.
pub proof fn views_start_empty()
    ensures
        initial_view().log.len() == 0,
        initial_view().autoscroll && !initial_view().should_quit && !initial_view().log_popup,
        initial_view().pending_scroll_delta == 0 && initial_view().scroll_anchor is None,
        initial_view().log_popup_scroll == 0 && initial_view().tool_call_popup_scroll == 0,
        initial_view().spinner_phase == 0 && initial_view().confetti is None,
        initial_view().pending_permission is None && initial_view().tool_call_popup is None,
        initial_view().focused_cluster is None && initial_view().focused_tool_call is None,
        initial_view().last_thought is None && initial_view().last_agent_message is None,
        forall|id: Seq<char>| !initial_view().tool_call_ids.dom().contains(id),
{
}

/// The message that a first piece of speech starts is the one that the next piece
/// goes on with.
pub proof fn speech_is_remembered(app: AppView, text: Seq<char>)
    requires
        app.last_agent_message is None,
        text.len() > 0,
        !chars::is_space(text[0]),
    ensures
        after_event(app, SessionEventView::Chunk(text)).last_agent_message == Some(
            (app.log.len(), 0nat),
        ),
        after_event(app, SessionEventView::Chunk(text)).last_thought is None,
{
}

} // verus!
