//! What the keys do.

use vstd::prelude::*;

use crate::bridge;
use crate::bridge::PermissionOption;
use crate::chat_log;
use crate::chat_log::{EntryId, Message, MessageView, StepView};
use crate::text::chars;
use crate::text::chars::same_text;
use crate::text::search;
use crate::text::search::join_texts;
use crate::text::words;
use crate::text::words::trimmed;
use crate::ui::app;
use crate::ui::app::{App, AppView, PendingPermission};
use crate::ui::navigation;
use crate::ui::navigation::{
    cluster_index_after, cluster_index_before, last_cluster_index, next_tool_call,
    previous_tool_call,
};

verus! {

/// A key of the keyboard.
#[derive(Debug, Clone, Copy, PartialEq, Eq, Structural)]
pub enum Key {
    Up,
    Down,
    PageUp,
    PageDown,
    End,
    Enter,
    Esc,
    Char(char),
    /// A key that has no meaning but to the prompt.
    Other,
}

/// A key that was pressed, with the Control key or without.
#[derive(Debug, Clone, Copy, PartialEq, Eq, Structural)]
pub struct KeyPress {
    pub key: Key,
    pub control: bool,
}

/// What is left to do about a key.
#[derive(Debug, PartialEq, Eq)]
pub enum KeyOutcome {
    /// Nothing.
    Done,
    /// The key edits the prompt.
    EditPrompt,
    /// The session's turn is to be cancelled.
    CancelTurn,
    /// The session's turn is to be cancelled, and the prompt cleared.
    ClearPrompt,
    /// The prompt is to be cleared, and the text sent.
    SendPrompt(String),
    /// The answer to the permission request: the id of an option, or nothing
    /// where it is cancelled.
    Reply(Option<String>),
}

/// What is left to do, as texts.
#[verifier::ext_equal]
pub enum OutcomeView {
    Done,
    EditPrompt,
    CancelTurn,
    ClearPrompt,
    SendPrompt(Seq<char>),
    Reply(Option<Seq<char>>),
}

impl View for KeyOutcome {
    type V = OutcomeView;

    open spec fn view(&self) -> OutcomeView {
        match *self {
            KeyOutcome::Done => OutcomeView::Done,
            KeyOutcome::EditPrompt => OutcomeView::EditPrompt,
            KeyOutcome::CancelTurn => OutcomeView::CancelTurn,
            KeyOutcome::ClearPrompt => OutcomeView::ClearPrompt,
            KeyOutcome::SendPrompt(text) => OutcomeView::SendPrompt(text@),
            KeyOutcome::Reply(id) => OutcomeView::Reply(chars::optional_text(id)),
        }
    }
}

/// Rows scrolled per PageUp/PageDown press.
pub const SCROLL_STEP: u16 = 3;

/// A number of rows further down.
pub open spec fn rows_down(scroll: u16, rows: u16) -> u16 {
    (if scroll + rows > u16::MAX {
        u16::MAX as int
    } else {
        scroll + rows
    }) as u16
}

/// A number of rows further up.
pub open spec fn rows_up(scroll: u16, rows: u16) -> u16 {
    (if scroll < rows {
        0
    } else {
        scroll - rows
    }) as u16
}

/// How far a popup is scrolled after a key that scrolls.
pub open spec fn popup_scroll(scroll: u16, key: Key) -> u16 {
    match key {
        Key::Up => rows_up(scroll, 1),
        Key::Down => rows_down(scroll, 1),
        Key::PageUp => rows_up(scroll, SCROLL_STEP),
        Key::PageDown => rows_down(scroll, SCROLL_STEP),
        _ => scroll,
    }
}

fn scroll_popup(scroll: u16, key: Key) -> (scrolled: u16)
    ensures
        scrolled == popup_scroll(scroll, key),
{
    match key {
        Key::Up => scroll.saturating_sub(1),
        Key::Down => scroll.saturating_add(1),
        Key::PageUp => scroll.saturating_sub(SCROLL_STEP),
        Key::PageDown => scroll.saturating_add(SCROLL_STEP),
        _ => scroll,
    }
}

/// The answer that a key gives to a permission request: the digits choose an
/// option, counted from one, and Esc cancels.
pub open spec fn reply_to(options: Seq<(Seq<char>, Seq<char>)>, key: Key) -> Option<
    Option<Seq<char>>,
> {
    match key {
        Key::Char(c) => if '1' <= c <= '9' && c as int - '0' as int <= options.len() {
            Some(Some(options[c as int - '1' as int].0))
        } else {
            None
        },
        Key::Esc => Some(None),
        _ => None,
    }
}

/// Applies a key press while a permission popup is showing, resolving and
/// clearing `pending` when an option is chosen or the request is cancelled.
pub fn handle_permission_key(key: Key, pending: &mut Option<PendingPermission>) -> (reply: Option<
    Option<String>,
>)
    ensures
        match app::pending_options(*old(pending)) {
            Some(options) => match reply_to(options, key) {
                Some(id) => reply matches Some(reply) && chars::optional_text(reply) == id
                    && *final(pending) is None,
                None => reply is None && *final(pending) == *old(pending),
            },
            None => reply is None && *final(pending) is None,
        },
{
    let reply = match pending {
        Some(permission) => match key {
            Key::Char(c) => {
                if '1' <= c && c <= '9' {
                    let index: usize = (c as u8 - '1' as u8) as usize;
                    if index < permission.options.len() {
                        assert(bridge::option_texts(permission.options@)[index as int].0
                            == permission.options@[index as int].id@);
                        Some(Some(permission.options[index].id.clone()))
                    } else {
                        None
                    }
                } else {
                    None
                }
            },
            Key::Esc => Some(None),
            _ => None,
        },
        None => None,
    };
    if reply.is_some() {
        *pending = None;
    }
    reply
}

/// The view after a key while the audit details of a tool call show.
pub open spec fn after_details_key(app: AppView, press: KeyPress) -> AppView {
    if press.key is Esc {
        AppView { tool_call_popup: None, tool_call_popup_scroll: 0, ..app }
    } else {
        AppView {
            tool_call_popup_scroll: popup_scroll(app.tool_call_popup_scroll, press.key),
            ..app
        }
    }
}

/// The view after a key while the log output shows.
pub open spec fn after_log_key(app: AppView, press: KeyPress) -> AppView {
    if press.key is Esc || (press.key == Key::Char('l') && press.control) {
        AppView { log_popup: false, log_popup_scroll: 0, ..app }
    } else {
        AppView { log_popup_scroll: popup_scroll(app.log_popup_scroll, press.key), ..app }
    }
}

/// The view with the focus on a cluster.
pub open spec fn focused_on(app: AppView, cluster: nat) -> AppView {
    AppView { focused_cluster: Some(cluster), focused_tool_call: None, ..app }
}

/// The view with the focus on the prompt.
pub open spec fn focused_on_prompt(app: AppView) -> AppView {
    AppView { focused_cluster: None, focused_tool_call: None, ..app }
}

/// The view with the focus one cluster further up, if there is one.
pub open spec fn focused_above(app: AppView, focused: nat) -> AppView {
    match navigation::cluster_before(app.log, focused as int) {
        Some(above) => focused_on(app, above),
        None => app,
    }
}

/// Whether the cluster at an index shows its steps.
pub open spec fn is_expanded(log: Seq<MessageView>, index: nat) -> bool {
    chat_log::cluster_at(log, index as int) matches Some(cluster) && cluster.expanded
}

/// The view with the focused cluster expanded or collapsed. The first tool
/// call of a cluster that was expanded is selected.
pub open spec fn with_toggled(app: AppView, focused: nat) -> AppView {
    let calls = chat_log::call_ids(app.log, focused);
    AppView {
        log: chat_log::toggled(app.log, focused as int),
        focused_tool_call: if !is_expanded(app.log, focused) && calls.len() > 0 {
            Some(calls[0])
        } else {
            None
        },
        ..app
    }
}

/// The view after a key while a cluster has the focus.
pub open spec fn after_cluster_key(app: AppView, press: KeyPress, focused: nat) -> AppView {
    let expanded = is_expanded(app.log, focused);
    let calls = chat_log::call_ids(app.log, focused);
    match press.key {
        Key::Esc => AppView { autoscroll: true, ..focused_on_prompt(app) },
        Key::Up => if expanded && !press.control {
            AppView {
                focused_tool_call: navigation::call_above(calls, app.focused_tool_call),
                ..app
            }
        } else {
            focused_above(app, focused)
        },
        Key::Down => if expanded && !press.control {
            AppView {
                focused_tool_call: navigation::call_below(calls, app.focused_tool_call),
                ..app
            }
        } else {
            match navigation::cluster_from(app.log, focused as int + 1) {
                Some(below) => focused_on(app, below),
                None => if press.control {
                    focused_on_prompt(app)
                } else {
                    app
                },
            }
        },
        Key::Enter => if expanded {
            match app.focused_tool_call {
                Some(id) => AppView { tool_call_popup: Some(id), tool_call_popup_scroll: 0, ..app },
                None => app,
            }
        } else {
            with_toggled(app, focused)
        },
        Key::Char(c) => if c == ' ' {
            with_toggled(app, focused)
        } else {
            app
        },
        _ => app,
    }
}

/// A scroll delta further down or up, as far as it can be counted.
pub open spec fn delta_by(delta: i16, rows: int) -> i16 {
    (if delta + rows > i16::MAX {
        i16::MAX as int
    } else if delta + rows < i16::MIN {
        i16::MIN as int
    } else {
        delta + rows
    }) as i16
}

/// The text that lines of a prompt are sent as.
pub open spec fn prompt_text(lines: Seq<Seq<char>>) -> Seq<char> {
    words::trim(search::join(lines, " "@))
}

/// The view after a key while the prompt has the focus, and what is left to
/// do.
pub open spec fn after_prompt_key(app: AppView, press: KeyPress, lines: Seq<Seq<char>>) -> (
    AppView,
    OutcomeView,
) {
    match press.key {
        Key::Up => if press.control {
            (
                AppView {
                    focused_cluster: navigation::cluster_before(app.log, app.log.len() as int),
                    autoscroll: false,
                    ..app
                },
                OutcomeView::Done,
            )
        } else {
            (app, OutcomeView::EditPrompt)
        },
        Key::Char(c) => if press.control && c == 'l' {
            (AppView { log_popup: true, log_popup_scroll: 0, ..app }, OutcomeView::Done)
        } else if press.control && c == 'c' {
            (app, OutcomeView::CancelTurn)
        } else {
            (app, OutcomeView::EditPrompt)
        },
        Key::Enter => {
            let text = prompt_text(lines);
            if text.len() == 0 {
                (app, OutcomeView::Done)
            } else if text == ":q"@ || text == ":quit"@ {
                (AppView { should_quit: true, ..app }, OutcomeView::Done)
            } else {
                (
                    AppView { log: app.log.push(MessageView::User(text)), ..app },
                    OutcomeView::SendPrompt(text),
                )
            }
        },
        Key::PageUp => (
            AppView {
                pending_scroll_delta: delta_by(app.pending_scroll_delta, -(SCROLL_STEP as int)),
                autoscroll: false,
                ..app
            },
            OutcomeView::Done,
        ),
        Key::PageDown => (
            AppView {
                pending_scroll_delta: delta_by(app.pending_scroll_delta, SCROLL_STEP as int),
                ..app
            },
            OutcomeView::Done,
        ),
        Key::End => (AppView { autoscroll: true, ..app }, OutcomeView::Done),
        Key::Esc => (app, OutcomeView::ClearPrompt),
        _ => (app, OutcomeView::EditPrompt),
    }
}

/// The view after a key, and what is left to do. A permission request takes
/// the keys first, then the details of a tool call, the log output, a cluster,
/// and last the prompt.
pub open spec fn after_key(app: AppView, press: KeyPress, lines: Seq<Seq<char>>) -> (
    AppView,
    OutcomeView,
) {
    if let Some(options) = app.pending_permission {
        match reply_to(options, press.key) {
            Some(id) => (AppView { pending_permission: None, ..app }, OutcomeView::Reply(id)),
            None => (app, OutcomeView::Done),
        }
    } else if app.tool_call_popup is Some {
        (after_details_key(app, press), OutcomeView::Done)
    } else if app.log_popup {
        (after_log_key(app, press), OutcomeView::Done)
    } else if let Some(focused) = app.focused_cluster {
        (after_cluster_key(app, press, focused), OutcomeView::Done)
    } else {
        after_prompt_key(app, press, lines)
    }
}

fn first_call(calls: &Vec<EntryId>) -> (first: Option<EntryId>)
    ensures
        navigation::handle(first) == (if calls@.len() > 0 {
            Some(chat_log::id_views(calls@)[0])
        } else {
            None
        }),
{
    if calls.len() > 0 {
        Some(calls[0])
    } else {
        None
    }
}

impl App {
    fn is_cluster_expanded(&self, index: usize) -> (expanded: bool)
        ensures
            expanded == is_expanded(self@.log, index as nat),
    {
        let messages = self.chat_log.messages();
        assert(chat_log::message_views(messages@).len() == messages@.len());
        if index < messages.len() {
            assert(self.chat_log@[index as int] == messages@[index as int]@);
            match &messages[index] {
                Message::ToolCluster(cluster) => cluster.expanded(),
                _ => false,
            }
        } else {
            false
        }
    }

    fn toggle_focused(&mut self, focused: usize)
        requires
            old(self).well_formed(),
        ensures
            final(self).confetti == old(self).confetti,
            final(self).well_formed(),
            final(self)@ == with_toggled(old(self)@, focused as nat),
    {
        let expanded = self.is_cluster_expanded(focused);
        let calls = self.chat_log.tool_call_ids(focused);
        assert(chat_log::id_views(calls@).len() == calls@.len());
        self.chat_log.toggle_cluster(focused);
        self.focused_tool_call = if expanded {
            None
        } else {
            first_call(&calls)
        };
    }

    fn move_up(&mut self, focused: usize)
        requires
            old(self).well_formed(),
            focused < old(self)@.log.len(),
        ensures
            final(self).confetti == old(self).confetti,
            final(self).well_formed(),
            final(self)@ == focused_above(old(self)@, focused as nat),
    {
        let above = cluster_index_before(&self.chat_log, focused);
        proof {
            navigation::cluster_before_is_the_nearest(self@.log, focused as int);
        }
        if above.is_some() {
            self.focused_cluster = above;
            self.focused_tool_call = None;
        }
    }

    /// Applies a key press while a tool cluster has focus. Ctrl+↑/↓ moves
    /// between clusters; Enter/Space expands or collapses the selected
    /// cluster. Once expanded, ↑/↓ selects tool calls and Enter opens their
    /// audit details while Space collapses the cluster. Esc leaves cluster
    /// focus and resumes autoscroll, since Ctrl+↑/↓ disabled it to enter.
    pub fn handle_cluster_focus_key(&mut self, press: KeyPress, focused: usize)
        requires
            old(self).well_formed(),
            focused < old(self)@.log.len(),
        ensures
            final(self).confetti == old(self).confetti,
            final(self).well_formed(),
            final(self)@ == after_cluster_key(old(self)@, press, focused as nat),
    {
        let expanded = self.is_cluster_expanded(focused);
        let calls = self.chat_log.tool_call_ids(focused);
        match press.key {
            Key::Esc => {
                self.focused_cluster = None;
                self.focused_tool_call = None;
                self.autoscroll = true;
            },
            Key::Up => {
                if expanded && !press.control {
                    self.focused_tool_call = previous_tool_call(
                        calls.as_slice(),
                        self.focused_tool_call,
                    );
                } else {
                    self.move_up(focused);
                }
            },
            Key::Down => {
                if expanded && !press.control {
                    self.focused_tool_call = next_tool_call(
                        calls.as_slice(),
                        self.focused_tool_call,
                    );
                } else {
                    let below = cluster_index_after(&self.chat_log, focused);
                    proof {
                        navigation::cluster_from_is_the_nearest(self@.log, focused + 1);
                    }
                    if below.is_some() || press.control {
                        self.focused_cluster = below;
                        self.focused_tool_call = None;
                    }
                }
            },
            Key::Enter => {
                if expanded {
                    if let Some(id) = self.focused_tool_call {
                        self.tool_call_popup = Some(id);
                        self.tool_call_popup_scroll = 0;
                    }
                } else {
                    self.toggle_focused(focused);
                }
            },
            Key::Char(c) => {
                if c == ' ' {
                    self.toggle_focused(focused);
                }
            },
            _ => {},
        }
    }

    fn handle_tool_call_popup_key(&mut self, press: KeyPress)
        requires
            old(self).well_formed(),
        ensures
            final(self).confetti == old(self).confetti,
            final(self).well_formed(),
            final(self)@ == after_details_key(old(self)@, press),
    {
        if press.key == Key::Esc {
            self.tool_call_popup = None;
            self.tool_call_popup_scroll = 0;
        } else {
            self.tool_call_popup_scroll = scroll_popup(self.tool_call_popup_scroll, press.key);
        }
    }

    fn handle_log_popup_key(&mut self, press: KeyPress)
        requires
            old(self).well_formed(),
        ensures
            final(self).confetti == old(self).confetti,
            final(self).well_formed(),
            final(self)@ == after_log_key(old(self)@, press),
    {
        if press.key == Key::Esc || (press.key == Key::Char('l') && press.control) {
            self.log_popup = false;
            self.log_popup_scroll = 0;
        } else {
            self.log_popup_scroll = scroll_popup(self.log_popup_scroll, press.key);
        }
    }

    fn handle_prompt_key(&mut self, press: KeyPress, lines: &Vec<String>) -> (outcome: KeyOutcome)
        requires
            old(self).well_formed(),
        ensures
            final(self).confetti == old(self).confetti,
            final(self).well_formed(),
            (final(self)@, outcome@) == after_prompt_key(old(self)@, press, chars::texts(lines@)),
    {
        match press.key {
            Key::Up => {
                if press.control {
                    let last = last_cluster_index(&self.chat_log);
                    proof {
                        navigation::cluster_before_is_the_nearest(
                            self@.log,
                            self@.log.len() as int,
                        );
                    }
                    self.focused_cluster = last;
                    self.autoscroll = false;
                    KeyOutcome::Done
                } else {
                    KeyOutcome::EditPrompt
                }
            },
            Key::Char(c) => {
                if press.control && c == 'l' {
                    self.log_popup = true;
                    self.log_popup_scroll = 0;
                    KeyOutcome::Done
                } else if press.control && c == 'c' {
                    KeyOutcome::CancelTurn
                } else {
                    KeyOutcome::EditPrompt
                }
            },
            Key::Enter => {
                let text = trimmed(join_texts(lines, " ").as_str());
                if text.as_str().unicode_len() == 0 {
                    return KeyOutcome::Done;
                }
                if same_text(text.as_str(), ":q") || same_text(text.as_str(), ":quit") {
                    self.should_quit = true;
                    return KeyOutcome::Done;
                }
                self.chat_log.push_user(text.as_str());
                KeyOutcome::SendPrompt(text)
            },
            Key::PageUp => {
                let delta: i16 = self.pending_scroll_delta;
                self.pending_scroll_delta = if delta < i16::MIN + 3 {
                    i16::MIN
                } else {
                    delta - 3
                };
                self.autoscroll = false;
                KeyOutcome::Done
            },
            Key::PageDown => {
                let delta: i16 = self.pending_scroll_delta;
                self.pending_scroll_delta = if delta > i16::MAX - 3 {
                    i16::MAX
                } else {
                    delta + 3
                };
                KeyOutcome::Done
            },
            Key::End => {
                self.autoscroll = true;
                KeyOutcome::Done
            },
            Key::Esc => KeyOutcome::ClearPrompt,
            _ => KeyOutcome::EditPrompt,
        }
    }

    /// Applies a key press. `lines` are those of the prompt.
    pub fn handle_key(&mut self, press: KeyPress, lines: &Vec<String>) -> (outcome: KeyOutcome)
        requires
            old(self).well_formed(),
        ensures
            final(self).confetti == old(self).confetti,
            final(self).well_formed(),
            (final(self)@, outcome@) == after_key(old(self)@, press, chars::texts(lines@)),
    {
        if self.pending_permission.is_some() {
            return match handle_permission_key(press.key, &mut self.pending_permission) {
                Some(reply) => KeyOutcome::Reply(reply),
                None => KeyOutcome::Done,
            };
        }
        if self.tool_call_popup.is_some() {
            self.handle_tool_call_popup_key(press);
            return KeyOutcome::Done;
        }
        if self.log_popup {
            self.handle_log_popup_key(press);
            return KeyOutcome::Done;
        }
        if let Some(focused) = self.focused_cluster {
            self.handle_cluster_focus_key(press, focused);
            return KeyOutcome::Done;
        }
        self.handle_prompt_key(press, lines)
    }
}

/// Whether the prompt has the keys.
pub open spec fn prompt_has_the_keys(app: AppView) -> bool {
    &&& app.pending_permission is None
    &&& app.tool_call_popup is None
    &&& !app.log_popup
    &&& app.focused_cluster is None
}

/// While something else has the keys, none of them reaches the prompt or the
/// session, the answer to a permission request apart.
pub proof fn keys_reach_the_prompt_alone(app: AppView, press: KeyPress, lines: Seq<Seq<char>>)
    requires
        !prompt_has_the_keys(app),
    ensures
        after_key(app, press, lines).1 is Done || after_key(app, press, lines).1 is Reply,
        app.pending_permission is None ==> after_key(app, press, lines).1 is Done,
        !after_key(app, press, lines).0.should_quit || app.should_quit,
{
}

/// A permission request is answered once, by the id of one of its options or
/// by nothing, and only then is it gone.
pub proof fn permission_is_answered_once(app: AppView, press: KeyPress, lines: Seq<Seq<char>>)
    requires
        app.pending_permission is Some,
    ensures
        after_key(app, press, lines).0.pending_permission is None <==> after_key(
            app,
            press,
            lines,
        ).1 is Reply,
        after_key(app, press, lines).1 matches OutcomeView::Reply(Some(id)) ==> exists|i: int|
            0 <= i < app.pending_permission->0.len() && (#[trigger] app.pending_permission->0[i]).0
                == id,
{
    if let Key::Char(c) = press.key {
        if '1' <= c <= '9' && c as int - '0' as int <= app.pending_permission->0.len() {
            let index = c as int - '1' as int;
            assert(app.pending_permission->0[index].0 == app.pending_permission->0[index].0);
        }
    }
}

/// Keys add what the user sends to the log, or expand and collapse a cluster,
/// and change nothing else of it.
pub proof fn keys_keep_the_log(app: AppView, press: KeyPress, lines: Seq<Seq<char>>)
    ensures
        ({
            let now = after_key(app, press, lines).0.log;
            ||| now == app.log
            ||| now == app.log.push(MessageView::User(prompt_text(lines)))
            ||| exists|i: int| now == #[trigger] chat_log::toggled(app.log, i)
        }),
{
}

proof fn lemma_toggled_steps(log: Seq<MessageView>, index: int)
    ensures
        forall|id: (nat, nat)| #[trigger]
            chat_log::step_at(chat_log::toggled(log, index), id) == chat_log::step_at(log, id),
        forall|i: int| #[trigger]
            chat_log::cluster_at(chat_log::toggled(log, index), i) is Some <==> chat_log::cluster_at(
                log,
                i,
            ) is Some,
{
    assert forall|id: (nat, nat)| #[trigger]
        chat_log::step_at(chat_log::toggled(log, index), id) == chat_log::step_at(log, id) by {
        chat_log::toggling_keeps_the_steps(log, index, id);
    }
}

proof fn lemma_call_positions(steps: Seq<StepView>)
    ensures
        forall|i: int|
            0 <= i < chat_log::call_positions(steps).len() ==> (
            #[trigger] chat_log::call_positions(steps)[i]) < steps.len()
                && steps[chat_log::call_positions(steps)[i] as int] is ToolCall,
    decreases steps.len(),
{
    if steps.len() > 0 {
        lemma_call_positions(steps.drop_last());
    }
}

/// The handles of a cluster's tool calls lead to tool calls.
pub proof fn call_ids_lead_to_calls(log: Seq<MessageView>, index: nat, place: int)
    requires
        0 <= place < chat_log::call_ids(log, index).len(),
    ensures
        chat_log::call_at(log, chat_log::call_ids(log, index)[place]) is Some,
{
    let cluster = chat_log::cluster_at(log, index as int)->0;
    lemma_call_positions(cluster.steps);
}

/// Keys keep a consistent view consistent.
pub proof fn keys_keep_the_view_consistent(app: AppView, press: KeyPress, lines: Seq<Seq<char>>)
    requires
        app::is_consistent(app),
    ensures
        app::is_consistent(after_key(app, press, lines).0),
{
    let now = after_key(app, press, lines).0;
    if prompt_has_the_keys(app) {
        navigation::cluster_before_is_the_nearest(app.log, app.log.len() as int);
        assert(app::continues(now.log, app.log));
    } else if app.pending_permission is None && app.tool_call_popup is None && !app.log_popup {
        let focused = app.focused_cluster->0;
        let calls = chat_log::call_ids(app.log, focused);
        lemma_toggled_steps(app.log, focused as int);
        navigation::cluster_before_is_the_nearest(app.log, focused as int);
        navigation::cluster_from_is_the_nearest(app.log, focused as int + 1);
        assert forall|place: int| 0 <= place < calls.len() implies chat_log::call_at(
            app.log,
            #[trigger] calls[place],
        ) is Some by {
            call_ids_lead_to_calls(app.log, focused, place);
        }
        if let Some(selected) = app.focused_tool_call {
            calls.index_of_first_ensures(selected);
        }
    }
}

/// End, and Esc where a cluster has the focus, make the view follow new
/// messages again; no other key does.
pub proof fn following_is_resumed(app: AppView, press: KeyPress, lines: Seq<Seq<char>>)
    requires
        !app.autoscroll,
    ensures
        after_key(app, press, lines).0.autoscroll ==> {
            ||| press.key is End && prompt_has_the_keys(app)
            ||| press.key is Esc && app.focused_cluster is Some
        },
        press.key is End && prompt_has_the_keys(app) ==> after_key(
            app,
            press,
            lines,
        ).0.autoscroll,
{
}

/// The audit details and the log output are closed by Esc, whatever else is
/// open below them.
pub proof fn escape_closes_the_popups(app: AppView, lines: Seq<Seq<char>>)
    requires
        app.pending_permission is None,
    ensures
        ({
            let now = after_key(app, KeyPress { key: Key::Esc, control: false }, lines).0;
            &&& app.tool_call_popup is Some ==> now == AppView {
                tool_call_popup: None,
                tool_call_popup_scroll: 0,
                ..app
            }
            &&& app.tool_call_popup is None && app.log_popup ==> now == AppView {
                log_popup: false,
                log_popup_scroll: 0,
                ..app
            }
        }),
{
}

/// The digits choose the options of a permission request in the order in which
/// they are offered, counted from one; Esc gives no option, and no other key
/// answers.
pub proof fn digits_choose_in_order(options: Seq<(Seq<char>, Seq<char>)>, key: Key)
    ensures
        reply_to(options, Key::Esc) == Some(None::<Seq<char>>),
        options.len() >= 1 ==> reply_to(options, Key::Char('1')) == Some(Some(options[0].0)),
        options.len() >= 2 ==> reply_to(options, Key::Char('2')) == Some(Some(options[1].0)),
        options.len() >= 3 ==> reply_to(options, Key::Char('3')) == Some(Some(options[2].0)),
        forall|i: int|
            #![trigger options[i]]
            0 <= i < options.len() && i < 9 ==> reply_to(
                options,
                Key::Char((i + '1' as int) as char),
            ) == Some(Some(options[i].0)),
        reply_to(options, key) is Some ==> key is Esc || key is Char,
        key matches Key::Char(c) ==> !(('1' as int) <= (c as int) < ('1' as int) + options.len())
            ==> reply_to(options, key) is None,
{
}

/// A popup scrolls by a row with an arrow and by three with a page key, down and
/// up, and never above its top; other keys leave it.
pub proof fn popups_scroll_by_rows_and_pages(scroll: u16, key: Key)
    ensures
        scroll < u16::MAX ==> popup_scroll(scroll, Key::Down) == scroll + 1,
        scroll > 0 ==> popup_scroll(scroll, Key::Up) == scroll - 1,
        scroll <= u16::MAX - 3 ==> popup_scroll(scroll, Key::PageDown) == scroll + 3,
        scroll >= 3 ==> popup_scroll(scroll, Key::PageUp) == scroll - 3,
        scroll < 3 ==> popup_scroll(scroll, Key::PageUp) == 0,
        popup_scroll(0, Key::Up) == 0,
        !(key is Up || key is Down || key is PageUp || key is PageDown) ==> popup_scroll(scroll, key)
            == scroll,
{
}

/// What the user sends holds every word of the prompt's lines, in order, and no
/// blanks around them.
pub proof fn prompts_keep_every_word(lines: Seq<Seq<char>>)
    ensures
        words::words_of(prompt_text(lines)) == words::words_of_lines(lines),
        prompt_text(lines).len() > 0 ==> !chars::is_space(prompt_text(lines)[0])
            && !chars::is_space(prompt_text(lines).last()),
        prompt_text(lines).len() == 0 <==> words::words_of_lines(lines).len() == 0,
{
    reveal_strlit(" ");
    assert(" "@ =~= seq![' ']);
    let text = search::join(lines, " "@);
    words::joining_keeps_the_words(lines, " "@);
    words::trimming_keeps_the_words(text);
    let places = words::trimming_takes_the_outer_white_space(text);
    let sent = prompt_text(lines);
    if sent.len() > 0 {
        words::lemma_word_len(sent);
    } else {
        assert(words::words_of(sent).len() == 0);
    }
}

/// Enter sends the prompt and shows it in the log, unless it is blank, which does
/// nothing, or asks to quit, which is not sent; and only Enter sends or quits.
pub proof fn enter_sends_the_prompt(app: AppView, press: KeyPress, lines: Seq<Seq<char>>)
    requires
        prompt_has_the_keys(app),
    ensures
        ({
            let (now, outcome) = after_key(app, press, lines);
            let text = prompt_text(lines);
            &&& !(press.key is Enter) ==> !(outcome is SendPrompt) && now.log == app.log
                && now.should_quit == app.should_quit
            &&& press.key is Enter && words::words_of_lines(lines).len() == 0 ==> now == app
                && outcome is Done
            &&& press.key is Enter && (text == ":q"@ || text == ":quit"@) ==> now.should_quit
                && now.log == app.log && outcome is Done
            &&& press.key is Enter && text.len() > 0 && text != ":q"@ && text != ":quit"@
                ==> outcome == OutcomeView::SendPrompt(text) && now.log.len() == app.log.len() + 1
                && now.log.last() == MessageView::User(text) && now.log.drop_last() == app.log
                && now.should_quit == app.should_quit
        }),
{
    reveal_strlit(":q");
    reveal_strlit(":quit");
    prompts_keep_every_word(lines);
    assert(app.log.push(MessageView::User(prompt_text(lines))).drop_last() =~= app.log);
}

/// While the prompt has the keys, Ctrl+C cancels the turn, Esc clears the prompt,
/// Ctrl+L shows the log output from its top, and the page keys scroll by three
/// rows, upwards no longer following new messages. Every other key but Enter, End
/// and Ctrl+Up edits the prompt and changes nothing.
pub proof fn prompt_keys_do_what_they_say(app: AppView, press: KeyPress, lines: Seq<Seq<char>>)
    requires
        prompt_has_the_keys(app),
    ensures
        ({
            let (now, outcome) = after_key(app, press, lines);
            &&& press.key == Key::Char('c') && press.control ==> outcome is CancelTurn && now == app
            &&& press.key is Esc ==> outcome is ClearPrompt && now == app
            &&& press.key == Key::Char('l') && press.control ==> outcome is Done && now.log_popup
                && now.log_popup_scroll == 0
            &&& press.key is PageUp && app.pending_scroll_delta >= i16::MIN + 3
                ==> now.pending_scroll_delta == app.pending_scroll_delta - 3 && !now.autoscroll
            &&& press.key is PageDown && app.pending_scroll_delta <= i16::MAX - 3
                ==> now.pending_scroll_delta == app.pending_scroll_delta + 3 && now.autoscroll
                == app.autoscroll
            &&& press.key is Char && !press.control ==> outcome is EditPrompt && now == app
            &&& (press.key is Down || press.key is Other || (press.key is Up && !press.control))
                ==> outcome is EditPrompt && now == app
            &&& press.key is Up && press.control ==> outcome is Done && !now.autoscroll && (
            now.focused_cluster matches Some(focused) ==> focused < app.log.len()
                && app.log[focused as int] is ToolCluster && forall|i: int|
                focused < i < app.log.len() ==> !(#[trigger] app.log[i] is ToolCluster))
            &&& press.key is Up && press.control && now.focused_cluster is None ==> forall|i: int|
                0 <= i < app.log.len() ==> !(#[trigger] app.log[i] is ToolCluster)
        }),
{
    navigation::cluster_before_is_the_nearest(app.log, app.log.len() as int);
}

/// Where a collapsed cluster has the focus, Enter and Space expand it and select
/// its first tool call; where an expanded one has it, Space collapses it and
/// nothing is selected, and Enter opens the details of the selected call from
/// their top.
pub proof fn cluster_keys_open_and_close(app: AppView, press: KeyPress, focused: nat)
    requires
        chat_log::cluster_at(app.log, focused as int) is Some,
    ensures
        ({
            let cluster = chat_log::cluster_at(app.log, focused as int)->0;
            let now = after_cluster_key(app, press, focused);
            let after = chat_log::cluster_at(now.log, focused as int);
            let calls = chat_log::call_ids(app.log, focused);
            &&& press.key == Key::Char(' ') || (press.key is Enter && !cluster.expanded) ==> (
            after matches Some(turned) && turned.expanded != cluster.expanded && turned.steps
                == cluster.steps)
            &&& (press.key == Key::Char(' ') || press.key is Enter) && !cluster.expanded
                && calls.len() > 0 ==> now.focused_tool_call == Some(calls[0])
            &&& press.key == Key::Char(' ') && cluster.expanded ==> now.focused_tool_call is None
            &&& press.key is Enter && cluster.expanded ==> now.log == app.log && (
            app.focused_tool_call is Some ==> now.tool_call_popup == app.focused_tool_call
                && now.tool_call_popup_scroll == 0)
            &&& press.key is Esc ==> now.focused_cluster is None && now.autoscroll && now.log
                == app.log
            &&& !(press.key is Enter || press.key is Char) ==> now.log == app.log
        }),
{
}

/// Up and Down move between the tool calls of an expanded cluster, and with the
/// Control key, or where the cluster is collapsed, to the nearest cluster above
/// or below.
pub proof fn arrows_move_to_the_nearest(app: AppView, press: KeyPress, focused: nat)
    requires
        focused < app.log.len(),
    ensures
        ({
            let now = after_cluster_key(app, press, focused);
            let walks = press.control || !is_expanded(app.log, focused);
            let calls = chat_log::call_ids(app.log, focused);
            &&& press.key is Up && walks && (exists|i: int|
                0 <= i < focused && #[trigger] app.log[i] is ToolCluster) ==> (
            now.focused_cluster matches Some(above) && above < focused
                && app.log[above as int] is ToolCluster && (forall|i: int|
                above < i < focused ==> !(#[trigger] app.log[i] is ToolCluster))
                && now.focused_tool_call is None)
            &&& press.key is Up && walks && (forall|i: int|
                0 <= i < focused ==> !(#[trigger] app.log[i] is ToolCluster)) ==> now == app
            &&& press.key is Down && walks && (exists|i: int|
                focused < i < app.log.len() && #[trigger] app.log[i] is ToolCluster) ==> (
            now.focused_cluster matches Some(below) && focused < below < app.log.len()
                && app.log[below as int] is ToolCluster && (forall|i: int|
                focused < i < below ==> !(#[trigger] app.log[i] is ToolCluster))
                && now.focused_tool_call is None)
            &&& press.key is Down && press.control && (forall|i: int|
                focused < i < app.log.len() ==> !(#[trigger] app.log[i] is ToolCluster))
                ==> now.focused_cluster is None
            &&& (press.key is Up || press.key is Down) && !walks ==> now.focused_cluster
                == app.focused_cluster && (now.focused_tool_call matches Some(id) ==> calls.contains(
                id,
            ))
        }),
{
    navigation::cluster_before_is_the_nearest(app.log, focused as int);
    navigation::cluster_from_is_the_nearest(app.log, focused as int + 1);
    let calls = chat_log::call_ids(app.log, focused);
    if let Some(selected) = app.focused_tool_call {
        calls.index_of_first_ensures(selected);
    }
}

/// A question takes every key until it is answered; then the details of a call
/// do, then the log, then the cluster in focus.
pub proof fn what_is_on_top_takes_the_keys(app: AppView, press: KeyPress, lines: Seq<Seq<char>>)
    ensures
        ({
            let (now, outcome) = after_key(app, press, lines);
            &&& app.pending_permission is Some ==> now == (AppView {
                pending_permission: now.pending_permission,
                ..app
            }) && (outcome is Done || outcome is Reply)
            &&& app.pending_permission is None && app.tool_call_popup is Some ==> outcome is Done
                && now == (AppView {
                tool_call_popup: now.tool_call_popup,
                tool_call_popup_scroll: now.tool_call_popup_scroll,
                ..app
            }) && (now.tool_call_popup is None <==> press.key is Esc)
            &&& app.pending_permission is None && app.tool_call_popup is None && app.log_popup
                ==> outcome is Done && now == (AppView {
                log_popup: now.log_popup,
                log_popup_scroll: now.log_popup_scroll,
                ..app
            }) && (!now.log_popup <==> press.key is Esc || (press.key == Key::Char('l')
                && press.control))
            &&& app.pending_permission is None && app.tool_call_popup is None && !app.log_popup
                && app.focused_cluster is Some ==> outcome is Done
        }),
{
}

} // verus!
