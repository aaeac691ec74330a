//! What the keys of the terminal view do.

use kid_agentic_coding::bridge::{PermissionOption, SessionEvent, StopReason, ToolStatus};
use kid_agentic_coding::chat_log::{Message, SessionNoticeKind};
use kid_agentic_coding::ui::app::App;
use kid_agentic_coding::ui::keys::{Key, KeyOutcome, KeyPress, SCROLL_STEP};

/// The view with the prompt and the session that it talks to.
struct Terminal {
    app: App,
    prompt: Vec<String>,
    cancelled: bool,
    sent: Vec<String>,
}

impl Terminal {
    fn new() -> Self {
        Terminal {
            app: App::new(),
            prompt: vec![String::new()],
            cancelled: false,
            sent: Vec::new(),
        }
    }

    fn press(&mut self, press: KeyPress) {
        match self.app.handle_key(press, &self.prompt) {
            KeyOutcome::Done | KeyOutcome::Reply(_) => {}
            KeyOutcome::EditPrompt => {
                if let Key::Char(c) = press.key {
                    self.prompt[0].push(c);
                }
            }
            KeyOutcome::CancelTurn => self.cancelled = true,
            KeyOutcome::ClearPrompt => {
                self.cancelled = true;
                self.prompt = vec![String::new()];
            }
            KeyOutcome::SendPrompt(text) => {
                self.prompt = vec![String::new()];
                self.sent.push(text);
            }
        }
    }

    fn type_text(&mut self, text: &str) {
        for c in text.chars() {
            self.press(key(Key::Char(c)));
        }
    }

    fn push_tool_call(&mut self, id: &str, name: &str) {
        self.app.handle_session_event(SessionEvent::ToolCall {
            id: id.to_owned(),
            title: name.to_owned(),
            status: ToolStatus::Pending,
            parameters: None,
            result: None,
        });
    }
}

fn key(key: Key) -> KeyPress {
    KeyPress {
        key,
        control: false,
    }
}

fn ctrl_key(key: Key) -> KeyPress {
    KeyPress { key, control: true }
}

#[test]
fn session_error_is_added_to_chat_history() {
    let mut terminal = Terminal::new();

    terminal.app.handle_session_event(SessionEvent::Error("connection lost".to_owned()));

    assert!(matches!(
        &terminal.app.chat_log.messages()[0],
        Message::SessionNotice(notice)
            if notice.kind == SessionNoticeKind::Error
                && notice.text == "Session failed: connection lost"
    ));
}

#[test]
fn non_normal_stop_is_added_to_chat_history() {
    let mut terminal = Terminal::new();

    terminal.app.handle_session_event(SessionEvent::Stopped(StopReason::Cancelled));

    assert!(matches!(
        &terminal.app.chat_log.messages()[0],
        Message::SessionNotice(notice)
            if notice.kind == SessionNoticeKind::Stopped
                && notice.text == "Session cancelled."
    ));
}

#[test]
fn normal_stop_is_not_added_to_chat_history() {
    let mut terminal = Terminal::new();

    terminal.app.handle_session_event(SessionEvent::Stopped(StopReason::EndTurn));

    assert!(terminal.app.chat_log.is_empty());
}

#[test]
fn esc_clears_prompt_without_quitting() {
    let mut terminal = Terminal::new();
    terminal.type_text("hello");
    terminal.press(key(Key::Esc));

    assert!(terminal.cancelled);
    assert!(!terminal.app.should_quit);
    assert!(terminal.prompt.join(" ").trim().is_empty());
}

#[test]
fn ctrl_c_cancels_the_current_turn() {
    let mut terminal = Terminal::new();

    terminal.press(ctrl_key(Key::Char('c')));

    assert!(!terminal.app.should_quit);
    assert!(terminal.cancelled);
}

#[test]
fn colon_q_quits_on_enter() {
    let mut terminal = Terminal::new();

    terminal.type_text(":q");
    terminal.press(key(Key::Enter));

    assert!(terminal.app.should_quit);
}

#[test]
fn colon_quit_quits_on_enter() {
    let mut terminal = Terminal::new();

    terminal.type_text(":quit");
    terminal.press(key(Key::Enter));

    assert!(terminal.app.should_quit);
}

#[test]
fn regular_prompt_does_not_quit() {
    let mut terminal = Terminal::new();

    terminal.type_text("hello agent");
    terminal.press(key(Key::Enter));

    assert!(!terminal.app.should_quit);
    assert_eq!(terminal.app.chat_log.messages().len(), 1);
}

#[test]
fn ctrl_up_without_a_cluster_is_a_no_op() {
    let mut terminal = Terminal::new();

    terminal.press(ctrl_key(Key::Up));

    assert_eq!(terminal.app.focused_cluster, None);
}

#[test]
fn ctrl_up_focuses_the_last_tool_cluster() {
    let mut terminal = Terminal::new();
    terminal.push_tool_call("call-1", "read_file");

    terminal.press(ctrl_key(Key::Up));

    assert_eq!(terminal.app.focused_cluster, Some(0));
}

#[test]
fn autoscroll_is_active_by_default() {
    let terminal = Terminal::new();

    assert!(terminal.app.autoscroll);
}

#[test]
fn page_up_disables_autoscroll() {
    let mut terminal = Terminal::new();

    terminal.press(key(Key::PageUp));

    assert!(!terminal.app.autoscroll);
}

#[test]
fn ctrl_up_disables_autoscroll() {
    let mut terminal = Terminal::new();
    terminal.push_tool_call("call-1", "read_file");

    terminal.press(ctrl_key(Key::Up));

    assert!(!terminal.app.autoscroll);
}

#[test]
fn end_reenables_autoscroll() {
    let mut terminal = Terminal::new();
    terminal.press(key(Key::PageUp));

    terminal.press(key(Key::End));

    assert!(terminal.app.autoscroll);
}

#[test]
fn page_down_does_not_reenable_autoscroll() {
    let mut terminal = Terminal::new();
    terminal.press(key(Key::PageUp));

    terminal.press(key(Key::PageDown));

    assert!(!terminal.app.autoscroll);
}

#[test]
fn up_down_navigate_between_clusters_skipping_other_messages() {
    let mut terminal = Terminal::new();
    terminal.push_tool_call("call-1", "read_file");
    terminal.app.chat_log.push_agent("done with the first step");
    terminal.push_tool_call("call-2", "write_file");

    terminal.press(ctrl_key(Key::Up));
    assert_eq!(terminal.app.focused_cluster, Some(2));

    terminal.press(key(Key::Up));
    assert_eq!(terminal.app.focused_cluster, Some(0));

    terminal.press(key(Key::Down));
    assert_eq!(terminal.app.focused_cluster, Some(2));
}

#[test]
fn down_at_the_last_cluster_stays_put() {
    let mut terminal = Terminal::new();
    terminal.push_tool_call("call-1", "read_file");

    terminal.press(ctrl_key(Key::Up));
    terminal.press(key(Key::Down));

    assert_eq!(terminal.app.focused_cluster, Some(0));
}

#[test]
fn enter_toggles_the_focused_cluster() {
    let mut terminal = Terminal::new();
    terminal.push_tool_call("call-1", "read_file");
    terminal.press(ctrl_key(Key::Up));

    terminal.press(key(Key::Enter));

    let Message::ToolCluster(cluster) = &terminal.app.chat_log.messages()[0] else {
        panic!("expected a tool cluster");
    };
    assert!(cluster.expanded());
}

#[test]
fn space_toggles_the_focused_cluster() {
    let mut terminal = Terminal::new();
    terminal.push_tool_call("call-1", "read_file");
    terminal.press(ctrl_key(Key::Up));

    terminal.press(key(Key::Char(' ')));

    let Message::ToolCluster(cluster) = &terminal.app.chat_log.messages()[0] else {
        panic!("expected a tool cluster");
    };
    assert!(cluster.expanded());
}

#[test]
fn ctrl_down_returns_focus_to_the_prompt() {
    let mut terminal = Terminal::new();
    terminal.push_tool_call("call-1", "read_file");
    terminal.press(ctrl_key(Key::Up));

    terminal.press(ctrl_key(Key::Down));

    assert_eq!(terminal.app.focused_cluster, None);
}

#[test]
fn esc_returns_focus_to_the_prompt_without_clearing_it() {
    let mut terminal = Terminal::new();
    terminal.type_text("hello");
    terminal.push_tool_call("call-1", "read_file");
    terminal.press(ctrl_key(Key::Up));

    terminal.press(key(Key::Esc));

    assert_eq!(terminal.app.focused_cluster, None);
    assert_eq!(terminal.prompt.join(" ").trim(), "hello");
}

#[test]
fn esc_reenables_autoscroll_when_leaving_cluster_focus() {
    let mut terminal = Terminal::new();
    terminal.push_tool_call("call-1", "read_file");
    terminal.press(ctrl_key(Key::Up));
    assert!(!terminal.app.autoscroll);

    terminal.press(key(Key::Esc));

    assert!(terminal.app.autoscroll);
}

#[test]
fn expanded_cluster_opens_selected_tool_call_details() {
    let mut terminal = Terminal::new();
    terminal.push_tool_call("call-1", "read_file");

    terminal.press(ctrl_key(Key::Up));
    terminal.press(key(Key::Enter));
    terminal.press(key(Key::Enter));

    assert!(terminal.app.tool_call_popup.is_some());

    terminal.press(key(Key::Esc));
    assert!(terminal.app.tool_call_popup.is_none());
}

#[test]
fn tool_call_popup_opens_for_tool_call_with_result() {
    let mut terminal = Terminal::new();
    terminal.push_tool_call("call-1", "run_tests");
    terminal.app.handle_session_event(SessionEvent::ToolCallUpdate {
        id: "call-1".to_owned(),
        parameters: None,
        status: Some(ToolStatus::Failed),
        result: Some("assertion failed: left != right".to_owned()),
    });

    terminal.press(ctrl_key(Key::Up));
    terminal.press(key(Key::Enter));
    terminal.press(key(Key::Enter));

    assert!(terminal.app.tool_call_popup.is_some());
    assert_eq!(
        terminal
            .app
            .chat_log
            .tool_call(terminal.app.tool_call_popup.expect("popup should be open"))
            .and_then(|entry| entry.result.as_deref()),
        Some("assertion failed: left != right")
    );
}

#[test]
fn tool_call_popup_scrolls_multiline_result() {
    let mut terminal = Terminal::new();
    terminal.push_tool_call("call-1", "read_file");
    terminal.app.handle_session_event(SessionEvent::ToolCallUpdate {
        id: "call-1".to_owned(),
        parameters: None,
        status: Some(ToolStatus::Done),
        result: Some("line one\nline two\nline three".to_owned()),
    });

    terminal.press(ctrl_key(Key::Up));
    terminal.press(key(Key::Enter));
    terminal.press(key(Key::Enter));
    terminal.press(key(Key::PageDown));

    assert!(terminal.app.tool_call_popup.is_some());
    assert_eq!(terminal.app.tool_call_popup_scroll, SCROLL_STEP);
}

#[test]
fn typing_while_focused_on_a_cluster_does_not_reach_the_prompt() {
    let mut terminal = Terminal::new();
    terminal.push_tool_call("call-1", "read_file");
    terminal.press(ctrl_key(Key::Up));

    terminal.type_text("x");

    assert!(terminal.prompt.join(" ").trim().is_empty());
}

#[test]
fn ctrl_l_opens_the_log_popup() {
    let mut terminal = Terminal::new();

    terminal.press(ctrl_key(Key::Char('l')));

    assert!(terminal.app.log_popup);
}

#[test]
fn esc_closes_the_log_popup() {
    let mut terminal = Terminal::new();
    terminal.press(ctrl_key(Key::Char('l')));

    terminal.press(key(Key::Esc));

    assert!(!terminal.app.log_popup);
}

#[test]
fn ctrl_l_again_closes_the_log_popup() {
    let mut terminal = Terminal::new();
    terminal.press(ctrl_key(Key::Char('l')));

    terminal.press(ctrl_key(Key::Char('l')));

    assert!(!terminal.app.log_popup);
}

#[test]
fn page_down_scrolls_the_log_popup() {
    let mut terminal = Terminal::new();
    terminal.press(ctrl_key(Key::Char('l')));

    terminal.press(key(Key::PageDown));

    assert_eq!(terminal.app.log_popup_scroll, SCROLL_STEP);
}

#[test]
fn page_down_does_not_scroll_when_log_popup_is_closed() {
    let mut terminal = Terminal::new();

    terminal.press(key(Key::PageDown));

    assert_eq!(terminal.app.log_popup_scroll, 0);
}

#[test]
fn a_sent_prompt_is_trimmed_and_joined() {
    let mut terminal = Terminal::new();
    terminal.prompt = vec!["  hello".to_owned(), "agent ".to_owned()];

    terminal.press(key(Key::Enter));

    assert_eq!(terminal.sent, vec!["hello agent".to_owned()]);
    assert!(
        matches!(&terminal.app.chat_log.messages()[0], Message::User(m) if m.text == "hello agent")
    );
    assert_eq!(terminal.prompt, vec![String::new()]);
}

#[test]
fn an_empty_prompt_is_not_sent() {
    let mut terminal = Terminal::new();
    terminal.type_text("   ");

    terminal.press(key(Key::Enter));

    assert!(terminal.sent.is_empty());
    assert!(terminal.app.chat_log.is_empty());
}

#[test]
fn a_prompt_to_a_closed_session_quits() {
    let mut app = App::new();

    app.prompt_not_sent();

    assert!(app.should_quit);
    assert!(matches!(&app.chat_log.messages()[0], Message::Agent(m) if m.text == "[session closed]"));
}

#[test]
fn page_keys_collect_the_rows_to_scroll_by() {
    let mut terminal = Terminal::new();

    terminal.press(key(Key::PageUp));
    terminal.press(key(Key::PageUp));
    terminal.press(key(Key::PageDown));
    assert_eq!(terminal.app.pending_scroll_delta, -3);

    terminal.app.pending_scroll_delta = i16::MIN + 1;
    terminal.press(key(Key::PageUp));
    assert_eq!(terminal.app.pending_scroll_delta, i16::MIN);
}

fn permission_request() -> SessionEvent {
    SessionEvent::PermissionRequest {
        tool_call_id: "call-1".to_owned(),
        title: "Run tests".to_owned(),
        parameters: None,
        options: vec![
            PermissionOption {
                id: "allow".to_owned(),
                label: "Allow".to_owned(),
            },
            PermissionOption {
                id: "deny".to_owned(),
                label: "Deny".to_owned(),
            },
        ],
    }
}

#[test]
fn a_digit_answers_a_permission_request() {
    let mut app = App::new();
    app.handle_session_event(permission_request());

    assert_eq!(
        app.handle_key(key(Key::Char('3')), &vec![]),
        KeyOutcome::Done
    );
    assert_eq!(
        app.handle_key(key(Key::Char('0')), &vec![]),
        KeyOutcome::Done
    );
    assert_eq!(app.handle_key(key(Key::End), &vec![]), KeyOutcome::Done);
    assert!(app.pending_permission.is_some());

    assert_eq!(
        app.handle_key(key(Key::Char('2')), &vec![]),
        KeyOutcome::Reply(Some("deny".to_owned()))
    );
    assert!(app.pending_permission.is_none());
}

#[test]
fn escape_cancels_a_permission_request() {
    let mut app = App::new();
    app.handle_session_event(permission_request());

    assert_eq!(
        app.handle_key(key(Key::Esc), &vec![]),
        KeyOutcome::Reply(None)
    );
    assert!(app.pending_permission.is_none());
}

#[test]
fn a_permission_request_takes_the_keys_from_the_prompt() {
    let mut terminal = Terminal::new();
    terminal.app.handle_session_event(permission_request());

    terminal.type_text("x");
    terminal.press(ctrl_key(Key::Char('c')));

    assert!(terminal.prompt[0].is_empty());
    assert!(!terminal.cancelled);
}

#[test]
fn arrows_select_the_tool_calls_of_an_expanded_cluster() {
    let mut terminal = Terminal::new();
    terminal.push_tool_call("call-1", "first");
    terminal.push_tool_call("call-2", "second");
    terminal.press(ctrl_key(Key::Up));
    terminal.press(key(Key::Enter));
    let first = terminal.app.focused_tool_call;
    assert!(first.is_some());

    terminal.press(key(Key::Down));
    let second = terminal.app.focused_tool_call;
    assert_ne!(first, second);
    terminal.press(key(Key::Down));
    assert_eq!(terminal.app.focused_tool_call, second);

    terminal.press(key(Key::Up));
    assert_eq!(terminal.app.focused_tool_call, first);
    terminal.press(key(Key::Up));
    assert_eq!(terminal.app.focused_tool_call, None);
    terminal.press(key(Key::Up));
    assert_eq!(terminal.app.focused_tool_call, second);
}
