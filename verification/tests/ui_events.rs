//! What the terminal view makes of the events of a session.

use kid_agentic_coding::acp::ToolCallStatus;
use kid_agentic_coding::bridge::{SessionEvent, StopReason, ToolStatus};
use kid_agentic_coding::chat_log::{Message, Status, Step, ToolCallEntry, ToolCluster};
use kid_agentic_coding::ui::app::{map_tool_call_status, App};
use kid_agentic_coding::ui::cluster::{render_tool_cluster, strip_redundant_name};
use kid_agentic_coding::ui::confetti::Confetti;
use kid_agentic_coding::ui::fix_session::extract_commit_message;
use kid_agentic_coding::ui::style::{animated_status_icon, running_icon, status_style};

fn thought(text: &str) -> SessionEvent {
    SessionEvent::Thought(text.to_owned())
}

fn chunk(text: &str) -> SessionEvent {
    SessionEvent::Chunk(text.to_owned())
}

fn tool_cluster(app: &App, message_index: usize) -> &ToolCluster {
    let Message::ToolCluster(cluster) = &app.chat_log.messages()[message_index] else {
        panic!("expected a tool cluster at index {message_index}");
    };
    cluster
}

fn nth_tool_call(cluster: &ToolCluster, index: usize) -> &ToolCallEntry {
    let mut calls = cluster.steps().iter().filter_map(|step| match step {
        Step::ToolCall(entry) => Some(entry),
        Step::Thought(_) => None,
    });
    calls
        .nth(index)
        .expect("expected a tool call at that index")
}

#[test]
fn spoken_text_is_flushed_around_thoughts_and_tool_calls() {
    let mut app = App::new();

    app.handle_session_event(chunk("I will check that."));
    app.handle_session_event(thought("checking the project files"));
    app.handle_session_event(chunk("I found the relevant code."));
    app.handle_session_event(SessionEvent::ToolCall {
        id: "call-1".to_owned(),
        title: "read_file".to_owned(),
        status: ToolStatus::Pending,
        parameters: None,
        result: None,
    });
    app.handle_session_event(chunk("Here is the fix."));
    app.handle_session_event(SessionEvent::Stopped(
        StopReason::EndTurn,
    ));

    assert_eq!(app.chat_log.len(), 5);
    assert!(
        matches!(&app.chat_log.messages()[0], Message::Agent(message)
        if message.text == "I will check that.")
    );
    assert!(matches!(
        app.chat_log.messages()[1],
        Message::ToolCluster(_)
    ));
    assert!(
        matches!(&app.chat_log.messages()[2], Message::Agent(message)
        if message.text == "I found the relevant code.")
    );
    assert!(matches!(
        app.chat_log.messages()[3],
        Message::ToolCluster(_)
    ));
    assert!(
        matches!(&app.chat_log.messages()[4], Message::Agent(message)
        if message.text == "Here is the fix.")
    );
}

#[test]
fn tool_call_event_appends_entry_with_mapped_status() {
    let mut app = App::new();
    let id = "call-1".to_owned();

    app.handle_session_event(SessionEvent::ToolCall {
        id,
        title: "read_file".to_owned(),
        parameters: Some("{\"path\":\"src/lib.rs\"}".to_owned()),
        status: ToolStatus::Running,
        result: None,
    });

    assert_eq!(app.chat_log.len(), 1);
    let cluster = tool_cluster(&app, 0);
    assert_eq!(cluster.tool_call_count(), 1);
    let entry = nth_tool_call(cluster, 0);
    assert_eq!(entry.name, "read_file");
    assert_eq!(entry.status, Status::Running);
    assert_eq!(
        entry.parameters.as_deref(),
        Some("{\"path\":\"src/lib.rs\"}")
    );
}

#[test]
fn tool_call_update_changes_status_of_the_matching_entry() {
    let mut app = App::new();
    let id = "call-1".to_owned();

    app.handle_session_event(SessionEvent::ToolCall {
        id: id.clone(),
        title: "read_file".to_owned(),
        parameters: Some("{\"path\":\"src/lib.rs\"}".to_owned()),
        status: ToolStatus::Pending,
        result: None,
    });
    app.handle_session_event(SessionEvent::ToolCall {
        id: "call-2".to_owned(),
        title: "write_file".to_owned(),
        parameters: Some("{\"path\":\"src/main.rs\"}".to_owned()),
        status: ToolStatus::Pending,
        result: None,
    });
    app.handle_session_event(SessionEvent::ToolCallUpdate {
        id,
        parameters: Some("{\"path\":\"src/lib.rs\"}".to_owned()),
        status: Some(ToolStatus::Done),
        result: None,
    });
    let entry = nth_tool_call(tool_cluster(&app, 0), 0);
    assert_eq!(entry.status, Status::Done);
    assert_eq!(
        entry.parameters.as_deref(),
        Some("{\"path\":\"src/lib.rs\"}")
    );
    let second = nth_tool_call(tool_cluster(&app, 0), 1);
    assert_eq!(second.name, "write_file");
    assert_eq!(
        second.parameters.as_deref(),
        Some("{\"path\":\"src/main.rs\"}")
    );
}

#[test]
fn tool_call_update_for_unknown_id_is_a_no_op() {
    let mut app = App::new();
    app.handle_session_event(SessionEvent::ToolCall {
        id: "call-1".to_owned(),
        title: "read_file".to_owned(),
        parameters: None,
        status: ToolStatus::Pending,
        result: None,
    });

    app.handle_session_event(SessionEvent::ToolCallUpdate {
        id: "call-unknown".to_owned(),
        parameters: None,
        status: Some(ToolStatus::Done),
        result: None,
    });

    assert_eq!(
        nth_tool_call(tool_cluster(&app, 0), 0).status,
        Status::Pending
    );
}

#[test]
fn tool_call_update_without_status_is_a_no_op() {
    let mut app = App::new();
    let id = "call-1".to_owned();
    app.handle_session_event(SessionEvent::ToolCall {
        id: id.clone(),
        title: "read_file".to_owned(),
        parameters: None,
        status: ToolStatus::Pending,
        result: None,
    });

    app.handle_session_event(SessionEvent::ToolCallUpdate {
        id,
        status: None,
        parameters: None,
        result: None,
    });

    assert_eq!(
        nth_tool_call(tool_cluster(&app, 0), 0).status,
        Status::Pending
    );
}

#[test]
fn tool_call_result_on_creation_is_stored_on_the_entry() {
    let mut app = App::new();

    app.handle_session_event(SessionEvent::ToolCall {
        id: "call-1".to_owned(),
        title: "read_file".to_owned(),
        parameters: None,
        status: ToolStatus::Done,
        result: Some("file contents".to_owned()),
    });

    let entry = nth_tool_call(tool_cluster(&app, 0), 0);
    assert_eq!(entry.result.as_deref(), Some("file contents"));
}

#[test]
fn tool_call_update_stores_successful_result() {
    let mut app = App::new();
    let id = "call-1".to_owned();
    app.handle_session_event(SessionEvent::ToolCall {
        id: id.clone(),
        title: "run_tests".to_owned(),
        parameters: None,
        status: ToolStatus::Running,
        result: None,
    });

    app.handle_session_event(SessionEvent::ToolCallUpdate {
        id,
        status: Some(ToolStatus::Done),
        parameters: None,
        result: Some("3 passed; 0 failed".to_owned()),
    });

    let entry = nth_tool_call(tool_cluster(&app, 0), 0);
    assert_eq!(entry.status, Status::Done);
    assert_eq!(entry.result.as_deref(), Some("3 passed; 0 failed"));
}

#[test]
fn tool_cluster_renders_result_on_the_same_line_as_the_tool_call() {
    let mut app = App::new();
    app.handle_session_event(SessionEvent::ToolCall {
        id: "call-1".to_owned(),
        title: "Shell command".to_owned(),
        parameters: None,
        status: ToolStatus::Done,
        result: Some("command output".to_owned()),
    });

    let rendered = render_tool_cluster(tool_cluster(&app, 0), false, true, None, 0, 80);
    assert!(rendered.iter().any(|line| {
        let text = line.text.clone();
        text.contains("Shell command") && text.contains("command output")
    }));

    let entry = nth_tool_call(tool_cluster(&app, 0), 0);
    assert_eq!(entry.result.as_deref(), Some("command output"));
}

#[test]
fn tool_cluster_strips_redundant_name_prefix_from_result_comment() {
    let mut app = App::new();
    app.handle_session_event(SessionEvent::ToolCall {
        id: "call-1".to_owned(),
        title: "run_tests".to_owned(),
        parameters: None,
        status: ToolStatus::Done,
        result: Some(
            "run_tests: ok (12 words) with a long result comment that must wrap".to_owned(),
        ),
    });

    let rendered = render_tool_cluster(tool_cluster(&app, 0), false, true, None, 0, 20);
    assert!(
        rendered.len() > 2
            && rendered
                .iter()
                .all(|line| line.text.clone().chars().count() <= 20)
            && rendered
                .iter()
                .map(|line| line.text.clone())
                .map(|text| text.matches("run_tests").count())
                .sum::<usize>()
                == 1
    );
    assert!(
        rendered
            .iter()
            .skip(2)
            .all(|line| { line.text.clone().starts_with("│  ") })
    );
}

#[test]
fn strip_redundant_name_handles_colon_and_plain_prefixes() {
    assert_eq!(strip_redundant_name("run_tests: ok", "run_tests"), "ok");
    assert_eq!(strip_redundant_name("run_tests ok", "run_tests"), "ok");
    assert_eq!(strip_redundant_name("run_tests:ok", "run_tests"), "ok");
    assert_eq!(
        strip_redundant_name("other message", "run_tests"),
        "other message"
    );
}

#[test]
fn tool_call_update_stores_failure_result() {
    let mut app = App::new();
    let id = "call-1".to_owned();
    app.handle_session_event(SessionEvent::ToolCall {
        id: id.clone(),
        title: "run_tests".to_owned(),
        parameters: None,
        status: ToolStatus::Running,
        result: None,
    });

    app.handle_session_event(SessionEvent::ToolCallUpdate {
        id,
        status: Some(ToolStatus::Failed),
        parameters: None,
        result: Some("assertion failed: left != right".to_owned()),
    });

    let entry = nth_tool_call(tool_cluster(&app, 0), 0);
    assert_eq!(entry.status, Status::Failed);
    assert_eq!(
        entry.result.as_deref(),
        Some("assertion failed: left != right")
    );
}

#[test]
fn map_tool_call_status_covers_the_known_variants() {
    assert_eq!(
        map_tool_call_status(ToolCallStatus::Pending),
        Status::Pending
    );
    assert_eq!(
        map_tool_call_status(ToolCallStatus::InProgress),
        Status::Running
    );
    assert_eq!(
        map_tool_call_status(ToolCallStatus::Completed),
        Status::Done
    );
    assert_eq!(map_tool_call_status(ToolCallStatus::Failed), Status::Failed);
}

#[test]
fn consecutive_thoughts_are_merged_into_single_cluster() {
    let mut app = App::new();

    // Emit 3 consecutive Thought events
    app.handle_session_event(thought("checking the code"));
    app.handle_session_event(thought("analyzing the structure"));
    app.handle_session_event(thought("found the issue"));

    // After 3 thoughts, should have 1 cluster with all thoughts combined
    assert_eq!(app.chat_log.len(), 1);

    let Message::ToolCluster(cluster) = &app.chat_log.messages()[0] else {
        panic!("expected a tool cluster with thoughts");
    };

    // All 3 thoughts should be combined into ONE thought step
    let thought_count = cluster
        .steps()
        .iter()
        .filter(|step| matches!(step, Step::Thought(_)))
        .count();
    assert_eq!(thought_count, 1);

    // The combined thought should contain all 3 texts separated by spaces
    if let Step::Thought(text) = &cluster.steps()[0] {
        assert!(text.contains("checking the code"));
        assert!(text.contains("analyzing the structure"));
        assert!(text.contains("found the issue"));
    } else {
        panic!("expected a thought step");
    }
}

#[test]
fn tool_call_event_flushes_pending_thoughts() {
    let mut app = App::new();

    app.handle_session_event(thought("thinking about this"));
    app.handle_session_event(SessionEvent::ToolCall {
        id: "call-1".to_owned(),
        title: "run_tests".to_owned(),
        status: ToolStatus::Pending,
        parameters: None,
        result: None,
    });

    assert_eq!(app.chat_log.len(), 1);

    let Message::ToolCluster(cluster) = &app.chat_log.messages()[0] else {
        panic!("expected a tool cluster");
    };

    // Should have thought followed by tool call
    assert!(matches!(cluster.steps()[0], Step::Thought(_)));
    assert!(matches!(cluster.steps()[1], Step::ToolCall(_)));
}

#[test]
fn confetti_advances_and_expires() {
    let mut confetti = Confetti::new();
    assert!(confetti.tick());
    assert_eq!(confetti.frame, 1);

    for _ in 1..Confetti::DURATION {
        confetti.tick();
    }

    assert_eq!(confetti.frame, Confetti::DURATION);
    assert!(!confetti.tick());
}

#[test]
fn confetti_event_starts_animation() {
    let mut app = App::new();
    assert!(app.confetti.is_none());

    app.handle_session_event(SessionEvent::Confetti);

    assert_eq!(
        app.confetti.as_ref().map(|confetti| confetti.frame),
        Some(0)
    );
}

#[test]
fn running_tool_status_uses_the_live_spinner() {
    let (static_icon, _, _) = status_style(Status::Running);

    assert_eq!(
        animated_status_icon(Status::Running, 1, static_icon),
        running_icon(1)
    );
    assert_ne!(
        animated_status_icon(Status::Running, 1, static_icon),
        animated_status_icon(Status::Running, 2, static_icon)
    );
}

#[test]
fn settled_tool_status_keeps_its_static_icon() {
    let (static_icon, _, _) = status_style(Status::Done);

    assert_eq!(
        animated_status_icon(Status::Done, 1, static_icon),
        static_icon
    );
}

#[test]
fn extracts_the_message_field_from_json_parameters() {
    let parameters = r#"{"message": "fix: correct the thing"}"#;

    assert_eq!(
        extract_commit_message(Some(parameters)),
        "fix: correct the thing"
    );
}

#[test]
fn returns_empty_string_for_missing_parameters() {
    assert_eq!(extract_commit_message(None), "");
}

#[test]
fn returns_empty_string_for_malformed_json() {
    assert_eq!(extract_commit_message(Some("not json")), "");
}

#[test]
fn a_tool_call_update_ends_the_thought_and_the_message() {
    let update = || SessionEvent::ToolCallUpdate {
        id: "unknown".to_owned(),
        status: None,
        parameters: None,
        result: None,
    };
    let mut app = App::new();

    app.handle_session_event(thought("first"));
    app.handle_session_event(update());
    app.handle_session_event(thought("second"));
    assert_eq!(
        tool_cluster(&app, 0).steps(),
        [
            Step::Thought("first".to_owned()),
            Step::Thought("second".to_owned())
        ]
    );

    app.handle_session_event(chunk("one"));
    app.handle_session_event(update());
    app.handle_session_event(chunk("two"));
    assert_eq!(app.chat_log.len(), 3);
}

#[test]
fn an_event_of_another_session_ends_the_message() {
    let mut app = App::new();

    app.handle_session_event(chunk("one"));
    app.handle_session_event(SessionEvent::AutoPrompt("go on".to_owned()));
    app.handle_session_event(chunk("two"));

    assert_eq!(app.chat_log.len(), 2);
}

#[test]
fn a_blank_chunk_leaves_the_thought_to_go_on() {
    let mut app = App::new();

    app.handle_session_event(thought("first"));
    app.handle_session_event(chunk(" \n"));
    app.handle_session_event(thought("second"));

    assert_eq!(
        tool_cluster(&app, 0).steps(),
        [Step::Thought("first second".to_owned())]
    );
}

#[test]
fn confetti_drifts_by_one_step_at_most() {
    let mut app = App::new();
    app.handle_session_event(SessionEvent::Confetti);
    let before = app.confetti.as_ref().unwrap().particles.clone();

    app.handle_session_event(chunk("nothing of this moves it"));
    app.tick_confetti();

    let after = &app.confetti.as_ref().unwrap().particles;
    assert_eq!(after.len(), 128);
    for (from, to) in before.iter().zip(after) {
        assert!(from.0.abs_diff(to.0) <= 1);
        assert_eq!((from.1, from.2), (to.1, to.2));
    }
}
