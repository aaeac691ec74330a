//! What the terminal shows.

use kid_agentic_coding::bridge::{PermissionOption, SessionEvent, StopReason, ToolStatus};
use kid_agentic_coding::chat_log::{ChatLog, Message, Status};
use kid_agentic_coding::layout::geometry::{Borders, Rect};
use kid_agentic_coding::ui::app::{stop_reason_text, App};
use kid_agentic_coding::ui::areas::{centered_rect, chat_areas, screen_areas};
use kid_agentic_coding::ui::chat_view::Drawing;
use kid_agentic_coding::ui::cluster::render_tool_cluster;
use kid_agentic_coding::ui::confetti::{draw_confetti, drift, particle_of, Confetti, PARTICLES};
use kid_agentic_coding::ui::fix_session::{
    confirms_cancellation, opens_fix_session, COMMIT_FIX_WORKFLOW, GIT_COMMIT_WITH_CHECK_TITLE,
};
use kid_agentic_coding::ui::navigation::{
    cluster_index_after, cluster_index_before, last_cluster_index, next_tool_call,
    previous_tool_call,
};
use kid_agentic_coding::ui::popups::{permission_lines, prompt_title, tool_call_details};
use kid_agentic_coding::ui::style::{
    agent_color, running_icon, status_style, user_color, Color, TextStyle,
};

fn tool_call(id: &str, title: &str) -> SessionEvent {
    SessionEvent::ToolCall {
        id: id.to_owned(),
        title: title.to_owned(),
        status: ToolStatus::Running,
        parameters: None,
        result: None,
    }
}

#[test]
fn the_prompt_has_the_last_three_rows() {
    assert_eq!(
        screen_areas(Rect::new(0, 0, 80, 24)),
        (Rect::new(0, 0, 80, 21), Rect::new(0, 21, 80, 3))
    );
    assert_eq!(
        screen_areas(Rect::new(2, 5, 10, 3)),
        (Rect::new(2, 5, 10, 0), Rect::new(2, 5, 10, 3))
    );
}

#[test]
fn a_banner_shows_while_the_view_does_not_follow() {
    let area = Rect::new(0, 0, 80, 21);
    assert_eq!(chat_areas(true, area), (area, None));
    assert_eq!(
        chat_areas(false, area),
        (Rect::new(0, 0, 80, 20), Some(Rect::new(0, 20, 80, 1)))
    );
}

#[test]
fn popups_are_centered() {
    assert_eq!(
        centered_rect(60, 40, Rect::new(0, 0, 100, 50)),
        Rect::new(20, 15, 60, 20)
    );
}

#[test]
fn speech_is_drawn_in_bubbles() {
    let mut app = App::new();
    app.chat_log.push_user("Hello");
    app.handle_session_event(SessionEvent::Chunk("Hi".to_owned()));
    let picture = app.draw_chat_log(Rect::new(0, 1, 40, 20)).unwrap();

    assert_eq!(picture.drawings.len(), 2);
    let Drawing::Bubble {
        title,
        color,
        text,
        borders,
        line_skip,
        area,
    } = &picture.drawings[0]
    else {
        panic!("expected a bubble");
    };
    assert_eq!(title, " \u{f0d0} DevelAngel ");
    assert_eq!(*color, user_color());
    assert_eq!(text, "Hello");
    assert_eq!(*borders, Borders::all());
    assert_eq!(*line_skip, 0);
    assert_eq!((area.y, area.height), (1, 3));
    assert!(matches!(
        &picture.drawings[1],
        Drawing::Bubble { color, text, .. } if *color == agent_color() && text == "Hi"
    ));
    assert_eq!(picture.scroll_offset, 0);
}

#[test]
fn notices_and_transitions_are_drawn() {
    let mut app = App::new();
    app.handle_session_event(SessionEvent::Error("gone".to_owned()));
    app.handle_session_event(SessionEvent::Stopped(StopReason::Refusal));
    let prompt = app.enter_fix_session("fix: it");
    assert!(prompt.ends_with("[AUTO: Commit Message from Main Session]\nfix: it"));
    let picture = app.draw_chat_log(Rect::new(0, 0, 60, 20)).unwrap();

    assert!(matches!(
        &picture.drawings[0],
        Drawing::Notice { text, color: Color::Red, .. } if text == "Session failed: gone"
    ));
    assert!(matches!(
        &picture.drawings[1],
        Drawing::Notice { text, color: Color::Yellow, .. }
            if *text == stop_reason_text(&StopReason::Refusal)
    ));
    let Drawing::Rule {
        left,
        title,
        right,
        area,
    } = &picture.drawings[2]
    else {
        panic!("expected a rule");
    };
    assert_eq!(*title, format!(" \u{2699} {COMMIT_FIX_WORKFLOW} (main paused) "));
    assert_eq!(
        left.chars().count() + title.chars().count() + right.chars().count(),
        usize::from(area.width)
    );
}

#[test]
fn the_focused_cluster_is_scrolled_into_view() {
    let mut app = App::new();
    app.handle_session_event(tool_call("a", "first"));
    for i in 0..20 {
        app.chat_log.push_user(&format!("message {i}"));
    }
    let area = Rect::new(0, 0, 40, 10);
    let following = app.draw_chat_log(area).unwrap();
    assert_eq!(
        following.scroll_offset,
        following.total_height - area.height
    );

    app.autoscroll = false;
    app.focused_cluster = Some(0);
    let focused = app.draw_chat_log(area).unwrap();
    assert_eq!(focused.scroll_offset, 0);
    assert!(matches!(&focused.drawings[0], Drawing::Cluster { .. }));
}

#[test]
fn long_steps_are_wrapped_behind_their_branch() {
    let mut log = ChatLog::new();
    log.push_thought("one two three four");
    log.push_tool_call("bash");
    let Message::ToolCluster(cluster) = &log.messages()[0] else {
        panic!("expected a cluster");
    };

    let lines = render_tool_cluster(cluster, false, true, None, 0, 16);
    let texts: Vec<&str> = lines.iter().map(|line| line.text.as_str()).collect();
    assert!(texts[1].starts_with("├── 🤔 one"));
    assert!(texts[2].starts_with("│  "));
    assert!(texts.last().unwrap().starts_with("╰── 🔧 bash ◌"));
    assert!(lines[1..].iter().all(|line| line.style
        == TextStyle {
            color: Color::White,
            bold: false
        }));

    let selected = render_tool_cluster(cluster, true, true, Some(1), 0, 16);
    assert!(selected.last().unwrap().style.bold);
}

#[test]
fn settled_clusters_collapse_to_their_summary() {
    let mut log = ChatLog::new();
    let id = log.push_tool_call("bash");
    log.update_tool_call_status(id, Status::Done);
    let Message::ToolCluster(cluster) = &log.messages()[0] else {
        panic!("expected a cluster");
    };

    assert_eq!(render_tool_cluster(cluster, false, false, None, 0, 40).len(), 1);
    assert!(render_tool_cluster(cluster, false, true, None, 0, 40).len() > 1);
}

#[test]
fn confetti_falls_and_stays_on_screen() {
    let confetti = Confetti {
        frame: 2,
        particles: vec![
            (0, 0, '*'),
            (1000, 1000, '+'),
            (500, 500, '·'),
            (1000, 0, '*'),
        ],
    };
    let area = Rect::new(10, 20, 100, 6);
    let cells = draw_confetti(&confetti, area);

    let places: Vec<(u16, u16, char)> = cells
        .iter()
        .map(|cell| (cell.x, cell.y, cell.symbol))
        .collect();
    assert_eq!(
        places,
        vec![(10, 22, '*'), (109, 24, '+'), (59, 23, '·'), (109, 22, '*')]
    );
    assert_eq!(cells[0].color, Color::Yellow);
    assert_eq!(cells[3].color, Color::Magenta);
    let gone = Confetti {
        frame: 6,
        particles: vec![(0, 0, '*')],
    };
    assert!(draw_confetti(&gone, area).is_empty());
}

#[test]
fn confetti_drifts_between_its_edges() {
    assert_eq!(drift(0, 0), 0);
    assert_eq!(drift(7, 0), 6);
    assert_eq!(drift(7, 1), 8);
    assert_eq!(drift(1000, 1), 1000);
    assert_eq!(drift(7, 2), 7);
    assert_eq!(particle_of(1, 2, 1), (1, 2, '+'));
    let confetti = Confetti::new();
    assert_eq!(confetti.particles.len(), PARTICLES);
    assert!(confetti
        .particles
        .iter()
        .all(|(x, y, _)| *x <= 1000 && *y <= 1000));
}

#[test]
fn confetti_is_not_the_same_every_time() {
    assert_ne!(Confetti::new().particles, Confetti::new().particles);
}

#[test]
fn clusters_are_found_on_either_side() {
    let mut log = ChatLog::new();
    log.push_tool_call("first");
    log.push_user("between");
    log.push_tool_call("second");

    assert_eq!(last_cluster_index(&log), Some(2));
    assert_eq!(cluster_index_before(&log, 2), Some(0));
    assert_eq!(cluster_index_after(&log, 0), Some(2));
    assert_eq!(cluster_index_before(&log, 0), None);
    assert_eq!(cluster_index_after(&log, 2), None);
}

#[test]
fn moving_down_and_up_again_selects_the_same_call() {
    let mut log = ChatLog::new();
    let first = log.push_tool_call("first");
    let second = log.push_tool_call("second");
    let calls = log.tool_call_ids(0);
    assert_eq!(calls, vec![first, second]);

    assert_eq!(next_tool_call(&calls, Some(first)), Some(second));
    assert_eq!(previous_tool_call(&calls, Some(second)), Some(first));
    assert_eq!(next_tool_call(&[], None), None);
}

#[test]
fn permission_options_are_numbered() {
    let option = |label: &str| PermissionOption {
        id: "x".to_owned(),
        label: label.to_owned(),
    };
    assert_eq!(
        permission_lines(&vec![option("Allow"), option("Reject")]),
        vec!["1. Allow", "2. Reject"]
    );
    assert_eq!(prompt_title(None), " \u{f0d0} Prompt ");
    assert_eq!(
        prompt_title(Some("commit-fix")),
        " \u{f0d0} Prompt \u{2192} commit-fix "
    );
}

#[test]
fn tool_call_details_name_what_is_known() {
    let mut log = ChatLog::new();
    let id = log.push_tool_call_with_parameters("bash", Some("{}".to_owned()));
    assert_eq!(
        tool_call_details(log.tool_call(id).unwrap()),
        "Status: ◌ pending\n\nParameters\n{}\n\nResult\nNot available yet."
    );
    log.update_tool_call_status(id, Status::Failed);
    log.update_tool_call_result(id, "boom".to_owned());
    assert_eq!(
        tool_call_details(log.tool_call(id).unwrap()),
        "Status: ✗ failed\n\nParameters\n{}\n\nResult (failed)\nboom"
    );
}

#[test]
fn a_failed_commit_opens_one_fix_session() {
    let event = SessionEvent::ToolCall {
        id: "a".to_owned(),
        title: GIT_COMMIT_WITH_CHECK_TITLE.to_owned(),
        status: ToolStatus::Running,
        parameters: Some(r#"{"message":"fix: it"}"#.to_owned()),
        result: None,
    };

    assert_eq!(opens_fix_session(false, &event), Some("fix: it".to_owned()));
    assert_eq!(opens_fix_session(true, &event), None);
    assert_eq!(opens_fix_session(false, &tool_call("a", "bash")), None);
    assert!(confirms_cancellation(&SessionEvent::Stopped(
        StopReason::Cancelled
    )));
    assert!(!confirms_cancellation(&SessionEvent::Stopped(
        StopReason::EndTurn
    )));
}

#[test]
fn the_spinner_turns_in_four_steps() {
    assert_ne!(running_icon(0), running_icon(1));
    assert_eq!(running_icon(1), running_icon(5));
    assert_eq!(status_style(Status::Done), ("✓", Color::Green, "done"));
}

#[test]
fn every_stop_has_its_words() {
    let cases = [
        (StopReason::Cancelled, "Session cancelled."),
        (
            StopReason::MaxTokens,
            "Session stopped: maximum tokens reached.",
        ),
        (
            StopReason::MaxTurnRequests,
            "Session stopped: maximum turn requests reached.",
        ),
        (StopReason::EndTurn, ""),
        (
            StopReason::Other("Tired".to_owned()),
            "Session stopped: Tired.",
        ),
    ];
    for (reason, text) in cases {
        assert_eq!(stop_reason_text(&reason), text);
    }
}

#[test]
fn events_of_other_kinds_leave_the_view_alone() {
    let mut app = App::new();
    app.handle_session_event(SessionEvent::ModelChanged("model".to_owned()));

    assert!(app.chat_log.is_empty());
}

fn percent_of(length: u32, percent: u32) -> u16 {
    ((length * percent + 50) / 100) as u16
}

fn assert_columns(length: u16) {
    for percent in 0..=100u16 {
        let outer = u32::from((100 - percent) / 2);
        let before = percent_of(u32::from(length), outer);
        let after = percent_of(u32::from(length), outer + u32::from(percent));
        assert_eq!(
            centered_rect(percent, 100, Rect::new(0, 3, length, 7)),
            Rect::new(before, 3, after - before, 7),
            "{percent}% of {length} columns"
        );
    }
}

fn assert_rows(length: u16) {
    for percent in 0..=100u16 {
        let outer = u32::from((100 - percent) / 2);
        let before = percent_of(u32::from(length), outer);
        let after = percent_of(u32::from(length), outer + u32::from(percent));
        assert_eq!(
            centered_rect(100, percent, Rect::new(3, 0, 7, length)),
            Rect::new(3, before, 7, after - before),
            "{percent}% of {length} rows"
        );
    }
}

#[test]
fn centered_areas_take_a_percentage_of_few_columns() {
    for length in 0..=20 {
        assert_columns(length);
    }
}

#[test]
fn centered_areas_take_a_percentage_of_few_rows() {
    for length in 21..=41 {
        assert_rows(length);
    }
}

#[test]
fn centered_areas_take_a_percentage_of_many_columns() {
    for length in [79, 80, 99, 100, 101, 127, 200, 255, 1000, 40000, 65535] {
        assert_columns(length);
    }
}

#[test]
fn centered_areas_take_a_percentage_of_many_rows() {
    for length in [50, 51, 63, 85, 90, 97, 150, 333, 999, 12345, 65534] {
        assert_rows(length);
    }
}

#[test]
fn centered_areas_start_where_the_area_does() {
    for start in [1u16, 2, 10, 65000, 65530] {
        for percent in [0u16, 1, 33, 40, 50, 67, 85, 99, 100] {
            let length = 41u16.min(u16::MAX - start);
            let outer = u32::from((100 - percent) / 2);
            let before = percent_of(u32::from(length), outer);
            let after = percent_of(u32::from(length), outer + u32::from(percent));
            let centered = centered_rect(percent, percent, Rect::new(start, start, 41, 41));
            assert_eq!((centered.x, centered.width), (start + before, after - before));
            assert_eq!((centered.y, centered.height), (start + before, after - before));
        }
    }
    assert_eq!(
        centered_rect(90, 85, Rect::new(2, 1, 81, 24)),
        Rect::new(6, 3, 73, 20)
    );
}

#[test]
fn centered_areas_lie_within() {
    for percent in [0u16, 7, 50, 93, 100] {
        let area = Rect::new(5, 9, 83, 27);
        let centered = centered_rect(percent, 100 - percent, area);
        assert!(area.x <= centered.x && area.y <= centered.y);
        assert!(centered.x + centered.width <= area.x + area.width);
        assert!(centered.y + centered.height <= area.y + area.height);
    }
}
