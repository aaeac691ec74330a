//! What the log popup shows.

use kid_agentic_coding::ui::log_popup::{log_lines, shown_line, LogLine};
use ratatui::style::{Color, Style};

#[test]
fn escape_sequences_become_styles() {
    let lines = vec!["\u{1b}[31mred\u{1b}[0m plain".to_owned()];

    let shown = log_lines(&lines);

    assert_eq!(shown.len(), 1);
    let LogLine::Parsed(parsed) = &shown[0] else {
        panic!("expected a line that was read");
    };
    assert_eq!(parsed.len(), 1);
    let spans: Vec<(&str, Style)> = parsed[0]
        .iter()
        .map(|span| (span.content.as_str(), span.style))
        .collect();
    assert_eq!(spans[0], ("red", Style::new().fg(Color::Red)));
    assert_eq!(spans[1].0, " plain");
    assert_ne!(spans[1].1.fg, Some(Color::Red));
}

#[test]
fn every_logged_line_is_shown_in_order() {
    let lines = vec!["one".to_owned(), String::new(), "two".to_owned()];

    let texts: Vec<String> = log_lines(&lines)
        .iter()
        .map(|line| match line {
            LogLine::Parsed(parsed) => parsed
                .iter()
                .flatten()
                .map(|span| span.content.as_str())
                .collect(),
            LogLine::Raw(text) => text.clone(),
        })
        .collect();

    assert_eq!(texts, lines);
}

#[test]
fn an_empty_log_shows_a_notice() {
    let shown = log_lines(&Vec::new());

    assert_eq!(shown.len(), 1);
    assert!(matches!(&shown[0], LogLine::Raw(text) if text == "No log output yet."));
}

#[test]
fn a_line_that_cannot_be_read_is_shown_as_it_is() {
    assert!(matches!(shown_line("\u{1b}[?", None), LogLine::Raw(text) if text == "\u{1b}[?"));
    assert!(matches!(
        shown_line("x", Some(Vec::new())),
        LogLine::Parsed(lines) if lines.is_empty()
    ));
}
