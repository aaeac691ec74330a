//! Commit messages built from structured parameters.

use kid_agentic_coding::commit::description::lowercase_first_char;
use kid_agentic_coding::commit::message::{
    build_commit_message, checked_build_commit_message, rejection_text, split_paragraphs,
    word_count, wrap_breaking_change_note_lines, CommitMessageError, CommitParams,
};

#[test]
fn main_build_commit_message_normalizes_description_and_breaking_change() {
    let params = CommitParams {
        commit_type: "feat".to_owned(),
        scope: Some("session".to_owned()),
        description: "Improve commit handling".to_owned(),
        body: "Handle commit messages centrally.".to_owned(),
        cwd: None,
        breaking_change_note: Some("The commit input is now structured.".to_owned()),
        amend: false,
    };

    let message = build_commit_message(&params).unwrap();

    assert_eq!(
        message,
        "feat(session)!: improve commit handling\n\nHandle commit messages centrally.\n\nBREAKING CHANGE: The commit input is now structured."
    );
}

#[test]
fn main_build_commit_message_reports_multiple_violations() {
    let params = CommitParams {
        commit_type: "unknown".to_owned(),
        scope: None,
        description: "A very long description that makes the summary too long".to_owned(),
        body: "BREAKING CHANGE".to_owned(),
        breaking_change_note: None,
        amend: false,
        cwd: None,
    };

    let errors = build_commit_message(&params).unwrap_err();

    assert_eq!(errors.len(), 3);
    assert!(
        errors
            .iter()
            .any(|error| error.message().contains("invalid commit type"))
    );
    assert!(
        errors
            .iter()
            .any(|error| error.message().contains("summary"))
    );
    assert!(
        errors
            .iter()
            .any(|error| error.message().contains("BREAKING CHANGE"))
    );
}

#[test]
fn build_commit_message_rejects_a_body_with_too_many_lines() {
    let params = CommitParams {
        commit_type: "fix".to_owned(),
        scope: None,
        description: "Trim the body".to_owned(),
        body: vec!["line"; 13].join("\n\n"),
        breaking_change_note: None,
        amend: false,
        cwd: None,
    };

    let errors = build_commit_message(&params).unwrap_err();

    assert!(
        errors
            .iter()
            .any(|error| error.message().contains("shorten the paragraphs"))
    );
}

#[test]
fn build_commit_message_rejects_a_breaking_change_note_with_too_many_lines() {
    let note = "word ".repeat(60).trim_end().to_owned();
    let params = CommitParams {
        commit_type: "feat".to_owned(),
        scope: None,
        description: "Break something".to_owned(),
        body: "Explain the break.".to_owned(),
        breaking_change_note: Some(note),
        amend: false,
        cwd: None,
    };

    let errors = build_commit_message(&params).unwrap_err();

    assert!(
        errors
            .iter()
            .any(|error| error.message().contains("longer than 4 lines"))
    );
}

#[test]
fn too_many_body_lines_error_reports_word_and_paragraph_count() {
    let params = CommitParams {
        commit_type: "fix".to_owned(),
        scope: None,
        description: "Trim the body".to_owned(),
        body: vec!["one two three four"; 13].join("\n\n"),
        breaking_change_note: None,
        amend: false,
        cwd: None,
    };

    let errors = build_commit_message(&params).unwrap_err();

    assert!(errors.iter().any(|error| {
        let message = error.message();
        message.contains("52 words") && message.contains("13 paragraph")
    }));
}

#[test]
fn too_many_breaking_change_lines_error_reports_word_count() {
    let note = "word ".repeat(60).trim_end().to_owned();
    let params = CommitParams {
        commit_type: "feat".to_owned(),
        scope: None,
        description: "Break something".to_owned(),
        body: "Explain the break.".to_owned(),
        breaking_change_note: Some(note),
        amend: false,
        cwd: None,
    };

    let errors = build_commit_message(&params).unwrap_err();

    assert!(
        errors
            .iter()
            .any(|error| error.message().contains("60 words"))
    );
}

#[test]
fn build_commit_message_splits_body_paragraphs_on_blank_lines() {
    let params = CommitParams {
        commit_type: "fix".to_owned(),
        scope: None,
        description: "Explain in two paragraphs".to_owned(),
        body: "First paragraph.\n\nSecond paragraph.".to_owned(),
        breaking_change_note: None,
        amend: false,
        cwd: None,
    };

    let message = build_commit_message(&params).unwrap();

    assert_eq!(
        message,
        "fix: explain in two paragraphs\n\nFirst paragraph.\n\nSecond paragraph."
    );
}

#[test]
fn build_commit_message_collapses_embedded_newlines_in_a_paragraph() {
    let params = CommitParams {
        commit_type: "fix".to_owned(),
        scope: None,
        description: "Rewrap a pre-broken paragraph".to_owned(),
        body: "Line one\nline two\nline three".to_owned(),
        breaking_change_note: None,
        amend: false,
        cwd: None,
    };

    let message = build_commit_message(&params).unwrap();

    assert_eq!(
        message,
        "fix: rewrap a pre-broken paragraph\n\nLine one line two line three"
    );
}

#[test]
fn main_lowercase_first_char_handles_empty_and_unicode_text() {
    assert_eq!(lowercase_first_char(""), "");
    assert_eq!(lowercase_first_char("Review"), "review");
    assert_eq!(lowercase_first_char("Änderung"), "änderung");
}

#[test]
fn main_breaking_change_note_wraps_and_indents_continuation_lines() {
    let note = "This breaking change note is deliberately long enough to wrap across multiple lines while keeping continuation lines indented.";

    assert_eq!(
        wrap_breaking_change_note_lines(note).join("\n    "),
        "This breaking change note is deliberately long enough\n    to wrap across multiple lines while keeping continuation lines\n    indented."
    );
}

#[test]
fn main_lowercase_first_char_preserves_acronyms() {
    assert_eq!(lowercase_first_char("Add"), "add");
    assert_eq!(lowercase_first_char("XML parser"), "XML parser");
}

fn params(commit_type: &str, description: &str, body: &str) -> CommitParams {
    CommitParams {
        commit_type: commit_type.to_owned(),
        scope: None,
        description: description.to_owned(),
        body: body.to_owned(),
        breaking_change_note: None,
        amend: false,
        cwd: None,
    }
}

#[test]
fn every_rule_is_reported_in_words() {
    let errors = build_commit_message(&params("feature", "Do it", " \n\n ")).unwrap_err();
    assert_eq!(
        rejection_text(&errors),
        "- invalid commit type: feature\n- commit body must not be empty"
    );

    let errors = build_commit_message(&params("fix", &"d".repeat(60), "Body.")).unwrap_err();
    assert_eq!(
        rejection_text(&errors),
        "- commit summary is 65 characters long and longer than 50 characters"
    );

    let error = CommitMessageError::TooManyBreakingChangeLines { lines: 5, words: 9 };
    assert_eq!(
        error.message(),
        "breaking change note wraps to 5 lines (9 words) and is longer than 4 lines — shorten the note"
    );
}

#[test]
fn bodies_are_wrapped_to_their_width() {
    let body = "word ".repeat(40);
    let message = build_commit_message(&params("docs", "Write", &body)).unwrap();

    let lines: Vec<&str> = message.lines().skip(2).collect();
    assert_eq!(lines.len(), 3);
    assert_eq!(lines[0].chars().count(), 69);
    assert_eq!(lines.join(" "), body.trim_end());
}

#[test]
fn a_first_letter_with_a_shorter_small_form_is_not_lowered() {
    assert!(checked_build_commit_message(&params("fix", "\u{212a}elvin", "Body.")).is_none());
    assert!(checked_build_commit_message(&params("fix", "Ankara", "Body.")).is_some());
}

#[test]
fn words_add_up_over_paragraphs() {
    let body = "\n\n one two\n\n\n three\tfour\nfive \n\n \n\nsix\n\n";
    let paragraphs = split_paragraphs(body);

    assert_eq!(paragraphs, ["one two", "three\tfour\nfive", "six"]);
    assert_eq!(word_count(&paragraphs), body.split_whitespace().count());
    let (first, second) = paragraphs.split_at(1);
    assert_eq!(
        word_count(&first.to_vec()) + word_count(&second.to_vec()),
        word_count(&paragraphs)
    );
    assert_eq!(word_count(&Vec::new()), 0);
}

#[test]
fn lowering_twice_changes_no_more() {
    for (value, lowered) in [
        ("Review it", "review it"),
        ("\u{c4}nderung", "\u{e4}nderung"),
        ("XML parser", "XML parser"),
        (" Leading", " Leading"),
    ] {
        assert_eq!(lowercase_first_char(value), lowered);
        assert_eq!(lowercase_first_char(lowered), lowered);
    }
}

#[test]
fn ascii_capitals_are_lowered_once() {
    for letter in 'A'..='Z' {
        let lower = letter.to_ascii_lowercase();
        let lowered = lowercase_first_char(&format!("{letter}b C"));
        assert_eq!(lowered, format!("{lower}b C"));
        assert_eq!(lowercase_first_char(&lowered), lowered);
        let acronym = format!("b{letter} c");
        assert_eq!(lowercase_first_char(&acronym), acronym);
        let acronym = format!("B{letter} c");
        assert_eq!(lowercase_first_char(&acronym), acronym);
    }
    for code in 0u8..0x80 {
        let c = char::from(code);
        if !c.is_ascii_uppercase() {
            let text = format!("{c}ab C");
            assert_eq!(lowercase_first_char(&text), text);
            let text = format!("A{c} b");
            assert_eq!(lowercase_first_char(&text), format!("a{c} b"));
        }
    }
}

#[test]
fn breaking_change_notes_keep_to_the_width() {
    for word in ["note", "a", "significant", "0123456789012345678901234567890"] {
        let params = CommitParams {
            commit_type: "fix".to_owned(),
            scope: None,
            description: "Trim the body".to_owned(),
            body: "Body.".to_owned(),
            cwd: None,
            breaking_change_note: Some(vec![word; 240 / (word.len() + 2)].join(" ")),
            amend: false,
        };
        let message = build_commit_message(&params).unwrap();
        let note: Vec<&str> = message.lines().skip(4).collect();
        assert!(note[0].starts_with("BREAKING CHANGE: "), "{message}");
        assert!(note.len() > 1 && note.len() <= 4);
        assert!(note[1..].iter().all(|line| line.starts_with("    ")));
        assert!(note.iter().all(|line| line.len() <= 72), "{message}");
    }
}
