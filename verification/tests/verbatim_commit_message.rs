//! Commit messages whose bodies are kept as they are.

use kid_agentic_coding::commit::description::{checked_lowercase_first_char, lowercase_first_char};
use kid_agentic_coding::commit::message::CommitParams;
use kid_agentic_coding::commit::verbatim::{
    build_commit_message, checked_build_commit_message, wrap_breaking_change_note,
};

#[test]
fn build_commit_message_normalizes_description_and_breaking_change() {
    let params = CommitParams {
        commit_type: "feat".to_owned(),
        scope: Some("session".to_owned()),
        description: "Improve commit handling".to_owned(),
        body: "Handle commit messages centrally.".to_owned(),
        breaking_change_note: Some("The commit input is now structured.".to_owned()),
        amend: false,
        cwd: None,
    };

    let message = build_commit_message(&params).unwrap();

    assert_eq!(
        message,
        "feat(session)!: improve commit handling\n\nHandle commit messages centrally.\n\nBREAKING CHANGE: The commit input is now structured."
    );
}

#[test]
fn build_commit_message_reports_multiple_violations() {
    let params = CommitParams {
        commit_type: "unknown".to_owned(),
        scope: None,
        description: "A very long description that makes the summary too long".to_owned(),
        body: format!("BREAKING CHANGE\n{}", "x".repeat(73)),
        breaking_change_note: None,
        amend: false,
        cwd: None,
    };

    let errors = build_commit_message(&params).unwrap_err();

    assert_eq!(errors.len(), 4);
    assert!(
        errors
            .iter()
            .any(|error| error.message().contains("invalid commit type"))
    );
    assert!(
        errors
            .iter()
            .any(|error| error.message().contains("summary"))
    );
    assert!(
        errors
            .iter()
            .any(|error| error.message().contains("BREAKING CHANGE"))
    );
    assert!(
        errors
            .iter()
            .any(|error| error.message().contains("body line 2"))
    );
}

#[test]
fn lowercase_first_char_handles_empty_and_unicode_text() {
    assert_eq!(lowercase_first_char(""), "");
    assert_eq!(lowercase_first_char("Review"), "review");
    assert_eq!(lowercase_first_char("Änderung"), "änderung");
}

#[test]
fn breaking_change_note_wraps_and_indents_continuation_lines() {
    let note = "This breaking change note is deliberately long enough to wrap across multiple lines while keeping continuation lines indented.";

    assert_eq!(
        wrap_breaking_change_note(note),
        "This breaking change note is deliberately long enough\n    to wrap across multiple lines while keeping continuation lines\n    indented."
    );
}

#[test]
fn lowercase_first_char_preserves_acronyms() {
    assert_eq!(lowercase_first_char("Add"), "add");
    assert_eq!(lowercase_first_char("XML parser"), "XML parser");
}

#[test]
fn an_empty_body_is_reported() {
    let params = CommitParams {
        commit_type: "fix".to_owned(),
        scope: None,
        description: "Trim".to_owned(),
        body: "  ".to_owned(),
        breaking_change_note: None,
        amend: false,
        cwd: None,
    };

    let errors = checked_build_commit_message(&params).unwrap().unwrap_err();
    assert_eq!(errors.len(), 1);
    assert!(errors[0].message().contains("empty"));
}

#[test]
fn letters_with_a_shorter_small_form_are_told_apart() {
    assert_eq!(checked_lowercase_first_char("Ab"), Some("ab".to_owned()));
    assert_eq!(checked_lowercase_first_char("\u{212a}elvin"), None);
}
