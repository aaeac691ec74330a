//! What a session makes of tool calls and of requests for fix sessions.

use kid_agentic_coding::acp::{ContentBlock, ToolCallContent, ToolCallStatus, ToolKind};
use kid_agentic_coding::json::Document;
use kid_agentic_coding::session::ack::{commit_fix_ack_line, CommitFixVerdict};
use kid_agentic_coding::session::commit_fix_event::parse_commit_fix_event;
use kid_agentic_coding::session::tool_call::{
    permission_request_details, tool_call_result, tool_call_target, tool_call_title,
};
use serde_json::Value;

fn json(text: &str) -> Value {
    serde_json::from_str::<Value>(text).unwrap()
}

fn document(value: &Value) -> Document {
    let members = value.as_object().unwrap();
    Document::Object(
        members
            .iter()
            .map(|(name, value)| (name.clone(), value.to_string()))
            .collect(),
    )
}

fn commit_fix_payload(cwd: Option<&str>) -> Value {
    let mut payload = json(
        r#"{
            "event": "commit-fix",
            "instructions": "Commit the current changes.",
            "amend": false,
            "tldr": "Fix the off-by-one in the parser.",
            "why": "Trailing newlines were doubled.",
            "what": "Trim one trailing newline before the split.",
            "cwd": null
        }"#,
    );
    if let Some(cwd) = cwd {
        payload["cwd"] = Value::String(cwd.to_owned());
    }
    payload
}

fn text_content(text: &str) -> ToolCallContent {
    ToolCallContent::Content(ContentBlock::Text(text.to_owned()))
}

#[test]
fn shell_commands_include_the_command_in_the_title() {
    assert_eq!(
        tool_call_title(ToolKind::Execute, "git log --oneline".to_owned(), None),
        "Shell command: git log --oneline"
    );
}

#[test]
fn non_shell_tool_titles_are_preserved() {
    assert_eq!(
        tool_call_title(ToolKind::Read, "Read app/src/ui.rs".to_owned(), None),
        "Read app/src/ui.rs"
    );
}

#[test]
fn file_operation_titles_get_the_target_file_appended() {
    assert_eq!(
        tool_call_title(
            ToolKind::Edit,
            "Edit file".to_owned(),
            Some(&"app/src/ui.rs".to_owned())
        ),
        "Edit file (app/src/ui.rs)"
    );
}

#[test]
fn file_operation_titles_are_not_duplicated_when_the_file_is_named() {
    assert_eq!(
        tool_call_title(
            ToolKind::Read,
            "Read app/src/ui.rs".to_owned(),
            Some(&"app/src/ui.rs".to_owned()),
        ),
        "Read app/src/ui.rs"
    );
    assert_eq!(
        tool_call_title(
            ToolKind::Read,
            "Edit ui.rs".to_owned(),
            Some(&"app/src/ui.rs".to_owned())
        ),
        "Edit ui.rs"
    );
}

#[test]
fn tool_target_prefers_locations_over_raw_input() {
    let locations = vec!["app/src/ui.rs".to_owned()];
    assert_eq!(
        tool_call_target(
            ToolKind::Read,
            &locations,
            Some(&r#"{"path": "other.rs"}"#.to_owned()),
        ),
        Some("app/src/ui.rs".to_owned())
    );
}

#[test]
fn tool_target_falls_back_to_raw_input() {
    assert_eq!(
        tool_call_target(
            ToolKind::Edit,
            &vec![],
            Some(&r#"{"file_path": "app/src/main.rs"}"#.to_owned()),
        ),
        Some("app/src/main.rs".to_owned())
    );
}

#[test]
fn tool_target_is_none_outside_file_operations() {
    assert_eq!(
        tool_call_target(
            ToolKind::Execute,
            &vec![],
            Some(&r#"{"path": "app/src/ui.rs"}"#.to_owned()),
        ),
        None
    );
    assert_eq!(tool_call_target(ToolKind::Read, &vec![], None), None);
}

#[test]
fn successful_read_results_are_reduced_to_line_counts() {
    assert_eq!(
        tool_call_result(
            Some(ToolKind::Read),
            Some(ToolCallStatus::Completed),
            &vec![text_content("fn main() {}")],
            None,
        ),
        Some("1 line".to_owned())
    );
    assert_eq!(
        tool_call_result(
            Some(ToolKind::Read),
            Some(ToolCallStatus::Completed),
            &vec![text_content("a\nb\nc")],
            None,
        ),
        Some("3 lines".to_owned())
    );
}

#[test]
fn failed_read_results_keep_the_full_output() {
    assert_eq!(
        tool_call_result(
            Some(ToolKind::Read),
            Some(ToolCallStatus::Failed),
            &vec![text_content("error: no such file")],
            None,
        ),
        Some("error: no such file".to_owned())
    );
}

#[test]
fn non_read_results_are_shown_verbatim() {
    assert_eq!(
        tool_call_result(
            Some(ToolKind::Execute),
            Some(ToolCallStatus::Completed),
            &vec![text_content("done")],
            None,
        ),
        Some("done".to_owned())
    );
}

#[test]
fn results_fall_back_to_pretty_printed_raw_output() {
    assert_eq!(
        tool_call_result(
            Some(ToolKind::Execute),
            Some(ToolCallStatus::Completed),
            &vec![],
            Some(&r#"{"ok": true}"#.to_owned()),
        ),
        Some("{\n  \"ok\": true\n}".to_owned())
    );
}

#[test]
fn permission_details_extract_title_and_raw_input() {
    assert_eq!(
        permission_request_details(
            Some("Read app/src/ui.rs".to_owned()),
            Some(r#"{"path":"app/src/ui.rs"}"#.to_owned())
        ),
        (
            "Read app/src/ui.rs".to_owned(),
            Some(r#"{"path":"app/src/ui.rs"}"#.to_owned())
        )
    );
}

#[test]
fn permission_details_fall_back_for_bare_tool_calls() {
    assert_eq!(
        permission_request_details(None, None),
        ("Tool call".to_owned(), None)
    );
}

#[test]
fn commit_fix_event_parses_a_full_payload() {
    let fields =
        parse_commit_fix_event(&document(&commit_fix_payload(Some("app")))).expect("payload parses");

    assert_eq!(fields.instructions, "Commit the current changes.");
    assert!(!fields.amend);
    assert_eq!(fields.tldr, "Fix the off-by-one in the parser.");
    assert_eq!(fields.why, "Trailing newlines were doubled.");
    assert_eq!(fields.what, "Trim one trailing newline before the split.");
    assert_eq!(fields.cwd, Some("app".to_owned()));
}

#[test]
fn commit_fix_event_allows_missing_or_null_cwd() {
    let without_cwd = json(
        r#"{
        "event": "commit-fix",
        "instructions": "Commit the current changes.",
        "amend": true,
        "tldr": "TL;DR",
        "why": "Why",
        "what": "What"
    }"#,
    );
    let fields = parse_commit_fix_event(&document(&without_cwd)).expect("payload parses");
    assert!(fields.amend);
    assert_eq!(fields.cwd, None);

    let fields = parse_commit_fix_event(&document(&commit_fix_payload(None))).expect("payload parses");
    assert_eq!(fields.cwd, None);
}

#[test]
fn commit_fix_event_rejects_missing_or_mistyped_fields() {
    let missing_instructions = json(
        r#"{
        "event": "commit-fix",
        "amend": false,
        "tldr": "TL;DR",
        "why": "Why",
        "what": "What"
    }"#,
    );
    assert!(
        parse_commit_fix_event(&document(&missing_instructions))
            .unwrap_err()
            .contains("instructions")
    );

    let mut value = commit_fix_payload(None);
    value["amend"] = json(r#""yes""#);
    assert!(
        parse_commit_fix_event(&document(&value))
            .unwrap_err()
            .contains("amend")
    );

    for field in ["tldr", "why", "what"] {
        let mut value = commit_fix_payload(None);
        value[field] = json("42");
        assert!(
            parse_commit_fix_event(&document(&value)).unwrap_err().contains(field),
            "field {field} must be rejected"
        );
    }

    let mut value = commit_fix_payload(None);
    value["cwd"] = json("7");
    assert!(parse_commit_fix_event(&document(&value)).unwrap_err().contains("cwd"));
}

#[test]
fn commit_fix_ack_lines_are_single_line_json() {
    assert_eq!(
        commit_fix_ack_line(&CommitFixVerdict::Accepted),
        r#"{"outcome":"accepted"}"#
    );
    assert_eq!(
        commit_fix_ack_line(&CommitFixVerdict::Ignored(
            "a fix session is already active".to_owned()
        )),
        r#"{"outcome":"ignored","reason":"a fix session is already active"}"#
    );
    assert_eq!(
        commit_fix_ack_line(&CommitFixVerdict::Rejected(
            "missing or non-string field 'why'".to_owned()
        )),
        r#"{"outcome":"rejected","reason":"missing or non-string field 'why'"}"#
    );
}

#[test]
fn titles_name_a_file_by_its_last_component() {
    let cases = [
        ("a/ui.rs", "Edit ui.rs", true),
        ("ui.rs", "Edit ui.rs", true),
        ("/a/ui.rs/", "Edit ui.rs", true),
        ("a//ui.rs//", "Edit ui.rs", true),
        ("a/ui.rs/.", "Edit ui.rs", true),
        ("a/ui.rs/./", "Edit ui.rs", true),
        ("a/ui.rs/..", "Edit ui.rs", false),
        ("a/ui.rs/b", "Edit ui.rs", false),
        ("./x", "Edit . here", false),
        ("./", "Edit . here", false),
        ("/./", "Edit . here", false),
        ("a/../", "Edit .. here", false),
        ("a/...", "Edit ... here", true),
        ("//", "Edit / here", false),
    ];
    for (path, title, named) in cases {
        let full = tool_call_title(ToolKind::Edit, title.to_owned(), Some(&path.to_owned()));
        let expected = if named {
            title.to_owned()
        } else {
            format!("{title} ({path})")
        };
        assert_eq!(full, expected, "{path}");
    }
}
