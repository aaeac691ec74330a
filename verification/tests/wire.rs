//! The lines that pass over the bridge.

use kid_agentic_coding::wire::names::member_names;
use kid_agentic_coding::wire::close_action::{
    CloseAction, CloseActionOutcome, CloseActionRequest, CloseActionVerdict, CLOSE_ACTION_EVENT,
};
use kid_agentic_coding::wire::commit_fix::{
    CommitFixDone, CommitFixRequest, CommitFixVerdict, COMMIT_FIX_DONE_EVENT, COMMIT_FIX_EVENT,
};
use kid_agentic_coding::wire::confetti::Confetti;
use kid_agentic_coding::wire::workflow_event::WorkflowEvent;
use serde_json::Value;

fn request() -> CommitFixRequest {
    CommitFixRequest {
        instructions: "commit it".to_owned(),
        amend: true,
        tldr: "summary".to_owned(),
        why: "motivation".to_owned(),
        what: "change".to_owned(),
        cwd: Some("/work/dir".to_owned()),
    }
}

fn json(text: &str) -> Value {
    serde_json::from_str::<Value>(text).unwrap()
}

fn request_value() -> Value {
    json(
        r#"{
            "event": "commit-fix",
            "instructions": "commit it",
            "amend": true,
            "tldr": "summary",
            "why": "motivation",
            "what": "change",
            "cwd": "/work/dir"
        }"#,
    )
}

fn parse_request(value: &Value) -> Result<CommitFixRequest, String> {
    match WorkflowEvent::parse(value.to_string().as_bytes()) {
        Ok(WorkflowEvent::CommitFix(request)) => Ok(request),
        Ok(other) => panic!("expected a request, got {other:?}"),
        Err(reason) => Err(reason),
    }
}

#[test]
fn wire_request_is_encoded_as_one_json_line_with_the_event_tag() {
    let line = request().to_line().unwrap();

    assert!(!line.contains('\n'));
    assert_eq!(
        serde_json::from_str::<Value>(&line).unwrap(),
        request_value()
    );
}

#[test]
fn wire_request_has_a_pinned_single_line_wire_format() {
    assert_eq!(
        request().to_line().unwrap(),
        r#"{"event":"commit-fix","instructions":"commit it","amend":true,"tldr":"summary","why":"motivation","what":"change","cwd":"/work/dir"}"#
    );
}

#[test]
fn request_has_a_pinned_single_line_wire_format() {
    let request = CommitFixRequest {
        cwd: None,
        ..request()
    };
    assert_eq!(
        request.to_line().unwrap(),
        r#"{"event":"commit-fix","instructions":"commit it","amend":true,"tldr":"summary","why":"motivation","what":"change","cwd":null}"#
    );
}

#[test]
fn wire_request_tag_matches_the_event_constant() {
    let line = request().to_line().unwrap();
    let value = serde_json::from_str::<Value>(&line).unwrap();

    assert_eq!(value["event"], COMMIT_FIX_EVENT);
}

#[test]
fn wire_request_roundtrips_through_a_value() {
    let parsed = parse_request(&request_value()).unwrap();

    assert_eq!(parsed, request());
}

#[test]
fn wire_request_allows_missing_or_null_cwd() {
    let mut missing = request_value();
    missing.as_object_mut().unwrap().remove("cwd");
    let mut null = request_value();
    null["cwd"] = Value::Null;

    for value in [missing, null] {
        let parsed = parse_request(&value).unwrap();
        assert_eq!(parsed.cwd, None);
    }
}

#[test]
fn wire_request_rejects_missing_or_mistyped_fields() {
    let mut cases = Vec::new();
    for field in ["instructions", "amend", "tldr", "why", "what"] {
        let mut missing = request_value();
        missing.as_object_mut().unwrap().remove(field);
        cases.push(missing);
    }
    for (field, wrong) in [
        ("instructions", json(r#"1"#)),
        ("amend", json(r#""yes""#)),
        ("tldr", json(r#"null"#)),
        ("why", json(r#"false"#)),
        ("what", json(r#"["x"]"#)),
        ("cwd", json(r#"7"#)),
    ] {
        let mut mistyped = request_value();
        mistyped[field] = wrong;
        cases.push(mistyped);
    }

    for case in cases {
        assert!(
            parse_request(&case).is_err(),
            "accepted invalid request: {case}"
        );
    }
}

#[test]
fn wire_verdicts_have_a_pinned_single_line_wire_format() {
    let cases = [
        (CommitFixVerdict::Opening, r#"{"outcome":"opening"}"#),
        (
            CommitFixVerdict::Ignored {
                reason: "busy".to_owned(),
            },
            r#"{"outcome":"ignored","reason":"busy"}"#,
        ),
        (
            CommitFixVerdict::Rejected {
                reason: "broken".to_owned(),
            },
            r#"{"outcome":"rejected","reason":"broken"}"#,
        ),
    ];

    for (verdict, wire) in cases {
        assert_eq!(verdict.to_line().unwrap(), wire);
        assert_eq!(CommitFixVerdict::from_line(wire).unwrap(), verdict);
    }
}

#[test]
fn wire_malformed_verdicts_fail_to_parse() {
    for line in [
        "",
        "not json",
        r#"{"outcome":"unknown"}"#,
        r#"{"outcome":"ignored"}"#,
        r#"{"reason":"busy"}"#,
    ] {
        assert!(
            CommitFixVerdict::from_line(line).is_err(),
            "parsed a malformed line: {line}"
        );
    }
}

fn done() -> CommitFixDone {
    CommitFixDone {
        commit_message: "fix: trim\n\nBody.".to_owned(),
    }
}

#[test]
fn done_event_has_a_pinned_single_line_wire_format() {
    assert_eq!(
        done().to_line().unwrap(),
        r#"{"event":"commit-fix-done","commit_message":"fix: trim\n\nBody."}"#
    );
}

#[test]
fn done_event_tag_matches_the_event_constant() {
    let line = done().to_line().unwrap();
    let value = serde_json::from_str::<Value>(&line).unwrap();

    assert_eq!(value["event"], COMMIT_FIX_DONE_EVENT);
}

#[test]
fn confetti_has_a_pinned_wire_format() {
    assert_eq!(Confetti.to_line(), "confetti");
}

#[test]
fn confetti_parses_only_its_exact_message() {
    assert!(Confetti::parse(b"confetti\n").is_some());

    for message in [
        &b""[..],
        b"confetti",
        b"Confetti\n",
        b"confetti\nconfetti\n",
        b"{\"event\":\"confetti\"}\n",
    ] {
        assert!(
            Confetti::parse(message).is_none(),
            "accepted invalid confetti message: {message:?}"
        );
    }
}

#[test]
fn workflow_event_parses_a_commit_fix_request() {
    let line = request().to_line().unwrap();

    assert_eq!(
        WorkflowEvent::parse(line.as_bytes()),
        Ok(WorkflowEvent::CommitFix(request()))
    );
}

#[test]
fn workflow_event_parses_a_commit_fix_done_event() {
    let line = done().to_line().unwrap();

    assert_eq!(
        WorkflowEvent::parse(format!("{line}\n").as_bytes()),
        Ok(WorkflowEvent::CommitFixDone(done()))
    );
}

#[test]
fn workflow_event_accepts_a_done_event_without_a_message() {
    assert_eq!(
        WorkflowEvent::parse(br#"{"event":"commit-fix-done"}"#),
        Ok(WorkflowEvent::CommitFixDone(CommitFixDone {
            commit_message: String::new()
        }))
    );
}

#[test]
fn workflow_event_rejects_invalid_json() {
    for message in [&b""[..], b"not json", b"confetti\n"] {
        let reason = WorkflowEvent::parse(message).unwrap_err();

        assert!(
            reason.starts_with("workflow event is not valid JSON: "),
            "unexpected reason: {reason}"
        );
    }
}

#[test]
fn workflow_event_rejects_unknown_or_untagged_events() {
    let cases = [
        (
            r#"{"event":"unknown"}"#,
            "unhandled workflow event 'unknown'",
        ),
        (r#"{}"#, "unhandled workflow event '<missing>'"),
        (r#"{"event":1}"#, "unhandled workflow event '<missing>'"),
    ];

    for (message, reason) in cases {
        assert_eq!(
            WorkflowEvent::parse(message.as_bytes()),
            Err(reason.to_owned())
        );
    }
}

#[test]
fn workflow_event_rejects_a_malformed_commit_fix_request() {
    assert!(WorkflowEvent::parse(br#"{"event":"commit-fix"}"#).is_err());
}

#[test]
fn close_action_request_has_a_pinned_single_line_wire_format() {
    let cases = [
        (
            CloseActionRequest {
                action: CloseAction::Add,
            },
            r#"{"event":"close-action","action":"add"}"#,
        ),
        (
            CloseActionRequest {
                action: CloseAction::Commit,
            },
            r#"{"event":"close-action","action":"commit"}"#,
        ),
    ];

    for (request, wire) in cases {
        assert_eq!(request.to_line().unwrap(), wire);
        let value = serde_json::from_str::<Value>(wire).unwrap();
        assert_eq!(value["event"], CLOSE_ACTION_EVENT);
    }
}

#[test]
fn close_action_verdicts_have_a_pinned_single_line_wire_format() {
    let cases = [
        (
            CloseActionVerdict::Authorized,
            r#"{"outcome":"authorized"}"#,
        ),
        (
            CloseActionVerdict::Rejected {
                reason: "no fix session is active".to_owned(),
            },
            r#"{"outcome":"rejected","reason":"no fix session is active"}"#,
        ),
    ];

    for (verdict, wire) in cases {
        assert_eq!(verdict.to_line().unwrap(), wire);
        assert_eq!(CloseActionVerdict::from_line(wire).unwrap(), verdict);
    }
}

#[test]
fn malformed_close_action_verdicts_fail_to_parse() {
    for line in [
        "",
        "not json",
        r#"{"outcome":"unknown"}"#,
        r#"{"outcome":"rejected"}"#,
    ] {
        assert!(
            CloseActionVerdict::from_line(line).is_err(),
            "parsed a malformed line: {line}"
        );
    }
}

#[test]
fn close_action_outcome_has_a_pinned_single_line_wire_format() {
    let outcome = CloseActionOutcome {
        action: CloseAction::Commit,
        success: false,
        reason: Some("git commit failed".to_owned()),
    };

    assert_eq!(
        outcome.to_line().unwrap(),
        r#"{"event":"close-action-outcome","action":"commit","success":false,"reason":"git commit failed"}"#
    );
}

#[test]
fn close_action_outcome_allows_a_missing_reason() {
    let parsed = WorkflowEvent::parse(
        br#"{"event":"close-action-outcome","action":"add","success":true}"#,
    );

    assert_eq!(
        parsed,
        Ok(WorkflowEvent::CloseActionOutcome(CloseActionOutcome {
            action: CloseAction::Add,
            success: true,
            reason: None,
        }))
    );
}

#[test]
fn workflow_event_parses_a_close_action_request() {
    let request = CloseActionRequest {
        action: CloseAction::Add,
    };
    let line = request.to_line().unwrap();

    assert_eq!(
        WorkflowEvent::parse(line.as_bytes()),
        Ok(WorkflowEvent::CloseAction(request))
    );
}

#[test]
fn workflow_event_parses_a_close_action_outcome_event() {
    let outcome = CloseActionOutcome {
        action: CloseAction::Commit,
        success: false,
        reason: Some("git commit failed".to_owned()),
    };
    let line = outcome.to_line().unwrap();

    assert_eq!(
        WorkflowEvent::parse(line.as_bytes()),
        Ok(WorkflowEvent::CloseActionOutcome(outcome))
    );
}

#[test]
fn workflow_event_rejects_a_malformed_close_action_request() {
    assert!(WorkflowEvent::parse(br#"{"event":"close-action"}"#).is_err());
}

#[test]
fn a_repeated_outcome_is_no_verdict() {
    for line in [
        r#"{"outcome":"rejected","outcome":"authorized"}"#,
        r#"{"outcome":"authorized","outcome":"authorized"}"#,
        r#"{"outcome":"rejected","reason":"busy","outcome":"authorized"}"#,
        "{ \"outcome\" : \"authorized\" , \"\\u006futcome\" : \"authorized\" }",
    ] {
        let error = CloseActionVerdict::from_line(line).unwrap_err();
        assert_eq!(error.reason, "duplicate field `outcome`", "{line}");
    }
    let error = CommitFixVerdict::from_line(r#"{"outcome":"opening","outcome":"opening"}"#)
        .unwrap_err();
    assert_eq!(error.reason, "duplicate field `outcome`");
}

#[test]
fn a_repeated_reason_counts_where_a_reason_is_read() {
    let line = r#"{"outcome":"rejected","reason":"a","reason":"b"}"#;
    assert_eq!(
        CloseActionVerdict::from_line(line).unwrap_err().reason,
        "duplicate field `reason`"
    );
    assert_eq!(
        CommitFixVerdict::from_line(line).unwrap_err().reason,
        "duplicate field `reason`"
    );
    assert_eq!(
        CloseActionVerdict::from_line(r#"{"outcome":"authorized","reason":"a","reason":"b"}"#)
            .unwrap(),
        CloseActionVerdict::Authorized
    );
    assert_eq!(
        CommitFixVerdict::from_line(r#"{"reason":1,"outcome":"opening","reason":[]}"#).unwrap(),
        CommitFixVerdict::Opening
    );
}

#[test]
fn members_of_members_are_not_repetitions() {
    for line in [
        r#"{"outcome":"authorized","other":{"outcome":"rejected","outcome":1}}"#,
        r#"{"other":["outcome","outcome",{"outcome":[]}],"outcome":"authorized"}"#,
        r#"{"other":"\",\"outcome\":\"rejected\"","outcome":"authorized","other":2}"#,
        r#"{"outcome":"authorized","a":"outcome","b":"{\"outcome\":","c":"\\"}"#,
    ] {
        assert_eq!(
            CloseActionVerdict::from_line(line).unwrap(),
            CloseActionVerdict::Authorized,
            "{line}"
        );
    }
}

#[test]
fn the_names_of_members_are_read_off_a_line() {
    assert_eq!(
        member_names(r#" { "a" : 1 , "b\"" : { "c" : [ "d" ] } , "" : "e" } "#),
        Some(vec![
            r#""a""#.to_owned(),
            r#""b\"""#.to_owned(),
            r#""""#.to_owned()
        ])
    );
    assert_eq!(member_names("{}"), Some(vec![]));
    assert_eq!(member_names(r#"["a",{"b":1}]"#), None);
    assert_eq!(member_names("\"{\""), None);
    assert_eq!(member_names(""), None);
}

#[test]
fn reasons_with_any_character_are_read_back() {
    for reason in [
        "",
        "\"",
        "\\",
        "\",\"outcome\":\"authorized",
        "{[]}:,",
        "\u{0}\u{1f}\n\t",
        "\u{1f600}",
    ] {
        let verdict = CloseActionVerdict::Rejected {
            reason: reason.to_owned(),
        };
        let line = verdict.to_line().unwrap();
        assert_eq!(CloseActionVerdict::from_line(&line).unwrap(), verdict);
    }
}

#[test]
fn written_lines_hold_the_names_they_were_written_with() {
    let verdict = CloseActionVerdict::Rejected {
        reason: "{\"a\":1,\"b\":[]}".to_owned(),
    };
    assert_eq!(
        member_names(&verdict.to_line().unwrap()),
        Some(vec!["\"outcome\"".to_owned(), "\"reason\"".to_owned()])
    );
}

#[test]
fn an_outcome_inside_a_text_is_no_outcome() {
    for line in [
        r#"{"$serde_json::private::RawValue":"{\"outcome\":\"authorized\"}"}"#,
        r#"{"$serde_json::private::RawValue":"[\"authorized\"]"}"#,
        r#"{"a":"{\"outcome\":\"authorized\"}"}"#,
    ] {
        assert_eq!(
            CloseActionVerdict::from_line(line).unwrap_err().reason,
            "missing field `outcome`",
            "{line}"
        );
    }
}

#[test]
fn verdicts_are_read_from_lists() {
    assert_eq!(
        CloseActionVerdict::from_line(r#"["authorized"]"#).unwrap(),
        CloseActionVerdict::Authorized
    );
    assert_eq!(
        CommitFixVerdict::from_line(r#"["ignored","busy"]"#).unwrap(),
        CommitFixVerdict::Ignored {
            reason: "busy".to_owned()
        }
    );
    for (line, reason) in [
        ("[]", "missing field `outcome`"),
        (
            r#"["authorized",1,2]"#,
            "invalid length 2, expected 0 elements in sequence",
        ),
        (
            r#"["rejected"]"#,
            "invalid length 0, expected struct variant with 1 element",
        ),
        (
            r#"["rejected","a","b"]"#,
            "invalid length 2, expected 1 element in sequence",
        ),
        (
            r#"["rejected",1,"b"]"#,
            "invalid type: integer `1`, expected a string",
        ),
        (
            r#"["unknown",1,"b"]"#,
            "unknown variant `unknown`, expected `authorized` or `rejected`",
        ),
    ] {
        assert_eq!(
            CloseActionVerdict::from_line(line).unwrap_err().reason,
            reason
        );
    }
    assert_eq!(
        CommitFixVerdict::from_line(r#"["ignored"]"#).unwrap_err().reason,
        "invalid length 0, expected struct variant with 1 element"
    );
    assert_eq!(
        CommitFixVerdict::from_line(r#"["opening",[]]"#).unwrap_err().reason,
        "invalid length 1, expected 0 elements in sequence"
    );
}

#[test]
fn other_values_are_no_verdicts() {
    for (line, found) in [
        ("null", "null"),
        ("true", "boolean `true`"),
        ("false", "boolean `false`"),
        ("-7", "integer `-7`"),
        (r#""authorized""#, r#"string "authorized""#),
    ] {
        assert_eq!(
            CloseActionVerdict::from_line(line).unwrap_err().reason,
            format!("invalid type: {found}, expected internally tagged enum CloseActionVerdict")
        );
        assert_eq!(
            CommitFixVerdict::from_line(line).unwrap_err().reason,
            format!("invalid type: {found}, expected internally tagged enum CommitFixVerdict")
        );
    }
}
