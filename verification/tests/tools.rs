//! The tools that the helper servers offer.

use kid_agentic_coding::commit::message::CommitParams;
use kid_agentic_coding::tools::close::{
    authorize_action, AuthorizationReply, Authorizing, CommitStart,
};
use kid_agentic_coding::tools::commit_workflow;
use kid_agentic_coding::tools::confetti::confetti;
use kid_agentic_coding::tools::gh::{gh_issue_list, gh_issue_view, run_gh, GhIssueState};
use kid_agentic_coding::tools::git::{git_add, git_commit, git_diff, git_status};
use kid_agentic_coding::tools::open::{
    commit_fix_event, git_commit_with_fix, notify_bridge, parse_commit_fix_ack, BridgeOutcome,
    GitCommitWithFixParams, COMMIT_FIX_INSTRUCTIONS,
};
use kid_agentic_coding::tools::process::{
    command_result, plain_command_result, process_output, ProcessRun,
};
use kid_agentic_coding::tools::python::{run_uv, PythonTool};
use kid_agentic_coding::tools::reply::{FailureData, ProcessOutput, ToolFailure, ToolReply};
use kid_agentic_coding::wire::socket::bridge_error;
use serde_json::Value;

const COMMIT_FIX_EVENT: &str = "commit-fix";

fn json(text: &str) -> Value {
    serde_json::from_str::<Value>(text).expect("one JSON line")
}

#[test]
fn commit_fix_event_contains_workflow_instructions_and_message() {
    let value = json(&commit_workflow::commit_fix_event("feat: preserve workflow"));

    assert_eq!(value["event"], COMMIT_FIX_EVENT);
    assert_eq!(
        value["instructions"],
        commit_workflow::COMMIT_FIX_INSTRUCTIONS
    );
    assert_eq!(value["commit_message"], "feat: preserve workflow");
}

#[test]
fn commit_fix_event_contains_workflow_instructions_and_context_fields() {
    let value = json(&commit_fix_event(GitCommitWithFixParams {
        amend: true,
        tldr: "Replace the flat context field with tldr/why/what.".to_owned(),
        why: "The flat context field was too vague to trigger reliably.".to_owned(),
        what: "Split context into tldr, why, and what fields.".to_owned(),
        cwd: None,
    }));

    assert_eq!(value["event"], COMMIT_FIX_EVENT);
    assert_eq!(value["instructions"], COMMIT_FIX_INSTRUCTIONS);
    assert_eq!(value["amend"], true);
    assert_eq!(
        value["tldr"],
        "Replace the flat context field with tldr/why/what."
    );
    assert_eq!(
        value["why"],
        "The flat context field was too vague to trigger reliably."
    );
    assert_eq!(
        value["what"],
        "Split context into tldr, why, and what fields."
    );
}

#[test]
fn main_bridge_error_names_the_socket_and_the_fs_socket_dir_flag() {
    let socket = "kid-agentic-coding-bridge-test";
    let message = bridge_error(socket, "no such file or directory");

    assert!(message.contains(socket));
    assert!(message.contains("--fs-socket-dir"));
    assert!(message.contains("sandbox"));
}

#[test]
fn commit_fix_ack_parses_every_outcome() {
    let ack = parse_commit_fix_ack(b"{\"outcome\":\"accepted\"}\n").expect("parses");
    assert_eq!(ack.outcome, "accepted");
    assert_eq!(ack.reason, None);

    let ack = parse_commit_fix_ack(
        b"{\"outcome\":\"ignored\",\"reason\":\"a fix session is already active\"}\n",
    )
    .expect("parses");
    assert_eq!(ack.outcome, "ignored");
    assert_eq!(
        ack.reason.as_deref(),
        Some("a fix session is already active")
    );

    let ack = parse_commit_fix_ack(
        b"{\"outcome\":\"rejected\",\"reason\":\"missing or non-string field 'why'\"}\n",
    )
    .expect("parses");
    assert_eq!(ack.outcome, "rejected");
    assert_eq!(
        ack.reason.as_deref(),
        Some("missing or non-string field 'why'")
    );
}

#[test]
fn malformed_commit_fix_acks_fail_to_parse() {
    assert!(parse_commit_fix_ack(b"{}\n").is_err());
    assert!(parse_commit_fix_ack(b"not json\n").is_err());
    assert!(parse_commit_fix_ack(b"").is_err());
}

#[test]
fn acks_that_are_no_text_fail_to_parse() {
    let error = parse_commit_fix_ack(&[0xff]).unwrap_err();

    assert!(error.contains("utf-8"));
}

#[test]
fn notify_bridge_reads_the_rejected_verdict_ack() {
    let answered = BridgeOutcome::Answered(
        b"{\"outcome\":\"rejected\",\"reason\":\"the test says no\"}\n".to_vec(),
    );

    let ack = notify_bridge("socket", &answered).unwrap().unwrap();
    assert_eq!(ack.outcome, "rejected");
    assert_eq!(ack.reason.as_deref(), Some("the test says no"));
    assert_eq!(
        git_commit_with_fix("socket", &answered),
        Ok(ToolReply::Error(
            "commit-fix request failed: the test says no".to_owned()
        ))
    );
}

#[test]
fn notify_bridge_reports_a_legacy_success_without_an_ack() {
    assert_eq!(notify_bridge("socket", &BridgeOutcome::Silent), Ok(None));
    assert_eq!(
        git_commit_with_fix("socket", &BridgeOutcome::Silent),
        Ok(ToolReply::Success("commit-fix session requested".to_owned()))
    );
}

#[test]
fn every_trouble_on_the_bridge_is_told_apart() {
    let gone = || "gone".to_owned();
    let cases = [
        (
            BridgeOutcome::NotWritten(gone()),
            "failed to write to the bridge socket 's': gone",
        ),
        (
            BridgeOutcome::NotHalfClosed(gone()),
            "failed to half-close the bridge socket 's': gone",
        ),
        (
            BridgeOutcome::NotArmed(gone()),
            "failed to arm the bridge ack timeout on 's': gone",
        ),
        (
            BridgeOutcome::NotRead(gone()),
            "failed to read the bridge ack on 's': gone",
        ),
    ];
    for (outcome, text) in cases {
        assert_eq!(notify_bridge("s", &outcome), Err(text.to_owned()));
        assert_eq!(
            git_commit_with_fix("s", &outcome),
            Err(ToolFailure::new("failed to notify commit-fix bridge", text))
        );
    }
    assert_eq!(
        notify_bridge("s", &BridgeOutcome::Unreachable(gone())),
        Err(bridge_error("s", "gone"))
    );
}

fn ended(status: i32, stdout: &str, stderr: &str) -> ProcessRun {
    ProcessRun::Ended(ProcessOutput {
        status,
        stdout: stdout.to_owned(),
        stderr: stderr.to_owned(),
    })
}

#[test]
fn main_command_result_includes_stderr_when_command_fails() {
    let failure = command_result(ended(7, "", " custom failure\n"), "git commit").unwrap_err();

    assert_eq!(failure.message, "git commit failed: custom failure");
    assert_eq!(
        failure.data,
        FailureData::Process(ProcessOutput {
            status: 7,
            stdout: String::new(),
            stderr: " custom failure\n".to_owned(),
        })
    );
    assert_eq!(
        failure.data.to_json(),
        r#"{"status":7,"stdout":"","stderr":" custom failure\n"}"#
    );
}

#[test]
fn commands_answer_with_all_they_printed() {
    assert_eq!(
        command_result(ended(0, "out", "err"), "git add"),
        Ok(ToolReply::Success("outerr".to_owned()))
    );
    assert_eq!(
        plain_command_result(ended(-1, "out", "err"), "cargo check")
            .unwrap_err()
            .message,
        "cargo check failed"
    );
    assert_eq!(
        command_result(ProcessRun::NoDirectory("gone".to_owned()), "git add"),
        Err(ToolFailure::new(
            "failed to determine working directory for git add",
            "gone"
        ))
    );
    assert_eq!(
        command_result(ProcessRun::NotRun("gone".to_owned()), "git add"),
        Err(ToolFailure::new("failed to run git add", "gone"))
    );
    assert_eq!(
        command_result(
            ProcessRun::NotExecuted {
                not_found: true,
                error: "gone".to_owned()
            },
            "git add"
        ),
        Err(ToolFailure::new("failed to execute git add", "gone"))
    );
}

#[test]
fn output_that_is_no_text_is_replaced() {
    assert_eq!(
        process_output(None, &[b'a', 0xff], b"b"),
        ProcessOutput {
            status: -1,
            stdout: "a\u{fffd}".to_owned(),
            stderr: "b".to_owned(),
        }
    );
}

#[test]
fn a_missing_program_is_named() {
    let missing = || ProcessRun::NotExecuted {
        not_found: true,
        error: "os error 2".to_owned(),
    };
    let failure = run_gh(missing()).unwrap_err();
    assert_eq!(failure.message, "failed to execute gh");
    assert_eq!(
        failure.data.to_json(),
        r#"{"error":"failed to execute gh","reason":"gh is not installed"}"#
    );
    let failure = run_uv(missing(), PythonTool::Lint).unwrap_err();
    assert_eq!(failure.message, "failed to execute mypy");
    assert!(failure.data.to_json().contains("uv is not installed"));

    assert_eq!(run_gh(ended(1, "", "")).unwrap().status, 1);
}

#[test]
fn commands_are_called_with_their_arguments() {
    assert_eq!(git_status().operation, "git status");
    assert_eq!(git_diff().operation, "git diff");
    assert_eq!(git_add("src").args, vec!["add", "src"]);
    assert_eq!(git_commit("m", false).args, vec!["commit", "-m", "m"]);
    assert_eq!(
        git_commit("m", true).args,
        vec!["commit", "--amend", "-m", "m"]
    );
    assert_eq!(
        gh_issue_list(GhIssueState::Open),
        vec!["issue", "list", "--state", "open", "--json", "number,issueType,title"]
    );
    assert_eq!(
        gh_issue_view(42),
        vec![
            "issue",
            "view",
            "42",
            "--json",
            "number,state,title,body,milestone,comments"
        ]
    );
    assert_eq!(PythonTool::LintTy.args(), vec!["run", "ty", "check"]);
}

#[test]
fn confetti_answers_whether_it_was_seen() {
    assert_eq!(
        confetti("s", None),
        Ok(ToolReply::Success("confetti invoked".to_owned()))
    );
    let failure = confetti("s", Some("gone")).unwrap_err();
    assert_eq!(failure.message, "failed to notify confetti bridge");
    assert_eq!(
        failure.data,
        FailureData::Reason(bridge_error("s", "gone"))
    );
    assert_eq!(
        commit_workflow::git_commit_with_check(Some("gone")),
        Err(ToolFailure::new("failed to notify commit-fix bridge", "gone"))
    );
}

fn authorized() -> AuthorizationReply {
    AuthorizationReply::Answered(b"{\"outcome\":\"authorized\"}\n".to_vec())
}

#[test]
fn actions_wait_for_the_word_of_the_app() {
    assert_eq!(authorize_action("s", &authorized()), Ok(()));
    let rejected = AuthorizationReply::Answered(
        b"{\"outcome\":\"rejected\",\"reason\":\"busy\"}\n".to_vec(),
    );
    assert_eq!(
        authorize_action("s", &rejected),
        Err(ToolFailure::new("close-action rejected", "busy"))
    );
    let cases = [
        (
            AuthorizationReply::Unreachable("gone".to_owned()),
            "failed to connect to close-action bridge",
        ),
        (
            AuthorizationReply::NotSent("gone".to_owned()),
            "failed to send close-action request",
        ),
        (
            AuthorizationReply::NotHalfClosed("gone".to_owned()),
            "failed to half-close close-action bridge",
        ),
        (
            AuthorizationReply::NotArmed("gone".to_owned()),
            "failed to arm close-action verdict timeout",
        ),
        (
            AuthorizationReply::NotRead("gone".to_owned()),
            "failed to read close-action verdict",
        ),
        (
            AuthorizationReply::Answered(b"{}".to_vec()),
            "malformed close-action verdict",
        ),
        (
            AuthorizationReply::Answered(vec![0xff]),
            "close-action verdict is not valid UTF-8",
        ),
    ];
    for (reply, message) in cases {
        assert_eq!(
            authorize_action("s", &reply).unwrap_err().message,
            message
        );
    }
}

fn commit_params(commit_type: &str) -> CommitParams {
    CommitParams {
        commit_type: commit_type.to_owned(),
        scope: None,
        description: "Trim lines".to_owned(),
        body: "Trim them.".to_owned(),
        breaking_change_note: None,
        amend: false,
        cwd: None,
    }
}

#[test]
fn a_commit_closes_the_session() {
    let Some(CommitStart::Started(call)) = Authorizing::git_commit("s", &commit_params("fix"))
    else {
        panic!("the message keeps to the rules");
    };
    assert_eq!(
        call.request_line(),
        r#"{"event":"close-action","action":"commit"}"#
    );
    let running = call.authorized(&authorized()).unwrap();
    assert_eq!(
        running.command().args,
        vec!["commit", "-m", "fix: trim lines\n\nTrim them."]
    );
    let reporting = running.finished(ended(0, "done", ""));
    let report = json(reporting.line());
    assert_eq!(report["event"], "commit-fix-done");
    assert_eq!(report["commit_message"], "fix: trim lines\n\nTrim them.");
    assert_eq!(
        reporting.reported(None),
        Ok(ToolReply::Success("done".to_owned()))
    );
}

#[test]
fn a_failed_action_keeps_the_session_open() {
    let running = Authorizing::git_add("s", "src")
        .authorized(&authorized())
        .unwrap();
    let reporting = running.finished(ended(128, "", "no such path\n"));
    let report = json(reporting.line());
    assert_eq!(report["event"], "close-action-outcome");
    assert_eq!(report["action"], "add");
    assert_eq!(report["success"], false);
    assert!(report["reason"]
        .as_str()
        .unwrap()
        .contains("git add failed: no such path"));
    assert_eq!(
        reporting.reported(Some("gone")).unwrap_err().message,
        "failed to notify close-action outcome"
    );
}

#[test]
fn a_message_against_the_rules_is_refused_at_once() {
    let Some(CommitStart::Refused(reply)) = Authorizing::git_commit("s", &commit_params("feature"))
    else {
        panic!("the type is not one of the rules");
    };
    assert_eq!(
        reply,
        ToolReply::Error("- invalid commit type: feature".to_owned())
    );
}

#[test]
fn a_rejected_action_does_not_run() {
    let reply = AuthorizationReply::Answered(
        b"{\"outcome\":\"rejected\",\"reason\":\"no fix session is active\"}".to_vec(),
    );

    assert!(Authorizing::git_add("s", "src").authorized(&reply).is_err());
}

#[test]
fn a_repeated_outcome_authorizes_nothing() {
    let reply = AuthorizationReply::Answered(
        b"{\"outcome\":\"rejected\",\"outcome\":\"authorized\"}\n".to_vec(),
    );

    assert_eq!(
        authorize_action("s", &reply),
        Err(ToolFailure::new(
            "malformed close-action verdict",
            "duplicate field `outcome`"
        ))
    );
}

#[test]
fn acks_with_repeated_members_fail_to_parse() {
    assert_eq!(
        parse_commit_fix_ack(b"{\"outcome\":\"a\",\"outcome\":\"b\"}").unwrap_err(),
        "malformed commit-fix ack '{\"outcome\":\"a\",\"outcome\":\"b\"}': duplicate field `outcome`"
    );
    assert!(
        parse_commit_fix_ack(b"{\"outcome\":\"a\",\"reason\":null,\"reason\":\"b\"}")
            .unwrap_err()
            .contains("duplicate field `reason`")
    );
    let ack = parse_commit_fix_ack(b"{\"outcome\":\"a\",\"x\":1,\"x\":2}").unwrap();
    assert_eq!((ack.outcome.as_str(), ack.reason), ("a", None));
}

#[test]
fn acks_are_read_from_lists() {
    let ack = parse_commit_fix_ack(b"[\"ignored\",\"busy\"]").unwrap();
    assert_eq!((ack.outcome.as_str(), ack.reason.as_deref()), ("ignored", Some("busy")));
    for (line, reason) in [
        ("[]", "invalid length 0, expected struct CommitFixAck with 2 elements"),
        ("[\"a\"]", "invalid length 1, expected struct CommitFixAck with 2 elements"),
        ("[\"a\",null,1]", "trailing characters"),
        ("3", "invalid type: integer `3`, expected struct CommitFixAck"),
    ] {
        assert_eq!(
            parse_commit_fix_ack(line.as_bytes()).unwrap_err(),
            format!("malformed commit-fix ack '{line}': {reason}")
        );
    }
}
