//! The tools that stage and commit in a fix session, and close it.
//!
//! A call goes through three states: it waits for the app to authorize its
//! action, its Git command runs, and its outcome is reported to the app. Only
//! an authorized call has a command to run.

use vstd::prelude::*;
use vstd::utf8;

use crate::commit::description;
use crate::commit::message;
use crate::commit::message::{checked_build_commit_message, rejection_text, CommitParams};
use crate::json;
use crate::text::chars;
use crate::text::chars::utf8_text;
use crate::text::lines;
use crate::text::lines::first_line;
use crate::text::search;
use crate::tools::git;
use crate::tools::git::{git_add, git_commit, CommandView, GitCommand};
use crate::tools::process;
use crate::tools::process::{command_result, ProcessRun};
use crate::tools::reply;
use crate::tools::reply::{DataView, FailureView, ReplyView, ToolFailure, ToolReply};
use crate::wire::close_action;
use crate::wire::close_action::{
    CloseAction, CloseActionOutcome, CloseActionRequest, CloseActionVerdict, OutcomeView,
    VerdictView,
};
use crate::wire::commit_fix;
use crate::wire::commit_fix::CommitFixDone;
use crate::wire::socket;
use crate::wire::socket::bridge_error;

verus! {

/// How far the request for an authorization got. The texts are the errors of
/// the operating system.
#[derive(Debug, PartialEq, Eq)]
pub enum AuthorizationReply {
    Unreachable(String),
    NotSent(String),
    NotHalfClosed(String),
    NotArmed(String),
    NotRead(String),
    Answered(Vec<u8>),
}

/// The verdict in the first line of what was received, or the failure to read
/// one.
pub open spec fn received_verdict(bytes: Seq<u8>) -> Result<VerdictView, FailureView> {
    if utf8::valid_utf8(bytes) {
        let line = lines::first_line_of(utf8::decode_utf8(bytes));
        match json::json_document(utf8::encode_utf8(line)) {
            Ok(document) => match close_action::verdict_of(line, document) {
                Ok(verdict) => Ok(verdict),
                Err(reason) => Err(reply::failed("malformed close-action verdict"@, reason)),
            },
            Err(reason) => Err(reply::failed("malformed close-action verdict"@, reason)),
        }
    } else {
        Err(
            reply::failed("close-action verdict is not valid UTF-8"@, chars::utf8_error(bytes)),
        )
    }
}

/// The failure of an action that is not authorized.
pub open spec fn refusal(verdict: Result<VerdictView, FailureView>) -> Option<FailureView> {
    match verdict {
        Ok(VerdictView::Authorized) => None,
        Ok(VerdictView::Rejected(reason)) => Some(
            reply::failed("close-action rejected"@, reason),
        ),
        Err(failure) => Some(failure),
    }
}

/// The failure of an action that is not authorized, from how far the request
/// got.
pub open spec fn unauthorized(socket: Seq<char>, reply: AuthorizationReply) -> Option<FailureView> {
    match reply {
        AuthorizationReply::Unreachable(error) => Some(
            reply::failed(
                "failed to connect to close-action bridge"@,
                socket::unreachable_text(socket, error@),
            ),
        ),
        AuthorizationReply::NotSent(error) => Some(
            reply::failed("failed to send close-action request"@, error@),
        ),
        AuthorizationReply::NotHalfClosed(error) => Some(
            reply::failed("failed to half-close close-action bridge"@, error@),
        ),
        AuthorizationReply::NotArmed(error) => Some(
            reply::failed("failed to arm close-action verdict timeout"@, error@),
        ),
        AuthorizationReply::NotRead(error) => Some(
            reply::failed("failed to read close-action verdict"@, error@),
        ),
        AuthorizationReply::Answered(bytes) => refusal(received_verdict(bytes@)),
    }
}

/// Whether a verdict lets an action go ahead.
pub fn heed_verdict(verdict: CloseActionVerdict) -> (allowed: Result<(), ToolFailure>)
    ensures
        match allowed {
            Ok(()) => refusal(Ok(verdict@)) is None,
            Err(failure) => refusal(Ok(verdict@)) == Some(failure@),
        },
{
    match verdict {
        CloseActionVerdict::Authorized => Ok(()),
        CloseActionVerdict::Rejected { reason } => Err(
            ToolFailure::new("close-action rejected", reason.as_str()),
        ),
    }
}

fn read_verdict(bytes: &[u8]) -> (verdict: Result<CloseActionVerdict, ToolFailure>)
    ensures
        match verdict {
            Ok(verdict) => received_verdict(bytes@) == Ok::<VerdictView, FailureView>(verdict@),
            Err(failure) => received_verdict(bytes@) == Err::<VerdictView, FailureView>(failure@),
        },
{
    let text = match utf8_text(bytes) {
        Ok(text) => text,
        Err(error) => {
            return Err(
                ToolFailure::new("close-action verdict is not valid UTF-8", error.as_str()),
            );
        },
    };
    let line = first_line(text.as_str());
    match CloseActionVerdict::from_line(line.as_str()) {
        Ok(verdict) => Ok(verdict),
        Err(error) => Err(
            ToolFailure::new("malformed close-action verdict", error.reason.as_str()),
        ),
    }
}

/// Whether the app authorized an action, from how far the request got.
pub fn authorize_action(socket: &str, reply: &AuthorizationReply) -> (allowed: Result<
    (),
    ToolFailure,
>)
    ensures
        match allowed {
            Ok(()) => unauthorized(socket@, *reply) is None,
            Err(failure) => unauthorized(socket@, *reply) == Some(failure@),
        },
{
    match reply {
        AuthorizationReply::Unreachable(error) => Err(
            ToolFailure::new(
                "failed to connect to close-action bridge",
                bridge_error(socket, error.as_str()).as_str(),
            ),
        ),
        AuthorizationReply::NotSent(error) => Err(
            ToolFailure::new("failed to send close-action request", error.as_str()),
        ),
        AuthorizationReply::NotHalfClosed(error) => Err(
            ToolFailure::new("failed to half-close close-action bridge", error.as_str()),
        ),
        AuthorizationReply::NotArmed(error) => Err(
            ToolFailure::new("failed to arm close-action verdict timeout", error.as_str()),
        ),
        AuthorizationReply::NotRead(error) => Err(
            ToolFailure::new("failed to read close-action verdict", error.as_str()),
        ),
        AuthorizationReply::Answered(bytes) => match read_verdict(bytes.as_slice()) {
            Ok(verdict) => heed_verdict(verdict),
            Err(failure) => Err(failure),
        },
    }
}

/// What a call is about.
#[verifier::ext_equal]
pub struct CallView {
    pub action: CloseAction,
    pub socket: Seq<char>,
    pub command: CommandView,
    /// The commit message, where the call commits.
    pub message: Seq<char>,
}

/// A call that waits to be authorized.
#[derive(Debug)]
pub struct Authorizing {
    action: CloseAction,
    socket: String,
    command: GitCommand,
    message: String,
}

impl View for Authorizing {
    type V = CallView;

    closed spec fn view(&self) -> CallView {
        CallView {
            action: self.action,
            socket: self.socket@,
            command: self.command@,
            message: self.message@,
        }
    }
}

/// A call whose command may run.
#[derive(Debug)]
pub struct Running {
    action: CloseAction,
    socket: String,
    command: GitCommand,
    message: String,
}

impl View for Running {
    type V = CallView;

    closed spec fn view(&self) -> CallView {
        CallView {
            action: self.action,
            socket: self.socket@,
            command: self.command@,
            message: self.message@,
        }
    }
}

/// A call whose command has run, and whose outcome is to be reported.
#[derive(Debug)]
pub struct Reporting {
    action: CloseAction,
    socket: String,
    line: String,
    result: Result<ToolReply, ToolFailure>,
}

/// What a call that has run is about.
#[verifier::ext_equal]
pub struct ReportView {
    pub action: CloseAction,
    pub socket: Seq<char>,
    pub line: Seq<char>,
    pub result: Result<ReplyView, FailureView>,
}

impl View for Reporting {
    type V = ReportView;

    closed spec fn view(&self) -> ReportView {
        ReportView {
            action: self.action,
            socket: self.socket@,
            line: self.line@,
            result: reply::result_view(self.result),
        }
    }
}

/// The call that stages a path.
pub open spec fn add_call(socket: Seq<char>, path: Seq<char>) -> CallView {
    CallView {
        action: CloseAction::Add,
        socket,
        command: git::add_command(path),
        message: Seq::empty(),
    }
}

/// The call that commits.
pub open spec fn commit_call(socket: Seq<char>, message: Seq<char>, amend: bool) -> CallView {
    CallView {
        action: CloseAction::Commit,
        socket,
        command: git::commit_command(message, amend),
        message,
    }
}

/// A call that commits, or the answer to one whose message breaks the rules.
#[derive(Debug)]
pub enum CommitStart {
    Refused(ToolReply),
    Started(Authorizing),
}

impl Authorizing {
    /// Starts to stage a file or directory.
    pub fn git_add(socket: &str, path: &str) -> (call: Self)
        ensures
            call@ == add_call(socket@, path@),
    {
        let message = String::new();
        assert(message@ =~= Seq::<char>::empty());
        Authorizing {
            action: CloseAction::Add,
            socket: socket.to_owned(),
            command: git_add(path),
            message,
        }
    }

    /// Starts to commit. A message that breaks the rules of commit messages is
    /// answered at once, without asking the app. There is no call where the
    /// description cannot be lowered.
    pub fn git_commit(socket: &str, params: &CommitParams) -> (start: Option<CommitStart>)
        ensures
            match start {
                Some(CommitStart::Refused(reply)) => {
                    &&& description::lowers_cleanly(params.description@)
                    &&& message::broken_rules(*params).len() > 0
                    &&& reply@ == ReplyView::Error(
                        message::rejection(message::broken_rules(*params)),
                    )
                },
                Some(CommitStart::Started(call)) => {
                    &&& description::lowers_cleanly(params.description@)
                    &&& message::broken_rules(*params).len() == 0
                    &&& call@ == commit_call(
                        socket@,
                        message::commit_message(*params),
                        params.amend,
                    )
                },
                None => !description::lowers_cleanly(params.description@),
            },
    {
        match checked_build_commit_message(params) {
            Some(Ok(message)) => {
                let command = git_commit(message.as_str(), params.amend);
                Some(
                    CommitStart::Started(
                        Authorizing {
                            action: CloseAction::Commit,
                            socket: socket.to_owned(),
                            command,
                            message,
                        },
                    ),
                )
            },
            Some(Err(errors)) => Some(
                CommitStart::Refused(ToolReply::Error(rejection_text(&errors))),
            ),
            None => None,
        }
    }

    /// The request for an authorization, as one JSON line.
    pub fn request_line(&self) -> (line: String)
        ensures
            line@ == json::object_text(close_action::request_members(self@.action)),
    {
        let request = CloseActionRequest { action: self.action };
        match request.to_line() {
            Ok(line) => line,
            Err(error) => error.reason,
        }
    }

    /// Goes on to run the command where the app authorized the action. Else
    /// the call has failed, and nothing is run.
    pub fn authorized(self, reply: &AuthorizationReply) -> (next: Result<Running, ToolFailure>)
        ensures
            match next {
                Ok(running) => unauthorized(self@.socket, *reply) is None && running@ == self@,
                Err(failure) => unauthorized(self@.socket, *reply) == Some(failure@),
            },
    {
        match authorize_action(self.socket.as_str(), reply) {
            Ok(()) => Ok(
                Running {
                    action: self.action,
                    socket: self.socket,
                    command: self.command,
                    message: self.message,
                },
            ),
            Err(failure) => Err(failure),
        }
    }
}

/// The result of the command of a call.
pub open spec fn call_result(call: CallView, run: ProcessRun) -> Result<ReplyView, FailureView> {
    process::result_of(
        run,
        call.command.operation,
        process::complaint_of(run, call.command.operation),
    )
}

/// The line that reports a result: a commit that succeeded closes the session;
/// anything else is the outcome of the action.
pub open spec fn report_line(call: CallView, result: Result<ReplyView, FailureView>) -> Seq<char> {
    if call.action is Commit && result is Ok {
        json::object_text(commit_fix::done_members(call.message))
    } else {
        json::object_text(
            close_action::outcome_members(
                OutcomeView {
                    action: call.action,
                    success: result is Ok,
                    reason: match result {
                        Ok(_) => None,
                        Err(failure) => Some(reply::failure_text(failure)),
                    },
                },
            ),
        )
    }
}

fn done_line(message: String) -> (line: String)
    ensures
        line@ == json::object_text(commit_fix::done_members(message@)),
{
    let done = CommitFixDone { commit_message: message };
    match done.to_line() {
        Ok(line) => line,
        Err(error) => error.reason,
    }
}

fn outcome_line(outcome: &CloseActionOutcome) -> (line: String)
    ensures
        line@ == json::object_text(close_action::outcome_members(outcome@)),
{
    match outcome.to_line() {
        Ok(line) => line,
        Err(error) => error.reason,
    }
}

impl Running {
    /// The command to run.
    pub fn command(&self) -> (command: &GitCommand)
        ensures
            command@ == self@.command,
    {
        &self.command
    }

    /// Goes on to report what came of the command.
    pub fn finished(self, run: ProcessRun) -> (next: Reporting)
        ensures
            next@ == (ReportView {
                action: self@.action,
                socket: self@.socket,
                line: report_line(self@, call_result(self@, run)),
                result: call_result(self@, run),
            }),
    {
        let result = command_result(run, self.command.operation);
        let line = match &result {
            Ok(_) => {
                if self.action == CloseAction::Commit {
                    done_line(self.message)
                } else {
                    outcome_line(
                        &CloseActionOutcome { action: self.action, success: true, reason: None },
                    )
                }
            },
            Err(failure) => outcome_line(
                &CloseActionOutcome {
                    action: self.action,
                    success: false,
                    reason: Some(failure.text()),
                },
            ),
        };
        Reporting { action: self.action, socket: self.socket, line, result }
    }
}

/// The answer of a call, from the error with which its report was not sent.
pub open spec fn final_result(report: ReportView, error: Option<Seq<char>>) -> Result<
    ReplyView,
    FailureView,
> {
    match error {
        Some(error) => Err(
            reply::failed(
                if report.action is Commit && report.result is Ok {
                    "failed to notify commit-fix-done bridge"@
                } else {
                    "failed to notify close-action outcome"@
                },
                socket::unreachable_text(report.socket, error),
            ),
        ),
        None => report.result,
    }
}

impl Reporting {
    /// The line that reports the outcome to the app.
    pub fn line(&self) -> (line: &str)
        ensures
            line@ == self@.line,
    {
        self.line.as_str()
    }

    /// The answer of the tool.
    pub fn reported(self, error: Option<&str>) -> (result: Result<ToolReply, ToolFailure>)
        ensures
            reply::result_view(result) == final_result(
                self@,
                match error {
                    Some(error) => Some(error@),
                    None => None,
                },
            ),
    {
        match error {
            Some(error) => {
                let message = if self.action == CloseAction::Commit && self.result.is_ok() {
                    "failed to notify commit-fix-done bridge"
                } else {
                    "failed to notify close-action outcome"
                };
                Err(
                    ToolFailure::new(message, bridge_error(self.socket.as_str(), error).as_str()),
                )
            },
            None => self.result,
        }
    }
}

/// Only the app's word lets a command run: every other reply refuses it.
pub proof fn nothing_runs_unauthorized(socket: Seq<char>, reply: AuthorizationReply)
    ensures
        unauthorized(socket, reply) is None <==> (reply matches AuthorizationReply::Answered(bytes)
            && received_verdict(bytes@) == Ok::<VerdictView, FailureView>(VerdictView::Authorized)),
{
}

/// The session is closed if and only if a commit succeeded: any other report
/// is the outcome of an action.
pub proof fn session_closes_with_a_commit(call: CallView, run: ProcessRun)
    ensures
        call.action is Commit && call_result(call, run) is Ok ==> report_line(
            call,
            call_result(call, run),
        ) == json::object_text(commit_fix::done_members(call.message)),
        !(call.action is Commit && call_result(call, run) is Ok) ==> exists|outcome: OutcomeView|
            report_line(call, call_result(call, run)) == json::object_text(
                #[trigger] close_action::outcome_members(outcome),
            ) && outcome.action == call.action && outcome.success == (call_result(call, run) is Ok),
{
    let result = call_result(call, run);
    if !(call.action is Commit && result is Ok) {
        let outcome = OutcomeView {
            action: call.action,
            success: result is Ok,
            reason: match result {
                Ok(_) => None,
                Err(failure) => Some(reply::failure_text(failure)),
            },
        };
        assert(report_line(call, result) == json::object_text(
            close_action::outcome_members(outcome),
        ));
    }
}

/// A call that stages asks for that action and stages its path; one that commits
/// asks for that action and commits its message, amending where that is asked.
pub proof fn calls_run_what_they_ask_for(
    socket: Seq<char>,
    path: Seq<char>,
    message: Seq<char>,
    amend: bool,
)
    ensures
        add_call(socket, path).action is Add,
        add_call(socket, path).socket == socket,
        add_call(socket, path).command.args.last() == path,
        add_call(socket, path).command.args[0] == "add"@,
        commit_call(socket, message, amend).action is Commit,
        commit_call(socket, message, amend).socket == socket,
        commit_call(socket, message, amend).message == message,
        commit_call(socket, message, amend).command.args[0] == "commit"@,
        commit_call(socket, message, amend).command.args.last() == message,
        commit_call(socket, message, amend).command.args.drop_last().contains("--amend"@) <==> amend,
{
    git::commits_carry_their_message(message, amend);
}

/// A refused action fails with the reason it was refused for, whatever kept it
/// from being authorized.
pub proof fn refusals_tell_their_reason(socket: Seq<char>, reply: AuthorizationReply)
    ensures
        reply matches AuthorizationReply::Answered(bytes) ==> (received_verdict(bytes@) matches Ok(
            VerdictView::Rejected(reason),
        ) ==> (unauthorized(socket, reply) matches Some(failure) && failure.data
            == DataView::Reason(reason) && failure.message == "close-action rejected"@)),
        reply matches AuthorizationReply::Unreachable(error) ==> (unauthorized(
            socket,
            reply,
        ) matches Some(failure) && (failure.data matches DataView::Reason(reason)
            && search::contains(reason, socket) && search::contains(reason, error@))),
        reply matches AuthorizationReply::NotSent(error) ==> (unauthorized(socket, reply) matches Some(
            failure,
        ) && failure.data == DataView::Reason(error@)),
        reply matches AuthorizationReply::NotRead(error) ==> (unauthorized(socket, reply) matches Some(
            failure,
        ) && failure.data == DataView::Reason(error@)),
{
    if let AuthorizationReply::Unreachable(error) = reply {
        socket::failures_name_socket_and_error(socket, error@);
    }
}

/// A call answers with what came of its command, unless its report did not get
/// through: then it fails, whatever came of it.
pub proof fn answers_wait_for_the_report(report: ReportView, error: Option<Seq<char>>)
    ensures
        error is None ==> final_result(report, error) == report.result,
        error matches Some(text) ==> (final_result(report, error) matches Err(failure) && (
        failure.data matches DataView::Reason(reason) && search::contains(reason, report.socket)
            && search::contains(reason, text))),
{
    if let Some(text) = error {
        socket::failures_name_socket_and_error(report.socket, text);
    }
}

/// A commit that succeeded closes the session with its own message; a failed
/// action is reported with what failed.
pub proof fn reports_tell_what_came_of_it(call: CallView, result: Result<ReplyView, FailureView>)
    ensures
        call.action is Commit && result is Ok ==> report_line(call, result) == json::object_text(
            seq![
                ("event"@, json::FieldView::Text("commit-fix-done"@)),
                ("commit_message"@, json::FieldView::Text(call.message)),
            ],
        ),
        call.action is Add && result is Ok ==> report_line(call, result) == json::object_text(
            seq![
                ("event"@, json::FieldView::Text("close-action-outcome"@)),
                ("action"@, json::FieldView::Text("add"@)),
                ("success"@, json::FieldView::Flag(true)),
                ("reason"@, json::FieldView::Null),
            ],
        ),
        result matches Err(failure) ==> report_line(call, result) == json::object_text(
            seq![
                ("event"@, json::FieldView::Text("close-action-outcome"@)),
                ("action"@, json::FieldView::Text(close_action::action_name(call.action))),
                ("success"@, json::FieldView::Flag(false)),
                ("reason"@, json::FieldView::Text(reply::failure_text(failure))),
            ],
        ),
{
}

/// An action is authorized by an answer that says so, and by nothing else.
pub proof fn only_an_answer_authorizes(socket: Seq<char>, reply: AuthorizationReply)
    ensures
        unauthorized(socket, reply) is None <==> (reply matches AuthorizationReply::Answered(bytes)
            && received_verdict(bytes@) == Ok::<VerdictView, FailureView>(VerdictView::Authorized)),
        reply matches AuthorizationReply::NotHalfClosed(error) ==> (unauthorized(
            socket,
            reply,
        ) matches Some(failure) && failure.data == DataView::Reason(error@)),
        reply matches AuthorizationReply::NotArmed(error) ==> (unauthorized(
            socket,
            reply,
        ) matches Some(failure) && failure.data == DataView::Reason(error@)),
        reply matches AuthorizationReply::Answered(bytes) ==> (received_verdict(bytes@) matches Err(
            failure,
        ) ==> unauthorized(socket, reply) == Some(failure)),
{
}

/// The first line of what was received is the answer, read as a verdict; what is
/// not text, not JSON or no verdict fails with the reason.
pub proof fn the_first_line_is_the_answer(bytes: Seq<u8>)
    ensures
        !utf8::valid_utf8(bytes) ==> (received_verdict(bytes) matches Err(failure) && failure.data
            == DataView::Reason(chars::utf8_error(bytes))),
        utf8::valid_utf8(bytes) ==> {
            let line = lines::first_line_of(utf8::decode_utf8(bytes));
            match json::json_document(utf8::encode_utf8(line)) {
                Ok(document) => match close_action::verdict_of(line, document) {
                    Ok(verdict) => received_verdict(bytes) == Ok::<VerdictView, FailureView>(
                        verdict,
                    ),
                    Err(reason) => received_verdict(bytes) matches Err(failure) && failure.data
                        == DataView::Reason(reason),
                },
                Err(reason) => received_verdict(bytes) matches Err(failure) && failure.data
                    == DataView::Reason(reason),
            }
        },
{
}

} // verus!
