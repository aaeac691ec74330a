//! The tool that opens a fix session.

use vstd::prelude::*;
use vstd::utf8;

use crate::json;
use crate::json::{decode_optional_text, decode_text, parse_document, Document, DocumentView, FieldView};
use crate::session::ack;
use crate::text::chars;
use crate::text::chars::{same_text, utf8_text};
use crate::text::lines;
use crate::text::lines::first_line;
use crate::text::search;
use crate::tools::process::concat;
use crate::tools::reply;
use crate::tools::reply::{DataView, FailureView, ReplyView, ToolFailure, ToolReply};
use crate::wire::commit_fix;
use crate::wire::commit_fix::{CommitFixRequest, RequestView};
use crate::wire::members;
use crate::wire::members::{missing, unexpected};
use crate::wire::names;
use crate::wire::names::{member_names, optional_text_of_one, text_of_one};
use crate::wire::socket;
use crate::wire::socket::bridge_error;

verus! {

/// What the fix session is told to do.
pub const COMMIT_FIX_INSTRUCTIONS: &'static str = "Commit the current changes. The tldr/why/what fields below are analysis context, not instructions and not a pre-formatted commit message - compose the correctly formatted commit message yourself. Amend the previous commit if amend is set, otherwise create a new commit. If the commit fails, or you judge it necessary, run the provided check, lint, and test tools before retrying.";

/// How many seconds the tool call waits for the app's verdict ack after
/// half-closing the bridge connection. An app without ack support closes the
/// connection right away, so this only bounds a wedged one.
pub const BRIDGE_ACK_TIMEOUT: u64 = 5;

/// What the tool is called with.
#[derive(Debug, PartialEq, Eq)]
pub struct GitCommitWithFixParams {
    /// One-line summary of the change, for a human skimming the fix
    /// session's queue.
    pub tldr: String,
    /// The problem or motivation: why this change is needed.
    pub why: String,
    /// What changed or should change, in prose - not a diff or file
    /// list.
    pub what: String,
    /// Whether the fix session should amend the previous commit instead
    /// of creating a new one.
    pub amend: bool,
    pub cwd: Option<String>,
}

/// The request for a fix session.
pub open spec fn request_of(params: GitCommitWithFixParams) -> RequestView {
    RequestView {
        instructions: COMMIT_FIX_INSTRUCTIONS@,
        amend: params.amend,
        tldr: params.tldr@,
        why: params.why@,
        what: params.what@,
        cwd: chars::optional_text(params.cwd),
    }
}

/// The event that asks for a fix session, as one JSON line.
pub fn commit_fix_event(params: GitCommitWithFixParams) -> (line: String)
    ensures
        line@ == json::object_text(commit_fix::request_members(request_of(params))),
{
    let request = CommitFixRequest {
        instructions: COMMIT_FIX_INSTRUCTIONS.to_owned(),
        amend: params.amend,
        tldr: params.tldr,
        why: params.why,
        what: params.what,
        cwd: params.cwd,
    };
    match request.to_line() {
        Ok(line) => line,
        Err(error) => error.reason,
    }
}

/// The single-line JSON ack the app writes back for a `commit-fix` request.
#[derive(Debug, PartialEq, Eq)]
pub struct CommitFixAck {
    pub outcome: String,
    pub reason: Option<String>,
}

/// An ack as texts.
#[verifier::ext_equal]
pub struct AckView {
    pub outcome: Seq<char>,
    pub reason: Option<Seq<char>>,
}

impl View for CommitFixAck {
    type V = AckView;

    open spec fn view(&self) -> AckView {
        AckView { outcome: self.outcome@, reason: chars::optional_text(self.reason) }
    }
}

/// The ack that an object holds, or what is wrong with it. Neither its outcome
/// nor its reason may be repeated; other members are passed over.
pub open spec fn ack_in(
    names: Seq<Seq<char>>,
    members: Seq<(Seq<char>, Seq<char>)>,
) -> Result<AckView, Seq<char>> {
    match names::text_once(names, members, "outcome"@) {
        Ok(outcome) => match names::optional_text_once(names, members, "reason"@) {
            Ok(reason) => Ok(AckView { outcome, reason }),
            Err(error) => Err(error),
        },
        Err(error) => Err(error),
    }
}

/// The ack that a document holds other than as an object: a list of its two
/// values.
pub open spec fn listed_ack(document: DocumentView) -> Result<AckView, Seq<char>> {
    match document {
        DocumentView::List(items) => if items.len() == 0 {
            Err("invalid length 0, expected struct CommitFixAck with 2 elements"@)
        } else {
            match json::json_as_text(items[0]) {
                Ok(outcome) => if items.len() == 1 {
                    Err("invalid length 1, expected struct CommitFixAck with 2 elements"@)
                } else {
                    match json::json_as_optional_text(items[1]) {
                        Ok(reason) => if items.len() == 2 {
                            Ok(AckView { outcome, reason })
                        } else {
                            Err("trailing characters"@)
                        },
                        Err(error) => Err(error),
                    }
                },
                Err(error) => Err(error),
            }
        },
        DocumentView::Scalar(value) => Err(
            members::unexpected_reason(value, "struct CommitFixAck"@),
        ),
        DocumentView::Object(_) => Err(members::missing_reason("outcome"@)),
    }
}

/// The ack that a line holds, by the document in it.
pub open spec fn ack_of(line: Seq<char>, document: DocumentView) -> Result<AckView, Seq<char>> {
    if names::holds_object(line) {
        ack_in(names::names_in(line), names::members_in(document))
    } else {
        listed_ack(document)
    }
}

/// The ack that a line holds, or what is wrong with it.
pub open spec fn line_ack(line: Seq<char>) -> Result<AckView, Seq<char>> {
    match json::json_document(utf8::encode_utf8(line)) {
        Ok(document) => ack_of(line, document),
        Err(error) => Err(error),
    }
}

/// An object whose outcome or reason is repeated is no ack.
pub proof fn repeated_members_are_refused(line: Seq<char>, document: DocumentView)
    requires
        names::holds_object(line),
        names::times_named(names::names_in(line), "outcome"@) != 1 || names::times_named(
            names::names_in(line),
            "reason"@,
        ) > 1,
    ensures
        ack_of(line, document) is Err,
{
}

/// The ack in the first line of what was received, or what is wrong with it.
pub open spec fn received_ack(bytes: Seq<u8>) -> Result<AckView, Seq<char>> {
    if utf8::valid_utf8(bytes) {
        let line = lines::first_line_of(utf8::decode_utf8(bytes));
        match line_ack(line) {
            Ok(ack) => Ok(ack),
            Err(error) => Err("malformed commit-fix ack '"@ + line + "': "@ + error),
        }
    } else {
        Err(chars::utf8_error(bytes))
    }
}

fn ack_of_list(document: &Document) -> (ack: Result<CommitFixAck, String>)
    ensures
        match ack {
            Ok(ack) => listed_ack(document@) == Ok::<AckView, Seq<char>>(ack@),
            Err(error) => listed_ack(document@) == Err::<AckView, Seq<char>>(error@),
        },
{
    match document {
        Document::List(items) => {
            assert(chars::texts(items@).len() == items@.len());
            if items.len() == 0 {
                return Err("invalid length 0, expected struct CommitFixAck with 2 elements".to_owned());
            }
            assert(chars::texts(items@)[0] == items@[0]@);
            let outcome = match decode_text(items[0].as_str()) {
                Ok(outcome) => outcome,
                Err(error) => {
                    return Err(error);
                },
            };
            if items.len() == 1 {
                return Err("invalid length 1, expected struct CommitFixAck with 2 elements".to_owned());
            }
            assert(chars::texts(items@)[1] == items@[1]@);
            match decode_optional_text(items[1].as_str()) {
                Ok(reason) => {
                    if items.len() == 2 {
                        Ok(CommitFixAck { outcome, reason })
                    } else {
                        Err("trailing characters".to_owned())
                    }
                },
                Err(error) => Err(error),
            }
        },
        Document::Scalar(value) => Err(unexpected(value.as_str(), "struct CommitFixAck")),
        Document::Object(_) => Err(missing("outcome")),
    }
}

/// What an answer of the app is read as.
pub open spec fn ack_read(verdict: ack::VerdictView) -> AckView {
    match verdict {
        ack::VerdictView::Accepted => AckView { outcome: "accepted"@, reason: None },
        ack::VerdictView::Ignored(reason) => AckView { outcome: "ignored"@, reason: Some(reason) },
        ack::VerdictView::Rejected(reason) => AckView {
            outcome: "rejected"@,
            reason: Some(reason),
        },
    }
}

proof fn lemma_ack_members(verdict: ack::VerdictView)
    ensures
        json::distinct_names(ack::ack_members(verdict)),
        json::is_plain(ack::ack_members(verdict)),
        ack::ack_members(verdict)[0] == ("outcome"@, FieldView::Text(ack_read(verdict).outcome)),
        ack_read(verdict).reason matches Some(reason) ==> ack::ack_members(verdict).len() == 2
            && ack::ack_members(verdict)[1] == ("reason"@, FieldView::Text(reason)),
        ack_read(verdict).reason is None ==> forall|i: int|
            0 <= i < ack::ack_members(verdict).len() ==> (#[trigger] ack::ack_members(
                verdict,
            )[i]).0 != "reason"@,
{
    reveal_strlit("outcome");
    reveal_strlit("reason");
    assert("outcome"@.len() != "reason"@.len());
    json::lemma_short_name("outcome"@);
}

/// The ack that a line holds, by the document in it. What the app wrote is read
/// as it was meant.
pub fn ack_of_document(line: &str, document: &Document) -> (ack: Result<CommitFixAck, String>)
    ensures
        match ack {
            Ok(ack) => ack_of(line@, document@) == Ok::<AckView, Seq<char>>(ack@),
            Err(error) => ack_of(line@, document@) == Err::<AckView, Seq<char>>(error@),
        },
        forall|verdict: ack::VerdictView|
            line@ == json::object_text(#[trigger] ack::ack_members(verdict)) && document@
                == DocumentView::Object(json::written(ack::ack_members(verdict))) ==> ack is Ok
                && ack->Ok_0@ == ack_read(verdict),
{
    proof {
        assert forall|verdict: ack::VerdictView|
            line@ == json::object_text(#[trigger] ack::ack_members(verdict)) implies
            names::holds_object(line@) && names::are_written(
            names::names_in(line@),
            ack::ack_members(verdict),
        ) && ack::ack_members(verdict)[0] == (
            "outcome"@,
            FieldView::Text(ack_read(verdict).outcome),
        ) && (ack_read(verdict).reason matches Some(reason) ==> ack::ack_members(verdict).len() == 2
            && ack::ack_members(verdict)[1] == ("reason"@, FieldView::Text(reason))) && (ack_read(
            verdict,
        ).reason is None ==> forall|i: int|
            0 <= i < ack::ack_members(verdict).len() ==> (#[trigger] ack::ack_members(
                verdict,
            )[i]).0 != "reason"@) by {
            lemma_ack_members(verdict);
            names::written_names_are_read(ack::ack_members(verdict));
        }
    }
    let names = match member_names(line) {
        Some(names) => names,
        None => {
            return ack_of_list(document);
        },
    };
    let none: Vec<(String, String)> = Vec::new();
    let members = match document {
        Document::Object(members) => members,
        _ => &none,
    };
    assert(json::raw_members(members@) =~= names::members_in(document@));
    let outcome = match text_of_one(&names, members, "outcome") {
        Ok(outcome) => outcome,
        Err(error) => {
            return Err(error);
        },
    };
    match optional_text_of_one(&names, members, "reason") {
        Ok(reason) => Ok(CommitFixAck { outcome, reason }),
        Err(error) => Err(error),
    }
}

/// Parses the single-line JSON ack the app writes back:
/// `{"outcome":"accepted"}`, or `ignored`/`rejected` plus a `reason`. What the app
/// wrote is read as it was meant.
pub fn parse_commit_fix_ack(ack: &[u8]) -> (parsed: Result<CommitFixAck, String>)
    ensures
        match parsed {
            Ok(parsed) => received_ack(ack@) == Ok::<AckView, Seq<char>>(parsed@),
            Err(error) => received_ack(ack@) == Err::<AckView, Seq<char>>(error@),
        },
        forall|verdict: ack::VerdictView|
            ack@ == utf8::encode_utf8(
                json::object_text(#[trigger] ack::ack_members(verdict)) + "\n"@,
            ) ==> parsed is Ok && parsed->Ok_0@ == ack_read(verdict),
{
    let ghost bytes = ack@;
    proof {
        assert forall|verdict: ack::VerdictView|
            bytes == utf8::encode_utf8(
                json::object_text(#[trigger] ack::ack_members(verdict)) + "\n"@,
            ) implies utf8::valid_utf8(bytes) && lines::first_line_of(utf8::decode_utf8(bytes))
            == json::object_text(ack::ack_members(verdict)) && json::distinct_names(
            ack::ack_members(verdict),
        ) && json::is_plain(ack::ack_members(verdict)) by {
            reveal_strlit("\n");
            reveal_strlit("}");
            let line = json::object_text(ack::ack_members(verdict));
            let none = Seq::<char>::empty();
            lemma_ack_members(verdict);
            ack::ack_is_one_line(verdict);
            utf8::encode_utf8_valid_utf8(line + "\n"@);
            utf8::encode_utf8_decode_utf8(line + "\n"@);
            lines::lines_end_at_line_feeds(line, none);
            assert("\n"@ =~= seq!['\n']);
            assert(line + seq!['\n'] + none =~= line + "\n"@);
        }
    }
    let text = match utf8_text(ack) {
        Ok(text) => text,
        Err(error) => {
            return Err(error);
        },
    };
    let line = first_line(text.as_str());
    let parsed = match parse_document(line.as_str().as_bytes()) {
        Ok(document) => ack_of_document(line.as_str(), &document),
        Err(error) => Err(error),
    };
    match parsed {
        Ok(ack) => Ok(ack),
        Err(error) => {
            let mut text = concat("malformed commit-fix ack '", line.as_str());
            text.append("': ");
            text.append(error.as_str());
            Err(text)
        },
    }
}

/// How far the event got on the bridge. The texts are the errors of the
/// operating system.
#[derive(Debug, PartialEq, Eq)]
pub enum BridgeOutcome {
    Unreachable(String),
    NotWritten(String),
    NotHalfClosed(String),
    NotArmed(String),
    NotRead(String),
    /// The connection was closed without an answer, or none came in time.
    Silent,
    Answered(Vec<u8>),
}

/// What came back over the bridge: an ack, or nothing from an app that gives
/// none, or an error.
pub open spec fn bridged(socket: Seq<char>, outcome: BridgeOutcome) -> Result<
    Option<AckView>,
    Seq<char>,
> {
    match outcome {
        BridgeOutcome::Unreachable(error) => Err(socket::unreachable_text(socket, error@)),
        BridgeOutcome::NotWritten(error) => Err(
            "failed to write to the bridge socket '"@ + socket + "': "@ + error@,
        ),
        BridgeOutcome::NotHalfClosed(error) => Err(
            "failed to half-close the bridge socket '"@ + socket + "': "@ + error@,
        ),
        BridgeOutcome::NotArmed(error) => Err(
            "failed to arm the bridge ack timeout on '"@ + socket + "': "@ + error@,
        ),
        BridgeOutcome::NotRead(error) => Err(
            "failed to read the bridge ack on '"@ + socket + "': "@ + error@,
        ),
        BridgeOutcome::Silent => Ok(None),
        BridgeOutcome::Answered(bytes) => match received_ack(bytes@) {
            Ok(ack) => Ok(Some(ack)),
            Err(error) => Err(error),
        },
    }
}

fn on_socket(text: &str, socket: &str, error: &str) -> (message: String)
    ensures
        message@ == text@ + socket@ + "': "@ + error@,
{
    let mut message = concat(text, socket);
    message.append("': ");
    message.append(error);
    message
}

/// What came back over the bridge. `Ok(None)` is the outcome with an app that
/// closed the connection without replying.
pub fn notify_bridge(socket: &str, outcome: &BridgeOutcome) -> (ack: Result<
    Option<CommitFixAck>,
    String,
>)
    ensures
        forall|verdict: ack::VerdictView|
            (outcome matches BridgeOutcome::Answered(bytes) && bytes@ == utf8::encode_utf8(
                json::object_text(#[trigger] ack::ack_members(verdict)) + "\n"@,
            )) ==> (ack matches Ok(Some(read)) && read@ == ack_read(verdict)),
        match ack {
            Ok(Some(ack)) => bridged(socket@, *outcome) == Ok::<Option<AckView>, Seq<char>>(
                Some(ack@),
            ),
            Ok(None) => bridged(socket@, *outcome) == Ok::<Option<AckView>, Seq<char>>(None),
            Err(error) => bridged(socket@, *outcome) == Err::<Option<AckView>, Seq<char>>(error@),
        },
{
    match outcome {
        BridgeOutcome::Unreachable(error) => Err(bridge_error(socket, error.as_str())),
        BridgeOutcome::NotWritten(error) => Err(
            on_socket("failed to write to the bridge socket '", socket, error.as_str()),
        ),
        BridgeOutcome::NotHalfClosed(error) => Err(
            on_socket("failed to half-close the bridge socket '", socket, error.as_str()),
        ),
        BridgeOutcome::NotArmed(error) => Err(
            on_socket("failed to arm the bridge ack timeout on '", socket, error.as_str()),
        ),
        BridgeOutcome::NotRead(error) => Err(
            on_socket("failed to read the bridge ack on '", socket, error.as_str()),
        ),
        BridgeOutcome::Silent => Ok(None),
        BridgeOutcome::Answered(bytes) => match parse_commit_fix_ack(bytes.as_slice()) {
            Ok(ack) => Ok(Some(ack)),
            Err(error) => Err(error),
        },
    }
}

/// The answer of the tool to what came back over the bridge. Without an ack the
/// outcome cannot be known, and counts as success.
pub open spec fn answer_to(ack: Result<Option<AckView>, Seq<char>>) -> Result<
    ReplyView,
    FailureView,
> {
    match ack {
        Ok(None) => Ok(ReplyView::Success("commit-fix session requested"@)),
        Ok(Some(ack)) => {
            let reason = match ack.reason {
                Some(reason) => reason,
                None => "no reason provided"@,
            };
            if ack.outcome == "accepted"@ {
                Ok(ReplyView::Success("commit-fix session requested"@))
            } else if ack.outcome == "ignored"@ {
                Ok(
                    ReplyView::Error(
                        "commit-fix session not started, the request was ignored: "@ + reason,
                    ),
                )
            } else {
                Ok(ReplyView::Error("commit-fix request failed: "@ + reason))
            }
        },
        Err(error) => Err(reply::failed("failed to notify commit-fix bridge"@, error)),
    }
}

/// The answer of the tool to an ack.
pub fn ack_reply(ack: CommitFixAck) -> (result: ToolReply)
    ensures
        answer_to(Ok(Some(ack@))) == Ok::<ReplyView, FailureView>(result@),
{
    let reason = match ack.reason {
        Some(reason) => reason,
        None => "no reason provided".to_owned(),
    };
    if same_text(ack.outcome.as_str(), "accepted") {
        ToolReply::Success("commit-fix session requested".to_owned())
    } else if same_text(ack.outcome.as_str(), "ignored") {
        ToolReply::Error(
            concat(
                "commit-fix session not started, the request was ignored: ",
                reason.as_str(),
            ),
        )
    } else {
        ToolReply::Error(concat("commit-fix request failed: ", reason.as_str()))
    }
}

/// The answer of the tool, from how far its event got on the bridge.
pub fn git_commit_with_fix(socket: &str, outcome: &BridgeOutcome) -> (result: Result<
    ToolReply,
    ToolFailure,
>)
    ensures
        reply::result_view(result) == answer_to(bridged(socket@, *outcome)),
        forall|verdict: ack::VerdictView|
            (outcome matches BridgeOutcome::Answered(bytes) && bytes@ == utf8::encode_utf8(
                json::object_text(#[trigger] ack::ack_members(verdict)) + "\n"@,
            )) ==> (result matches Ok(answer) && match verdict {
                ack::VerdictView::Accepted => answer@ is Success,
                ack::VerdictView::Ignored(reason) => answer@ matches ReplyView::Error(text)
                    && search::ends_with(text, reason),
                ack::VerdictView::Rejected(reason) => answer@ matches ReplyView::Error(text)
                    && search::ends_with(text, reason),
            }),
{
    proof {
        assert forall|verdict: ack::VerdictView|
            #![trigger ack::ack_members(verdict)]
            (answer_to(Ok(Some(ack_read(verdict)))) matches Ok(answer)
            && match verdict {
            ack::VerdictView::Accepted => answer is Success,
            ack::VerdictView::Ignored(reason) => answer matches ReplyView::Error(text)
                && search::ends_with(text, reason),
            ack::VerdictView::Rejected(reason) => answer matches ReplyView::Error(text)
                && search::ends_with(text, reason),
        }) by {
            answers_tell_the_verdict(verdict);
        }
    }
    match notify_bridge(socket, outcome) {
        Ok(Some(ack)) => Ok(ack_reply(ack)),
        Ok(None) => Ok(ToolReply::Success("commit-fix session requested".to_owned())),
        Err(error) => Err(
            ToolFailure::new("failed to notify commit-fix bridge", error.as_str()),
        ),
    }
}

/// The tool claims that a session was requested only where the app accepted
/// the request or gave no answer.
pub proof fn success_means_accepted_or_unanswered(ack: Result<Option<AckView>, Seq<char>>)
    ensures
        answer_to(ack) matches Ok(answer) && answer is Success ==> ack == Ok::<
            Option<AckView>,
            Seq<char>,
        >(None) || (ack matches Ok(Some(ack)) && ack.outcome == "accepted"@),
{
}

/// Every answer of the app is told by the tool: an accepted request as a success,
/// and any other as an error that ends with the reason.
pub proof fn answers_tell_the_verdict(verdict: ack::VerdictView)
    ensures
        answer_to(Ok(Some(ack_read(verdict)))) matches Ok(answer) && match verdict {
            ack::VerdictView::Accepted => answer is Success,
            ack::VerdictView::Ignored(reason) => answer matches ReplyView::Error(text)
                && search::ends_with(text, reason) && search::contains(text, "ignored"@),
            ack::VerdictView::Rejected(reason) => answer matches ReplyView::Error(text)
                && search::ends_with(text, reason) && search::contains(text, "failed"@),
        },
{
    reveal_strlit("accepted");
    reveal_strlit("ignored");
    reveal_strlit("rejected");
    reveal_strlit("failed");
    reveal_strlit("commit-fix session not started, the request was ignored: ");
    reveal_strlit("commit-fix request failed: ");
    assert("accepted"@[0] != "rejected"@[0]);
    assert("accepted"@.len() != "ignored"@.len());
    assert("rejected"@.len() != "ignored"@.len());
    match verdict {
        ack::VerdictView::Ignored(reason) => {
            let text = "commit-fix session not started, the request was ignored: "@ + reason;
            assert(text.skip(text.len() - reason.len()) =~= reason);
            assert(text.subrange(48, 48int + "ignored"@.len()) =~= "ignored"@);
            search::containing_is_standing_somewhere(text, "ignored"@);
        },
        ack::VerdictView::Rejected(reason) => {
            let text = "commit-fix request failed: "@ + reason;
            assert(text.skip(text.len() - reason.len()) =~= reason);
            assert(text.subrange(19, 19int + "failed"@.len()) =~= "failed"@);
            search::containing_is_standing_somewhere(text, "failed"@);
        },
        ack::VerdictView::Accepted => {},
    }
}

/// A request carries what the tool was called with, and the instructions.
pub proof fn requests_carry_the_call(params: GitCommitWithFixParams)
    ensures
        request_of(params).tldr == params.tldr@,
        request_of(params).why == params.why@,
        request_of(params).what == params.what@,
        request_of(params).amend == params.amend,
        request_of(params).cwd == chars::optional_text(params.cwd),
        request_of(params).instructions == COMMIT_FIX_INSTRUCTIONS@,
{
}

/// An event that did not get through is told with the socket and the error; one
/// that got through without an answer counts as requested.
pub proof fn failures_on_the_bridge_are_told(socket: Seq<char>, outcome: BridgeOutcome)
    ensures
        outcome is Silent ==> (answer_to(bridged(socket, outcome)) matches Ok(answer)
            && answer is Success),
        outcome matches BridgeOutcome::Unreachable(error) ==> (answer_to(
            bridged(socket, outcome),
        ) matches Err(failure) && (failure.data matches DataView::Reason(reason)
            && search::contains(reason, socket) && search::contains(reason, error@))),
        outcome matches BridgeOutcome::NotWritten(error) ==> (answer_to(
            bridged(socket, outcome),
        ) matches Err(failure) && (failure.data matches DataView::Reason(reason)
            && search::contains(reason, socket) && search::ends_with(reason, error@))),
{
    match outcome {
        BridgeOutcome::Unreachable(error) => {
            socket::failures_name_socket_and_error(socket, error@);
        },
        BridgeOutcome::NotWritten(error) => {
            let reason = "failed to write to the bridge socket '"@ + socket + "': "@ + error@;
            let at = "failed to write to the bridge socket '"@.len() as int;
            assert(reason.subrange(at, at + socket.len()) =~= socket);
            search::containing_is_standing_somewhere(reason, socket);
            assert(reason.skip(reason.len() - error@.len()) =~= error@);
        },
        _ => {},
    }
}

/// An answer that cannot be read is told with what was read of it and why it
/// could not be; one that is not text is told as such.
pub proof fn unreadable_answers_are_told(bytes: Seq<u8>)
    ensures
        !utf8::valid_utf8(bytes) ==> received_ack(bytes) == Err::<AckView, Seq<char>>(
            chars::utf8_error(bytes),
        ),
        utf8::valid_utf8(bytes) ==> {
            let line = lines::first_line_of(utf8::decode_utf8(bytes));
            match line_ack(line) {
                Ok(ack) => received_ack(bytes) == Ok::<AckView, Seq<char>>(ack),
                Err(error) => received_ack(bytes) matches Err(told) && search::contains(told, line)
                    && search::ends_with(told, error),
            }
        },
{
    if utf8::valid_utf8(bytes) {
        let line = lines::first_line_of(utf8::decode_utf8(bytes));
        if let Err(error) = line_ack(line) {
            let told = "malformed commit-fix ack '"@ + line + "': "@ + error;
            let at = "malformed commit-fix ack '"@.len() as int;
            assert(told.subrange(at, at + line.len()) =~= line);
            search::containing_is_standing_somewhere(told, line);
            assert(told.skip(told.len() - error.len()) =~= error);
        }
    }
}

/// An ack takes its outcome and its reason from the members of those names, the
/// outcome being required and the reason not.
pub proof fn acks_are_read_by_name(
    names: Seq<Seq<char>>,
    members: Seq<(Seq<char>, Seq<char>)>,
)
    ensures
        ack_in(names, members) matches Ok(ack) ==> names::text_once(names, members, "outcome"@)
            == Ok::<Seq<char>, Seq<char>>(ack.outcome) && names::optional_text_once(
            names,
            members,
            "reason"@,
        ) == Ok::<Option<Seq<char>>, Seq<char>>(ack.reason),
        names::text_once(names, members, "outcome"@) is Err ==> ack_in(names, members) is Err,
        names::optional_text_once(names, members, "reason"@) is Err ==> ack_in(names, members)
            is Err,
{
}

} // verus!
