//! Commit-fix sessions: the request that opens one, the answer to it, and the
//! event that ends it.

use vstd::prelude::*;
use vstd::utf8;

use super::close_action::optional_text_field;
use super::members;
use super::members::{missing, surplus, text_in_list, unexpected};
use super::names;
use super::names::{member_names, text_of_one};
use crate::json;
use crate::json::{decode_text, object_line, parse_document, Document, DocumentView, Field, FieldView, LineError};
use crate::text::chars;
use crate::text::chars::same_text;

verus! {

/// The tag of a [`CommitFixRequest`].
pub const COMMIT_FIX_EVENT: &'static str = "commit-fix";

/// The tag of a [`CommitFixDone`].
pub const COMMIT_FIX_DONE_EVENT: &'static str = "commit-fix-done";

/// How many seconds the app takes to decide on a request before it answers
/// with a rejection.
pub const VERDICT_TIMEOUT: u64 = 15;

/// How many seconds the requester waits for the verdict. Exceeds
/// [`VERDICT_TIMEOUT`] so the app's rejection reason reaches the requester
/// before it gives up.
pub const ACK_WAIT: u64 = VERDICT_TIMEOUT + 5;

/// The requester outlasts the decision on its request.
pub proof fn requester_outlasts_the_decision()
    ensures
        ACK_WAIT > VERDICT_TIMEOUT,
{
}

/// The `commit-fix` workflow event, sent as one JSON line. Only encoding
/// writes the `event` tag; the receiver routes on it before parsing.
#[derive(Debug, PartialEq, Eq)]
pub struct CommitFixRequest {
    pub instructions: String,
    pub amend: bool,
    pub tldr: String,
    pub why: String,
    pub what: String,
    pub cwd: Option<String>,
}

/// A request as texts.
pub struct RequestView {
    pub instructions: Seq<char>,
    pub amend: bool,
    pub tldr: Seq<char>,
    pub why: Seq<char>,
    pub what: Seq<char>,
    pub cwd: Option<Seq<char>>,
}

impl View for CommitFixRequest {
    type V = RequestView;

    open spec fn view(&self) -> RequestView {
        RequestView {
            instructions: self.instructions@,
            amend: self.amend,
            tldr: self.tldr@,
            why: self.why@,
            what: self.what@,
            cwd: chars::optional_text(self.cwd),
        }
    }
}

/// The members of a request.
pub open spec fn request_members(request: RequestView) -> Seq<(Seq<char>, FieldView)> {
    seq![
        ("event"@, FieldView::Text(COMMIT_FIX_EVENT@)),
        ("instructions"@, FieldView::Text(request.instructions)),
        ("amend"@, FieldView::Flag(request.amend)),
        ("tldr"@, FieldView::Text(request.tldr)),
        ("why"@, FieldView::Text(request.why)),
        ("what"@, FieldView::Text(request.what)),
        ("cwd"@, json::optional_field(request.cwd)),
    ]
}

impl CommitFixRequest {
    /// The request as one JSON line.
    pub fn to_line(&self) -> (line: Result<String, LineError>)
        ensures
            line is Ok,
            line->Ok_0@ == json::object_text(request_members(self@)),
    {
        let mut fields: Vec<(&str, Field)> = Vec::new();
        fields.push(("event", Field::Text(COMMIT_FIX_EVENT.to_owned())));
        fields.push(("instructions", Field::Text(self.instructions.clone())));
        fields.push(("amend", Field::Flag(self.amend)));
        fields.push(("tldr", Field::Text(self.tldr.clone())));
        fields.push(("why", Field::Text(self.why.clone())));
        fields.push(("what", Field::Text(self.what.clone())));
        fields.push(("cwd", optional_text_field(&self.cwd)));
        assert(json::member_views(fields@) =~= request_members(self@));
        Ok(object_line(&fields))
    }
}

/// The app's answer to a [`CommitFixRequest`], sent back as one JSON line.
#[derive(Debug, PartialEq, Eq)]
pub enum CommitFixVerdict {
    /// The app is opening a fix session. Sent before the open completes, so
    /// the open itself can still fail.
    Opening,
    /// A fix session is already active or starting; the request was not
    /// executed.
    Ignored { reason: String },
    /// The request could not be honored: malformed payload, unknown event, or
    /// a session that is shutting down or did not answer in time.
    Rejected { reason: String },
}

/// An answer as texts.
pub enum VerdictView {
    Opening,
    Ignored(Seq<char>),
    Rejected(Seq<char>),
}

impl View for CommitFixVerdict {
    type V = VerdictView;

    open spec fn view(&self) -> VerdictView {
        match *self {
            CommitFixVerdict::Opening => VerdictView::Opening,
            CommitFixVerdict::Ignored { reason } => VerdictView::Ignored(reason@),
            CommitFixVerdict::Rejected { reason } => VerdictView::Rejected(reason@),
        }
    }
}

/// The name of an answer.
pub open spec fn outcome_name(verdict: VerdictView) -> Seq<char> {
    match verdict {
        VerdictView::Opening => "opening"@,
        VerdictView::Ignored(_) => "ignored"@,
        VerdictView::Rejected(_) => "rejected"@,
    }
}

/// The members of an answer.
pub open spec fn verdict_members(verdict: VerdictView) -> Seq<(Seq<char>, FieldView)> {
    let outcome = ("outcome"@, FieldView::Text(outcome_name(verdict)));
    match verdict {
        VerdictView::Opening => seq![outcome],
        VerdictView::Ignored(reason) => seq![outcome, ("reason"@, FieldView::Text(reason))],
        VerdictView::Rejected(reason) => seq![outcome, ("reason"@, FieldView::Text(reason))],
    }
}

/// The answer with an outcome, whose reason stands in a place of its own.
pub open spec fn tagged_verdict(
    outcome: Seq<char>,
    reason: Result<Seq<char>, Seq<char>>,
) -> Result<VerdictView, Seq<char>> {
    if outcome == "opening"@ {
        Ok(VerdictView::Opening)
    } else if outcome == "ignored"@ {
        match reason {
            Ok(reason) => Ok(VerdictView::Ignored(reason)),
            Err(error) => Err(error),
        }
    } else if outcome == "rejected"@ {
        match reason {
            Ok(reason) => Ok(VerdictView::Rejected(reason)),
            Err(error) => Err(error),
        }
    } else {
        Err(
            "unknown variant `"@ + outcome
                + "`, expected one of `opening`, `ignored`, `rejected`"@,
        )
    }
}

/// The answer that an object holds. Neither its outcome nor a reason that
/// counts may be repeated; other members are passed over.
pub open spec fn verdict_in(
    names: Seq<Seq<char>>,
    members: Seq<(Seq<char>, Seq<char>)>,
) -> Result<VerdictView, Seq<char>> {
    match names::text_once(names, members, "outcome"@) {
        Ok(outcome) => tagged_verdict(outcome, names::text_once(names, members, "reason"@)),
        Err(error) => Err(error),
    }
}

/// The answer that a line holds, by the document in it: an object with an
/// outcome, or a list that starts with one.
pub open spec fn verdict_of(line: Seq<char>, document: DocumentView) -> Result<
    VerdictView,
    Seq<char>,
> {
    if names::holds_object(line) {
        verdict_in(names::names_in(line), names::members_in(document))
    } else {
        listed_verdict(document)
    }
}

/// The answer that a document holds other than as an object.
pub open spec fn listed_verdict(document: DocumentView) -> Result<VerdictView, Seq<char>> {
    match document {
        DocumentView::List(items) => if items.len() == 0 {
            Err(members::missing_reason("outcome"@))
        } else {
            match json::json_as_text(items[0]) {
                Ok(outcome) => if outcome == "opening"@ && items.len() > 1 {
                    Err(members::surplus_reason((items.len() - 1) as nat, 0))
                } else {
                    tagged_verdict(outcome, members::listed_text(items))
                },
                Err(error) => Err(error),
            }
        },
        DocumentView::Scalar(value) => Err(
            members::unexpected_reason(value, "internally tagged enum CommitFixVerdict"@),
        ),
        DocumentView::Object(_) => Err(members::missing_reason("outcome"@)),
    }
}

impl CommitFixVerdict {
    /// The answer as one JSON line.
    pub fn to_line(&self) -> (line: Result<String, LineError>)
        ensures
            line is Ok,
            line->Ok_0@ == json::object_text(verdict_members(self@)),
    {
        let mut fields: Vec<(&str, Field)> = Vec::new();
        match self {
            CommitFixVerdict::Opening => {
                fields.push(("outcome", Field::Text("opening".to_owned())));
            },
            CommitFixVerdict::Ignored { reason } => {
                fields.push(("outcome", Field::Text("ignored".to_owned())));
                fields.push(("reason", Field::Text(reason.clone())));
            },
            CommitFixVerdict::Rejected { reason } => {
                fields.push(("outcome", Field::Text("rejected".to_owned())));
                fields.push(("reason", Field::Text(reason.clone())));
            },
        }
        assert(json::member_views(fields@) =~= verdict_members(self@));
        Ok(object_line(&fields))
    }

    /// Reads an answer. What was written by [`to_line`](Self::to_line) is read
    /// back as it was. Only a reason why the line is no JSON says where in the
    /// line it is.
    pub fn from_line(line: &str) -> (verdict: Result<Self, LineError>)
        ensures
            match json::json_document(utf8::encode_utf8(line@)) {
                Ok(document) => match verdict {
                    Ok(verdict) => verdict_of(line@, document) == Ok::<VerdictView, Seq<char>>(
                        verdict@,
                    ),
                    Err(error) => verdict_of(line@, document) == Err::<VerdictView, Seq<char>>(
                        error.reason@,
                    ),
                },
                Err(reason) => verdict is Err && verdict->Err_0.reason@ == reason,
            },
            forall|written: VerdictView|
                line@ == json::object_text(#[trigger] verdict_members(written)) ==> verdict is Ok
                    && verdict->Ok_0@ == written,
    {
        let document = match parse_document(line.as_bytes()) {
            Ok(document) => document,
            Err(reason) => {
                proof {
                    assert forall|written: VerdictView|
                        line@ == json::object_text(#[trigger] verdict_members(written)) implies false by {
                        lemma_verdict_members(written);
                    }
                }
                return Err(LineError { reason });
            },
        };
        let result = Self::from_document(line, &document);
        proof {
            assert forall|written: VerdictView|
                line@ == json::object_text(#[trigger] verdict_members(written)) implies result is Ok
                && result->Ok_0@ == written by {
                lemma_verdict_members(written);
                assert(document@ == DocumentView::Object(
                    json::written(verdict_members(written)),
                ));
            }
        }
        result
    }

    fn tagged(outcome: &str, reason: Result<String, String>) -> (verdict: Result<Self, LineError>)
        ensures
            match verdict {
                Ok(verdict) => tagged_verdict(outcome@, members::text_result(reason)) == Ok::<
                    VerdictView,
                    Seq<char>,
                >(verdict@),
                Err(error) => tagged_verdict(outcome@, members::text_result(reason)) == Err::<
                    VerdictView,
                    Seq<char>,
                >(error.reason@),
            },
    {
        if same_text(outcome, "opening") {
            Ok(CommitFixVerdict::Opening)
        } else if same_text(outcome, "ignored") {
            match reason {
                Ok(reason) => Ok(CommitFixVerdict::Ignored { reason }),
                Err(reason) => Err(LineError { reason }),
            }
        } else if same_text(outcome, "rejected") {
            match reason {
                Ok(reason) => Ok(CommitFixVerdict::Rejected { reason }),
                Err(reason) => Err(LineError { reason }),
            }
        } else {
            let mut reason = "unknown variant `".to_owned();
            reason.append(outcome);
            reason.append("`, expected one of `opening`, `ignored`, `rejected`");
            Err(LineError { reason })
        }
    }

    fn listed(document: &Document) -> (verdict: Result<Self, LineError>)
        ensures
            match verdict {
                Ok(verdict) => listed_verdict(document@) == Ok::<VerdictView, Seq<char>>(verdict@),
                Err(error) => listed_verdict(document@) == Err::<VerdictView, Seq<char>>(
                    error.reason@,
                ),
            },
    {
        match document {
            Document::List(items) => {
                assert(chars::texts(items@).len() == items@.len());
                if items.len() == 0 {
                    return Err(LineError { reason: missing("outcome") });
                }
                assert(chars::texts(items@)[0] == items@[0]@);
                let outcome = match decode_text(items[0].as_str()) {
                    Ok(outcome) => outcome,
                    Err(reason) => return Err(LineError { reason }),
                };
                if same_text(outcome.as_str(), "opening") && items.len() > 1 {
                    return Err(LineError { reason: surplus(items.len() - 1, 0) });
                }
                let reason = text_in_list(items);
                Self::tagged(outcome.as_str(), reason)
            },
            Document::Scalar(value) => Err(
                LineError {
                    reason: unexpected(value.as_str(), "internally tagged enum CommitFixVerdict"),
                },
            ),
            Document::Object(_) => Err(LineError { reason: missing("outcome") }),
        }
    }

    /// The answer that a line holds, by the document in it.
    pub fn from_document(line: &str, document: &Document) -> (verdict: Result<Self, LineError>)
        ensures
            match verdict {
                Ok(verdict) => verdict_of(line@, document@) == Ok::<VerdictView, Seq<char>>(
                    verdict@,
                ),
                Err(error) => verdict_of(line@, document@) == Err::<VerdictView, Seq<char>>(
                    error.reason@,
                ),
            },
            forall|written: VerdictView|
                line@ == json::object_text(#[trigger] verdict_members(written)) && document@
                    == DocumentView::Object(json::written(verdict_members(written)))
                    ==> verdict is Ok && verdict->Ok_0@ == written,
    {
        proof {
            reveal_strlit("opening");
            reveal_strlit("ignored");
            reveal_strlit("rejected");
            assert("opening"@[0] != "ignored"@[0]);
            assert("opening"@.len() != "rejected"@.len());
            assert("ignored"@.len() != "rejected"@.len());
            assert forall|written: VerdictView|
                line@ == json::object_text(#[trigger] verdict_members(written)) implies
                names::holds_object(line@) && names::are_written(
                names::names_in(line@),
                verdict_members(written),
            ) && verdict_members(written)[0] == ("outcome"@, FieldView::Text(
                outcome_name(written),
            )) by {
                lemma_verdict_members(written);
                names::written_names_are_read(verdict_members(written));
            }
        }
        let names = match member_names(line) {
            Some(names) => names,
            None => return Self::listed(document),
        };
        let none: Vec<(String, String)> = Vec::new();
        let members = match document {
            Document::Object(members) => members,
            _ => &none,
        };
        assert(json::raw_members(members@) =~= names::members_in(document@));
        let outcome = match text_of_one(&names, members, "outcome") {
            Ok(outcome) => outcome,
            Err(reason) => return Err(LineError { reason }),
        };
        let reason = text_of_one(&names, members, "reason");
        proof {
            assert forall|written: VerdictView|
                line@ == json::object_text(#[trigger] verdict_members(written)) && document@
                    == DocumentView::Object(json::written(verdict_members(written)))
                    && verdict_members(written).len() == 2 implies reason is Ok
                && verdict_members(written)[1] == ("reason"@, FieldView::Text(reason->Ok_0@)) by {
                let all = verdict_members(written);
                assert(all[1].0 == "reason"@);
            }
        }
        Self::tagged(outcome.as_str(), reason)
    }
}

proof fn lemma_verdict_members(verdict: VerdictView)
    ensures
        json::distinct_names(verdict_members(verdict)),
        json::is_plain(verdict_members(verdict)),
{
    reveal_strlit("outcome");
    reveal_strlit("reason");
    assert("outcome"@.len() != "reason"@.len());
    json::lemma_short_name("outcome"@);
}

/// An object whose outcome is repeated is no answer, and one whose reason is
/// repeated is none but the answer that has no reason.
pub proof fn repeated_members_are_refused(line: Seq<char>, document: DocumentView)
    requires
        names::holds_object(line),
    ensures
        names::times_named(names::names_in(line), "outcome"@) != 1 ==> verdict_of(
            line,
            document,
        ) is Err,
        names::times_named(names::names_in(line), "reason"@) != 1 ==> match verdict_of(
            line,
            document,
        ) {
            Ok(verdict) => verdict is Opening,
            Err(_) => true,
        },
{
}

/// The `commit-fix-done` workflow event, sent as one JSON line once a commit
/// closes the fix session.
#[derive(Debug, PartialEq, Eq)]
pub struct CommitFixDone {
    pub commit_message: String,
}

/// The members of the event that ends a fix session.
pub open spec fn done_members(commit_message: Seq<char>) -> Seq<(Seq<char>, FieldView)> {
    seq![
        ("event"@, FieldView::Text(COMMIT_FIX_DONE_EVENT@)),
        ("commit_message"@, FieldView::Text(commit_message)),
    ]
}

impl CommitFixDone {
    /// The event as one JSON line.
    pub fn to_line(&self) -> (line: Result<String, LineError>)
        ensures
            line is Ok,
            line->Ok_0@ == json::object_text(done_members(self.commit_message@)),
    {
        let mut fields: Vec<(&str, Field)> = Vec::new();
        fields.push(("event", Field::Text(COMMIT_FIX_DONE_EVENT.to_owned())));
        fields.push(("commit_message", Field::Text(self.commit_message.clone())));
        assert(json::member_views(fields@) =~= done_members(self.commit_message@));
        Ok(object_line(&fields))
    }
}

/// Messages on fix sessions are written under the names that their readers look
/// for, each with what it is about.
pub proof fn messages_name_what_they_carry(
    request: RequestView,
    verdict: VerdictView,
    commit_message: Seq<char>,
)
    ensures
        request_members(request)[0] == ("event"@, FieldView::Text("commit-fix"@)),
        request_members(request).contains(
            ("instructions"@, FieldView::Text(request.instructions)),
        ),
        request_members(request).contains(("amend"@, FieldView::Flag(request.amend))),
        request_members(request).contains(("tldr"@, FieldView::Text(request.tldr))),
        request_members(request).contains(("why"@, FieldView::Text(request.why))),
        request_members(request).contains(("what"@, FieldView::Text(request.what))),
        request.cwd matches Some(cwd) ==> request_members(request).contains(
            ("cwd"@, FieldView::Text(cwd)),
        ),
        verdict_members(verdict)[0].0 == "outcome"@,
        verdict is Opening ==> verdict_members(verdict)[0].1 == FieldView::Text("opening"@),
        verdict matches VerdictView::Ignored(reason) ==> verdict_members(verdict)[0].1
            == FieldView::Text("ignored"@) && verdict_members(verdict)[1] == (
            "reason"@,
            FieldView::Text(reason),
        ),
        verdict matches VerdictView::Rejected(reason) ==> verdict_members(verdict)[0].1
            == FieldView::Text("rejected"@) && verdict_members(verdict)[1] == (
            "reason"@,
            FieldView::Text(reason),
        ),
        done_members(commit_message) == seq![
            ("event"@, FieldView::Text("commit-fix-done"@)),
            ("commit_message"@, FieldView::Text(commit_message)),
        ],
{
    let all = request_members(request);
    assert(all[1] == ("instructions"@, FieldView::Text(request.instructions)));
    assert(all[2] == ("amend"@, FieldView::Flag(request.amend)));
    assert(all[3] == ("tldr"@, FieldView::Text(request.tldr)));
    assert(all[4] == ("why"@, FieldView::Text(request.why)));
    assert(all[5] == ("what"@, FieldView::Text(request.what)));
    if let Some(cwd) = request.cwd {
        assert(all[6] == ("cwd"@, FieldView::Text(cwd)));
    }
}

/// An answer is what its outcome says, with the reason it gives.
pub proof fn answers_go_by_their_outcome(
    outcome: Seq<char>,
    reason: Result<Seq<char>, Seq<char>>,
)
    ensures
        tagged_verdict(outcome, reason) matches Ok(VerdictView::Opening) <==> outcome == "opening"@,
        tagged_verdict(outcome, reason) matches Ok(VerdictView::Ignored(told)) ==> outcome
            == "ignored"@ && reason == Ok::<Seq<char>, Seq<char>>(told),
        tagged_verdict(outcome, reason) matches Ok(VerdictView::Rejected(told)) ==> outcome
            == "rejected"@ && reason == Ok::<Seq<char>, Seq<char>>(told),
        (outcome == "ignored"@ || outcome == "rejected"@) && reason is Ok ==> tagged_verdict(
            outcome,
            reason,
        ) is Ok,
        outcome != "opening"@ && outcome != "ignored"@ && outcome != "rejected"@ ==> tagged_verdict(
            outcome,
            reason,
        ) is Err,
{
    reveal_strlit("opening");
    reveal_strlit("ignored");
    reveal_strlit("rejected");
    assert("opening"@[0] != "ignored"@[0]);
    assert("opening"@.len() != "rejected"@.len());
    assert("ignored"@.len() != "rejected"@.len());
}

} // verus!
