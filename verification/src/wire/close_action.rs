//! Close-side Git actions: the requests, the answers to them, and the outcomes
//! that follow.

use vstd::prelude::*;
use vstd::utf8;

use super::members;
use super::members::{missing, surplus, text_in_list, unexpected};
use super::names;
use super::names::{member_names, text_of_one};
use crate::json;
use crate::json::{decode_text, object_line, parse_document, Document, DocumentView, Field, FieldView, LineError};
use crate::text::chars;
use crate::text::chars::same_text;

verus! {

/// The tag of a [`CloseActionRequest`].
pub const CLOSE_ACTION_EVENT: &'static str = "close-action";

/// The tag of a [`CloseActionOutcome`].
pub const CLOSE_ACTION_OUTCOME_EVENT: &'static str = "close-action-outcome";

/// A close-side Git action gated by the workflow state machine.
#[derive(Debug, Clone, Copy, PartialEq, Eq, Structural)]
pub enum CloseAction {
    Add,
    Commit,
}

/// The name of an action.
pub open spec fn action_name(action: CloseAction) -> Seq<char> {
    match action {
        CloseAction::Add => "add"@,
        CloseAction::Commit => "commit"@,
    }
}

impl CloseAction {
    /// The name of the action.
    pub fn name(&self) -> (name: &'static str)
        ensures
            name@ == action_name(*self),
    {
        match self {
            CloseAction::Add => "add",
            CloseAction::Commit => "commit",
        }
    }
}

/// Actions differ in their names.
pub proof fn action_names_differ(action: CloseAction)
    ensures
        members::named_action(action_name(action)) == Ok::<CloseAction, Seq<char>>(action),
{
    reveal_strlit("add");
    reveal_strlit("commit");
    assert("add"@.len() != "commit"@.len());
}

/// The `close-action` workflow event, sent as one JSON line before the
/// requester runs the corresponding Git command.
#[derive(Debug, PartialEq, Eq)]
pub struct CloseActionRequest {
    pub action: CloseAction,
}

/// The members of a request.
pub open spec fn request_members(action: CloseAction) -> Seq<(Seq<char>, FieldView)> {
    seq![
        ("event"@, FieldView::Text(CLOSE_ACTION_EVENT@)),
        ("action"@, FieldView::Text(action_name(action))),
    ]
}

impl CloseActionRequest {
    /// The request as one JSON line.
    pub fn to_line(&self) -> (line: Result<String, LineError>)
        ensures
            line is Ok,
            line->Ok_0@ == json::object_text(request_members(self.action)),
    {
        let mut fields: Vec<(&str, Field)> = Vec::new();
        fields.push(("event", Field::Text(CLOSE_ACTION_EVENT.to_owned())));
        fields.push(("action", Field::Text(self.action.name().to_owned())));
        assert(json::member_views(fields@) =~= request_members(self.action));
        Ok(object_line(&fields))
    }
}

/// The app's answer to a [`CloseActionRequest`], sent back as one JSON line.
#[derive(Debug, PartialEq, Eq)]
pub enum CloseActionVerdict {
    Authorized,
    Rejected { reason: String },
}

/// An answer as texts.
pub enum VerdictView {
    Authorized,
    Rejected(Seq<char>),
}

impl View for CloseActionVerdict {
    type V = VerdictView;

    open spec fn view(&self) -> VerdictView {
        match *self {
            CloseActionVerdict::Authorized => VerdictView::Authorized,
            CloseActionVerdict::Rejected { reason } => VerdictView::Rejected(reason@),
        }
    }
}

/// The members of an answer.
pub open spec fn verdict_members(verdict: VerdictView) -> Seq<(Seq<char>, FieldView)> {
    match verdict {
        VerdictView::Authorized => seq![("outcome"@, FieldView::Text("authorized"@))],
        VerdictView::Rejected(reason) => seq![
            ("outcome"@, FieldView::Text("rejected"@)),
            ("reason"@, FieldView::Text(reason)),
        ],
    }
}

/// The answer with an outcome, whose reason stands in a place of its own.
pub open spec fn tagged_verdict(
    outcome: Seq<char>,
    reason: Result<Seq<char>, Seq<char>>,
) -> Result<VerdictView, Seq<char>> {
    if outcome == "authorized"@ {
        Ok(VerdictView::Authorized)
    } else if outcome == "rejected"@ {
        match reason {
            Ok(reason) => Ok(VerdictView::Rejected(reason)),
            Err(error) => Err(error),
        }
    } else {
        Err("unknown variant `"@ + outcome + "`, expected `authorized` or `rejected`"@)
    }
}

/// The answer that an object holds. Neither its outcome nor a reason that
/// counts may be repeated; other members are passed over.
pub open spec fn verdict_in(
    names: Seq<Seq<char>>,
    members: Seq<(Seq<char>, Seq<char>)>,
) -> Result<VerdictView, Seq<char>> {
    match names::text_once(names, members, "outcome"@) {
        Ok(outcome) => tagged_verdict(outcome, names::text_once(names, members, "reason"@)),
        Err(error) => Err(error),
    }
}

/// The answer that a line holds, by the document in it: an object with an
/// outcome, or a list that starts with one.
pub open spec fn verdict_of(line: Seq<char>, document: DocumentView) -> Result<
    VerdictView,
    Seq<char>,
> {
    if names::holds_object(line) {
        verdict_in(names::names_in(line), names::members_in(document))
    } else {
        listed_verdict(document)
    }
}

/// The answer that a document holds other than as an object.
pub open spec fn listed_verdict(document: DocumentView) -> Result<VerdictView, Seq<char>> {
    match document {
        DocumentView::List(items) => if items.len() == 0 {
            Err(members::missing_reason("outcome"@))
        } else {
            match json::json_as_text(items[0]) {
                Ok(outcome) => if outcome == "authorized"@ && items.len() > 1 {
                    Err(members::surplus_reason((items.len() - 1) as nat, 0))
                } else {
                    tagged_verdict(outcome, members::listed_text(items))
                },
                Err(error) => Err(error),
            }
        },
        DocumentView::Scalar(value) => Err(
            members::unexpected_reason(value, "internally tagged enum CloseActionVerdict"@),
        ),
        DocumentView::Object(_) => Err(members::missing_reason("outcome"@)),
    }
}

impl CloseActionVerdict {
    /// The answer as one JSON line.
    pub fn to_line(&self) -> (line: Result<String, LineError>)
        ensures
            line is Ok,
            line->Ok_0@ == json::object_text(verdict_members(self@)),
    {
        let mut fields: Vec<(&str, Field)> = Vec::new();
        match self {
            CloseActionVerdict::Authorized => {
                fields.push(("outcome", Field::Text("authorized".to_owned())));
            },
            CloseActionVerdict::Rejected { reason } => {
                fields.push(("outcome", Field::Text("rejected".to_owned())));
                fields.push(("reason", Field::Text(reason.clone())));
            },
        }
        assert(json::member_views(fields@) =~= verdict_members(self@));
        Ok(object_line(&fields))
    }

    /// Reads an answer. What was written by [`to_line`](Self::to_line) is read
    /// back as it was. Only a reason why the line is no JSON says where in the
    /// line it is.
    pub fn from_line(line: &str) -> (verdict: Result<Self, LineError>)
        ensures
            match json::json_document(utf8::encode_utf8(line@)) {
                Ok(document) => match verdict {
                    Ok(verdict) => verdict_of(line@, document) == Ok::<VerdictView, Seq<char>>(
                        verdict@,
                    ),
                    Err(error) => verdict_of(line@, document) == Err::<VerdictView, Seq<char>>(
                        error.reason@,
                    ),
                },
                Err(reason) => verdict is Err && verdict->Err_0.reason@ == reason,
            },
            forall|written: VerdictView|
                line@ == json::object_text(#[trigger] verdict_members(written)) ==> verdict is Ok
                    && verdict->Ok_0@ == written,
    {
        let document = match parse_document(line.as_bytes()) {
            Ok(document) => document,
            Err(reason) => {
                proof {
                    assert forall|written: VerdictView|
                        line@ == json::object_text(#[trigger] verdict_members(written)) implies false by {
                        lemma_verdict_members(written);
                    }
                }
                return Err(LineError { reason });
            },
        };
        let result = Self::from_document(line, &document);
        proof {
            assert forall|written: VerdictView|
                line@ == json::object_text(#[trigger] verdict_members(written)) implies result is Ok
                && result->Ok_0@ == written by {
                lemma_verdict_members(written);
                assert(document@ == DocumentView::Object(
                    json::written(verdict_members(written)),
                ));
            }
        }
        result
    }

    fn tagged(outcome: &str, reason: Result<String, String>) -> (verdict: Result<Self, LineError>)
        ensures
            match verdict {
                Ok(verdict) => tagged_verdict(outcome@, members::text_result(reason)) == Ok::<
                    VerdictView,
                    Seq<char>,
                >(verdict@),
                Err(error) => tagged_verdict(outcome@, members::text_result(reason)) == Err::<
                    VerdictView,
                    Seq<char>,
                >(error.reason@),
            },
    {
        if same_text(outcome, "authorized") {
            Ok(CloseActionVerdict::Authorized)
        } else if same_text(outcome, "rejected") {
            match reason {
                Ok(reason) => Ok(CloseActionVerdict::Rejected { reason }),
                Err(reason) => Err(LineError { reason }),
            }
        } else {
            let mut reason = "unknown variant `".to_owned();
            reason.append(outcome);
            reason.append("`, expected `authorized` or `rejected`");
            Err(LineError { reason })
        }
    }

    fn listed(document: &Document) -> (verdict: Result<Self, LineError>)
        ensures
            match verdict {
                Ok(verdict) => listed_verdict(document@) == Ok::<VerdictView, Seq<char>>(verdict@),
                Err(error) => listed_verdict(document@) == Err::<VerdictView, Seq<char>>(
                    error.reason@,
                ),
            },
    {
        match document {
            Document::List(items) => {
                assert(chars::texts(items@).len() == items@.len());
                if items.len() == 0 {
                    return Err(LineError { reason: missing("outcome") });
                }
                assert(chars::texts(items@)[0] == items@[0]@);
                let outcome = match decode_text(items[0].as_str()) {
                    Ok(outcome) => outcome,
                    Err(reason) => return Err(LineError { reason }),
                };
                if same_text(outcome.as_str(), "authorized") && items.len() > 1 {
                    return Err(LineError { reason: surplus(items.len() - 1, 0) });
                }
                let reason = text_in_list(items);
                Self::tagged(outcome.as_str(), reason)
            },
            Document::Scalar(value) => Err(
                LineError {
                    reason: unexpected(value.as_str(), "internally tagged enum CloseActionVerdict"),
                },
            ),
            Document::Object(_) => Err(LineError { reason: missing("outcome") }),
        }
    }

    /// The answer that a line holds, by the document in it.
    pub fn from_document(line: &str, document: &Document) -> (verdict: Result<Self, LineError>)
        ensures
            match verdict {
                Ok(verdict) => verdict_of(line@, document@) == Ok::<VerdictView, Seq<char>>(
                    verdict@,
                ),
                Err(error) => verdict_of(line@, document@) == Err::<VerdictView, Seq<char>>(
                    error.reason@,
                ),
            },
            forall|written: VerdictView|
                line@ == json::object_text(#[trigger] verdict_members(written)) && document@
                    == DocumentView::Object(json::written(verdict_members(written)))
                    ==> verdict is Ok && verdict->Ok_0@ == written,
    {
        proof {
            reveal_strlit("authorized");
            reveal_strlit("rejected");
            assert("authorized"@.len() != "rejected"@.len());
            assert forall|written: VerdictView|
                line@ == json::object_text(#[trigger] verdict_members(written)) implies
                names::holds_object(line@) && names::are_written(
                names::names_in(line@),
                verdict_members(written),
            ) && verdict_members(written)[0] == ("outcome"@, FieldView::Text(
                outcome_name(written),
            )) by {
                lemma_verdict_members(written);
                names::written_names_are_read(verdict_members(written));
            }
        }
        let names = match member_names(line) {
            Some(names) => names,
            None => return Self::listed(document),
        };
        let none: Vec<(String, String)> = Vec::new();
        let members = match document {
            Document::Object(members) => members,
            _ => &none,
        };
        assert(json::raw_members(members@) =~= names::members_in(document@));
        let outcome = match text_of_one(&names, members, "outcome") {
            Ok(outcome) => outcome,
            Err(reason) => return Err(LineError { reason }),
        };
        let reason = text_of_one(&names, members, "reason");
        proof {
            assert forall|written: VerdictView|
                line@ == json::object_text(#[trigger] verdict_members(written)) && document@
                    == DocumentView::Object(json::written(verdict_members(written)))
                    && verdict_members(written).len() == 2 implies reason is Ok
                && verdict_members(written)[1] == ("reason"@, FieldView::Text(reason->Ok_0@)) by {
                let all = verdict_members(written);
                assert(all[1].0 == "reason"@);
            }
        }
        Self::tagged(outcome.as_str(), reason)
    }
}

proof fn lemma_verdict_members(verdict: VerdictView)
    ensures
        json::distinct_names(verdict_members(verdict)),
        json::is_plain(verdict_members(verdict)),
{
    reveal_strlit("outcome");
    reveal_strlit("reason");
    assert("outcome"@.len() != "reason"@.len());
    json::lemma_short_name("outcome"@);
}

/// An object whose outcome is repeated is no answer, and one whose reason is
/// repeated rejects nothing.
pub proof fn repeated_members_are_refused(line: Seq<char>, document: DocumentView)
    requires
        names::holds_object(line),
    ensures
        names::times_named(names::names_in(line), "outcome"@) != 1 ==> verdict_of(
            line,
            document,
        ) is Err,
        names::times_named(names::names_in(line), "reason"@) != 1 ==> !(verdict_of(
            line,
            document,
        ) matches Ok(VerdictView::Rejected(_))),
{
}

/// The name of an answer.
pub open spec fn outcome_name(verdict: VerdictView) -> Seq<char> {
    match verdict {
        VerdictView::Authorized => "authorized"@,
        VerdictView::Rejected(_) => "rejected"@,
    }
}

/// The `close-action-outcome` workflow event, sent as one JSON line once the
/// requester's Git command has run, so the app can release the
/// one-attempt-at-a-time gate. Not sent when a commit succeeds: the
/// `commit-fix-done` event already reports that outcome.
#[derive(Debug, PartialEq, Eq)]
pub struct CloseActionOutcome {
    pub action: CloseAction,
    pub success: bool,
    pub reason: Option<String>,
}

/// An outcome as texts.
pub struct OutcomeView {
    pub action: CloseAction,
    pub success: bool,
    pub reason: Option<Seq<char>>,
}

impl View for CloseActionOutcome {
    type V = OutcomeView;

    open spec fn view(&self) -> OutcomeView {
        OutcomeView {
            action: self.action,
            success: self.success,
            reason: chars::optional_text(self.reason),
        }
    }
}

/// The members of an outcome.
pub open spec fn outcome_members(outcome: OutcomeView) -> Seq<(Seq<char>, FieldView)> {
    seq![
        ("event"@, FieldView::Text(CLOSE_ACTION_OUTCOME_EVENT@)),
        ("action"@, FieldView::Text(action_name(outcome.action))),
        ("success"@, FieldView::Flag(outcome.success)),
        ("reason"@, json::optional_field(outcome.reason)),
    ]
}

/// A field that holds an optional text.
pub(crate) fn optional_text_field(text: &Option<String>) -> (field: Field)
    ensures
        field@ == json::optional_field(chars::optional_text(*text)),
{
    match text {
        Some(text) => Field::Text(text.clone()),
        None => Field::Null,
    }
}

impl CloseActionOutcome {
    /// The outcome as one JSON line.
    pub fn to_line(&self) -> (line: Result<String, LineError>)
        ensures
            line is Ok,
            line->Ok_0@ == json::object_text(outcome_members(self@)),
    {
        let mut fields: Vec<(&str, Field)> = Vec::new();
        fields.push(("event", Field::Text(CLOSE_ACTION_OUTCOME_EVENT.to_owned())));
        fields.push(("action", Field::Text(self.action.name().to_owned())));
        fields.push(("success", Field::Flag(self.success)));
        fields.push(("reason", optional_text_field(&self.reason)));
        assert(json::member_views(fields@) =~= outcome_members(self@));
        Ok(object_line(&fields))
    }
}

/// Messages on close-side actions are written under the names that their readers
/// look for, each with what it is about.
pub proof fn messages_name_what_they_carry(
    action: CloseAction,
    outcome: OutcomeView,
    reason: Seq<char>,
)
    ensures
        action_name(CloseAction::Add) == "add"@,
        action_name(CloseAction::Commit) == "commit"@,
        request_members(action) == seq![
            ("event"@, FieldView::Text("close-action"@)),
            ("action"@, FieldView::Text(action_name(action))),
        ],
        verdict_members(VerdictView::Authorized) == seq![
            ("outcome"@, FieldView::Text("authorized"@)),
        ],
        verdict_members(VerdictView::Rejected(reason)).contains(
            ("outcome"@, FieldView::Text("rejected"@)),
        ),
        verdict_members(VerdictView::Rejected(reason)).contains(("reason"@, FieldView::Text(reason))),
        outcome_members(outcome).contains(
            ("action"@, FieldView::Text(action_name(outcome.action))),
        ),
        outcome_members(outcome).contains(("success"@, FieldView::Flag(outcome.success))),
        outcome.reason matches Some(told) ==> outcome_members(outcome).contains(
            ("reason"@, FieldView::Text(told)),
        ),
        outcome_members(outcome)[0] == ("event"@, FieldView::Text("close-action-outcome"@)),
{
    let rejected = verdict_members(VerdictView::Rejected(reason));
    assert(rejected[0] == ("outcome"@, FieldView::Text("rejected"@)));
    assert(rejected[1] == ("reason"@, FieldView::Text(reason)));
    let all = outcome_members(outcome);
    assert(all[1] == ("action"@, FieldView::Text(action_name(outcome.action))));
    assert(all[2] == ("success"@, FieldView::Flag(outcome.success)));
    assert(all[3].0 == "reason"@);
    if let Some(told) = outcome.reason {
        assert(all[3] == ("reason"@, FieldView::Text(told)));
    }
}

/// An answer authorizes exactly where its outcome says so, and rejects only with
/// the reason it gives.
pub proof fn answers_go_by_their_outcome(
    outcome: Seq<char>,
    reason: Result<Seq<char>, Seq<char>>,
)
    ensures
        tagged_verdict(outcome, reason) matches Ok(VerdictView::Authorized) <==> outcome
            == "authorized"@,
        tagged_verdict(outcome, reason) matches Ok(VerdictView::Rejected(told)) ==> outcome
            == "rejected"@ && reason == Ok::<Seq<char>, Seq<char>>(told),
        outcome == "rejected"@ && reason is Ok ==> tagged_verdict(outcome, reason) == Ok::<
            VerdictView,
            Seq<char>,
        >(VerdictView::Rejected(reason->Ok_0)),
        outcome != "authorized"@ && outcome != "rejected"@ ==> tagged_verdict(outcome, reason) is Err,
{
    reveal_strlit("authorized");
    reveal_strlit("rejected");
    assert("authorized"@.len() != "rejected"@.len());
}

} // verus!
