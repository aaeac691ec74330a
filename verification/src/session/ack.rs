//! The answers to commit-fix requests, as the requesting connection reads
//! them.

use vstd::prelude::*;

use crate::json;
use crate::json::{object_line, Field, FieldView};

verus! {

/// What became of a commit-fix request.
#[derive(Debug, PartialEq, Eq)]
pub enum CommitFixVerdict {
    /// The request opened a fix session.
    Accepted,
    /// A fix session was already active.
    Ignored(String),
    /// The request could not be honored.
    Rejected(String),
}

/// What became of a request, as text.
pub enum VerdictView {
    Accepted,
    Ignored(Seq<char>),
    Rejected(Seq<char>),
}

impl View for CommitFixVerdict {
    type V = VerdictView;

    open spec fn view(&self) -> VerdictView {
        match *self {
            CommitFixVerdict::Accepted => VerdictView::Accepted,
            CommitFixVerdict::Ignored(reason) => VerdictView::Ignored(reason@),
            CommitFixVerdict::Rejected(reason) => VerdictView::Rejected(reason@),
        }
    }
}

/// The members of an answer.
pub open spec fn ack_members(verdict: VerdictView) -> Seq<(Seq<char>, FieldView)> {
    match verdict {
        VerdictView::Accepted => seq![("outcome"@, FieldView::Text("accepted"@))],
        VerdictView::Ignored(reason) => seq![
            ("outcome"@, FieldView::Text("ignored"@)),
            ("reason"@, FieldView::Text(reason)),
        ],
        VerdictView::Rejected(reason) => seq![
            ("outcome"@, FieldView::Text("rejected"@)),
            ("reason"@, FieldView::Text(reason)),
        ],
    }
}

/// The single-line JSON ack for a commit-fix verdict, in the shape the
/// requesting bridge connection parses.
pub fn commit_fix_ack_line(verdict: &CommitFixVerdict) -> (line: String)
    ensures
        line@ == json::object_text(ack_members(verdict@)),
{
    let mut fields: Vec<(&str, Field)> = Vec::new();
    match verdict {
        CommitFixVerdict::Accepted => {
            fields.push(("outcome", Field::Text("accepted".to_owned())));
        },
        CommitFixVerdict::Ignored(reason) => {
            fields.push(("outcome", Field::Text("ignored".to_owned())));
            fields.push(("reason", Field::Text(reason.clone())));
        },
        CommitFixVerdict::Rejected(reason) => {
            fields.push(("outcome", Field::Text("rejected".to_owned())));
            fields.push(("reason", Field::Text(reason.clone())));
        },
    }
    assert(json::member_views(fields@) =~= ack_members(verdict@));
    object_line(&fields)
}

/// An answer is a single line.
pub proof fn ack_is_one_line(verdict: VerdictView)
    ensures
        !json::object_text(ack_members(verdict)).contains('\n'),
{
    json::object_is_one_line(ack_members(verdict));
}

/// How the wait for a verdict ended.
#[derive(Debug, PartialEq, Eq)]
pub enum Awaited {
    /// The consumer of the session decided.
    Verdict(CommitFixVerdict),
    /// The consumer went away.
    Dropped,
    /// Time was up.
    TimedOut,
}

/// The answer to a request after the wait for its verdict.
pub fn awaited_verdict(awaited: Awaited) -> (verdict: CommitFixVerdict)
    ensures
        match awaited {
            Awaited::Verdict(decided) => verdict == decided,
            Awaited::Dropped => verdict@ == VerdictView::Rejected("session is shutting down"@),
            Awaited::TimedOut => verdict@ == VerdictView::Rejected(
                "the session did not answer the commit-fix request in time"@,
            ),
        },
{
    match awaited {
        Awaited::Verdict(decided) => decided,
        Awaited::Dropped => CommitFixVerdict::Rejected("session is shutting down".to_owned()),
        Awaited::TimedOut => CommitFixVerdict::Rejected(
            "the session did not answer the commit-fix request in time".to_owned(),
        ),
    }
}

/// An answer names its outcome first, and gives its reason exactly where the
/// request was not accepted.
pub proof fn answers_name_their_outcome(verdict: VerdictView)
    ensures
        ack_members(verdict)[0].0 == "outcome"@,
        verdict is Accepted ==> ack_members(verdict).len() == 1 && ack_members(verdict)[0].1
            == FieldView::Text("accepted"@),
        verdict matches VerdictView::Ignored(reason) ==> ack_members(verdict).len() == 2
            && ack_members(verdict)[0].1 == FieldView::Text("ignored"@) && ack_members(verdict)[1]
            == ("reason"@, FieldView::Text(reason)),
        verdict matches VerdictView::Rejected(reason) ==> ack_members(verdict).len() == 2
            && ack_members(verdict)[0].1 == FieldView::Text("rejected"@) && ack_members(verdict)[1]
            == ("reason"@, FieldView::Text(reason)),
{
}

} // verus!
