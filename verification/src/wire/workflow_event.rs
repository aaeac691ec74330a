//! The messages received on the workflow socket.

use vstd::prelude::*;
use vstd::utf8;

use super::close_action;
use super::close_action::{CloseAction, CloseActionOutcome, CloseActionRequest, OutcomeView, CLOSE_ACTION_EVENT, CLOSE_ACTION_OUTCOME_EVENT};
use super::commit_fix;
use super::commit_fix::{CommitFixDone, CommitFixRequest, RequestView, COMMIT_FIX_DONE_EVENT, COMMIT_FIX_EVENT};
use super::members;
use super::members::{action_of_member, check_members, flag_of_member, optional_path_of_member, optional_text_of_member, text_of_member, Kind, Schema};
use crate::json;
use crate::json::{find_member, parse_document, Document, DocumentView, FieldView};
use crate::text::chars;
use crate::text::chars::same_text;
use crate::text::search;

verus! {

/// A message received on the workflow socket.
#[derive(Debug, PartialEq, Eq)]
pub enum WorkflowEvent {
    CommitFix(CommitFixRequest),
    CommitFixDone(CommitFixDone),
    CloseAction(CloseActionRequest),
    CloseActionOutcome(CloseActionOutcome),
}

/// A message as texts.
pub enum EventView {
    CommitFix(RequestView),
    CommitFixDone(Seq<char>),
    CloseAction(CloseAction),
    CloseActionOutcome(OutcomeView),
}

impl View for WorkflowEvent {
    type V = EventView;

    open spec fn view(&self) -> EventView {
        match *self {
            WorkflowEvent::CommitFix(request) => EventView::CommitFix(request@),
            WorkflowEvent::CommitFixDone(done) => EventView::CommitFixDone(done.commit_message@),
            WorkflowEvent::CloseAction(request) => EventView::CloseAction(request.action),
            WorkflowEvent::CloseActionOutcome(outcome) => EventView::CloseActionOutcome(outcome@),
        }
    }
}

/// The members that a message is written with.
pub open spec fn event_members(event: EventView) -> Seq<(Seq<char>, FieldView)> {
    match event {
        EventView::CommitFix(request) => commit_fix::request_members(request),
        EventView::CommitFixDone(commit_message) => commit_fix::done_members(commit_message),
        EventView::CloseAction(action) => close_action::request_members(action),
        EventView::CloseActionOutcome(outcome) => close_action::outcome_members(outcome),
    }
}

/// The line that a message is written as.
pub open spec fn event_line(event: EventView) -> Seq<char> {
    json::object_text(event_members(event))
}

/// The commit-fix request that members make up.
pub open spec fn request_from(raw: Seq<(Seq<char>, Seq<char>)>) -> Result<RequestView, Seq<char>> {
    match members::first_error(Schema::CommitFix, raw) {
        Some(reason) => Err(reason),
        None => match members::required_text(raw, "instructions"@) {
            Err(reason) => Err(reason),
            Ok(instructions) => match members::required_flag(raw, "amend"@) {
                Err(reason) => Err(reason),
                Ok(amend) => match members::required_text(raw, "tldr"@) {
                    Err(reason) => Err(reason),
                    Ok(tldr) => match members::required_text(raw, "why"@) {
                        Err(reason) => Err(reason),
                        Ok(why) => match members::required_text(raw, "what"@) {
                            Err(reason) => Err(reason),
                            Ok(what) => match members::optional_path_in(raw, "cwd"@) {
                                Err(reason) => Err(reason),
                                Ok(cwd) => Ok(
                                    RequestView { instructions, amend, tldr, why, what, cwd },
                                ),
                            },
                        },
                    },
                },
            },
        },
    }
}

/// The message of the commit that ended a fix session, empty where the event
/// does not give one.
pub open spec fn done_from(raw: Seq<(Seq<char>, Seq<char>)>) -> Result<Seq<char>, Seq<char>> {
    match members::first_error(Schema::CommitFixDone, raw) {
        Some(reason) => Err(reason),
        None => match json::lookup(raw, "commit_message"@) {
            Some(value) => json::json_as_text(value),
            None => Ok(Seq::empty()),
        },
    }
}

/// The action that members ask for.
pub open spec fn action_from(raw: Seq<(Seq<char>, Seq<char>)>) -> Result<CloseAction, Seq<char>> {
    match members::first_error(Schema::CloseAction, raw) {
        Some(reason) => Err(reason),
        None => members::required_action(raw, "action"@),
    }
}

/// The outcome that members report.
pub open spec fn outcome_from(raw: Seq<(Seq<char>, Seq<char>)>) -> Result<OutcomeView, Seq<char>> {
    match members::first_error(Schema::CloseActionOutcome, raw) {
        Some(reason) => Err(reason),
        None => match members::required_action(raw, "action"@) {
            Err(reason) => Err(reason),
            Ok(action) => match members::required_flag(raw, "success"@) {
                Err(reason) => Err(reason),
                Ok(success) => match members::optional_text_in(raw, "reason"@) {
                    Err(reason) => Err(reason),
                    Ok(reason) => Ok(OutcomeView { action, success, reason }),
                },
            },
        },
    }
}

/// The reason to reject a message with an unknown tag, or none.
pub open spec fn unhandled_reason(tag: Seq<char>) -> Seq<char> {
    "unhandled workflow event '"@ + tag + "'"@
}

/// The message that a document holds, by its tag.
pub open spec fn event_of(document: DocumentView) -> Result<EventView, Seq<char>> {
    match json::text_member(document, "event"@) {
        Some(tag) => if tag == COMMIT_FIX_EVENT@ {
            match request_from(document->Object_0) {
                Ok(request) => Ok(EventView::CommitFix(request)),
                Err(reason) => Err(reason),
            }
        } else if tag == COMMIT_FIX_DONE_EVENT@ {
            match done_from(document->Object_0) {
                Ok(commit_message) => Ok(EventView::CommitFixDone(commit_message)),
                Err(reason) => Err(reason),
            }
        } else if tag == CLOSE_ACTION_EVENT@ {
            match action_from(document->Object_0) {
                Ok(action) => Ok(EventView::CloseAction(action)),
                Err(reason) => Err(reason),
            }
        } else if tag == CLOSE_ACTION_OUTCOME_EVENT@ {
            match outcome_from(document->Object_0) {
                Ok(outcome) => Ok(EventView::CloseActionOutcome(outcome)),
                Err(reason) => Err(reason),
            }
        } else {
            Err(unhandled_reason(tag))
        },
        None => Err(unhandled_reason("<missing>"@)),
    }
}

/// The message that bytes hold, or the reason to reject them with.
pub open spec fn parsed(message: Seq<u8>) -> Result<EventView, Seq<char>> {
    match json::json_document(message) {
        Ok(document) => event_of(document),
        Err(reason) => Err("workflow event is not valid JSON: "@ + reason),
    }
}

/// Whether a result is the one that is expected.
pub open spec fn is_result(
    result: Result<WorkflowEvent, String>,
    expected: Result<EventView, Seq<char>>,
) -> bool {
    match result {
        Ok(event) => expected == Ok::<EventView, Seq<char>>(event@),
        Err(reason) => expected == Err::<EventView, Seq<char>>(reason@),
    }
}

/// The names in the messages differ.
proof fn lemma_names()
    ensures
        "event"@ != "instructions"@,
        "event"@ != "amend"@,
        "event"@ != "tldr"@,
        "event"@ != "why"@,
        "event"@ != "what"@,
        "event"@ != "cwd"@,
        "event"@ != "commit_message"@,
        "event"@ != "action"@,
        "event"@ != "success"@,
        "event"@ != "reason"@,
        "instructions"@ != "amend"@,
        "instructions"@ != "tldr"@,
        "instructions"@ != "why"@,
        "instructions"@ != "what"@,
        "instructions"@ != "cwd"@,
        "amend"@ != "tldr"@,
        "amend"@ != "why"@,
        "amend"@ != "what"@,
        "amend"@ != "cwd"@,
        "tldr"@ != "why"@,
        "tldr"@ != "what"@,
        "tldr"@ != "cwd"@,
        "why"@ != "what"@,
        "why"@ != "cwd"@,
        "what"@ != "cwd"@,
        "action"@ != "success"@,
        "action"@ != "reason"@,
        "success"@ != "reason"@,
{
    reveal_strlit("event");
    reveal_strlit("instructions");
    reveal_strlit("amend");
    reveal_strlit("tldr");
    reveal_strlit("why");
    reveal_strlit("what");
    reveal_strlit("cwd");
    reveal_strlit("commit_message");
    reveal_strlit("action");
    reveal_strlit("success");
    reveal_strlit("reason");
    assert("event"@.len() == 5);
    assert("instructions"@.len() == 12);
    assert("amend"@.len() == 5);
    assert("tldr"@.len() == 4);
    assert("why"@.len() == 3);
    assert("what"@.len() == 4);
    assert("cwd"@.len() == 3);
    assert("commit_message"@.len() == 14);
    assert("action"@.len() == 6);
    assert("success"@.len() == 7);
    assert("reason"@.len() == 6);
    assert("event"@[0] != "amend"@[0]);
    assert("tldr"@[0] != "what"@[0]);
    assert("why"@[0] != "cwd"@[0]);
    assert("action"@[0] != "reason"@[0]);
}

/// The tags of the messages differ.
pub proof fn lemma_tags()
    ensures
        COMMIT_FIX_EVENT@ != COMMIT_FIX_DONE_EVENT@,
        COMMIT_FIX_EVENT@ != CLOSE_ACTION_EVENT@,
        COMMIT_FIX_EVENT@ != CLOSE_ACTION_OUTCOME_EVENT@,
        COMMIT_FIX_DONE_EVENT@ != CLOSE_ACTION_EVENT@,
        COMMIT_FIX_DONE_EVENT@ != CLOSE_ACTION_OUTCOME_EVENT@,
        CLOSE_ACTION_EVENT@ != CLOSE_ACTION_OUTCOME_EVENT@,
{
    reveal_strlit("commit-fix");
    reveal_strlit("commit-fix-done");
    reveal_strlit("close-action");
    reveal_strlit("close-action-outcome");
    assert("commit-fix"@.len() == 10);
    assert("commit-fix-done"@.len() == 15);
    assert("close-action"@.len() == 12);
    assert("close-action-outcome"@.len() == 20);
}

/// The members of a message have distinct names, the first of which marks no
/// raw value.
pub proof fn event_names_are_distinct(event: EventView)
    ensures
        json::distinct_names(event_members(event)),
        json::is_plain(event_members(event)),
{
    lemma_names();
    reveal_strlit("event");
    json::lemma_short_name("event"@);
    let all = event_members(event);
    assert forall|i: int, j: int| 0 <= i < j < all.len() implies (#[trigger] all[i]).0 != (
    #[trigger] all[j]).0 by {
        assert(i == 0 || i == 1 || i == 2 || i == 3 || i == 4 || i == 5);
        assert(j == 1 || j == 2 || j == 3 || j == 4 || j == 5 || j == 6);
    }
}

/// Every message is written on a single line, which a newline can end.
pub proof fn event_is_one_line(event: EventView)
    ensures
        !event_line(event).contains('\n'),
{
    json::object_is_one_line(event_members(event));
}

/// The members that a message is checked by.
pub open spec fn schema_of(event: EventView) -> Schema {
    match event {
        EventView::CommitFix(_) => Schema::CommitFix,
        EventView::CommitFixDone(_) => Schema::CommitFixDone,
        EventView::CloseAction(_) => Schema::CloseAction,
        EventView::CloseActionOutcome(_) => Schema::CloseActionOutcome,
    }
}

/// A value that was written is nothing to complain about.
proof fn lemma_written_member_is_right(event: EventView, index: int)
    requires
        0 <= index < event_members(event).len(),
        members::member_is_sound(schema_of(event), json::written(event_members(event))[index]),
    ensures
        members::kind_error(
            members::kind_of(schema_of(event), json::written(event_members(event))[index].0),
            json::written(event_members(event))[index].1,
        ) is None,
{
    lemma_names();
    let member = event_members(event)[index];
    assert(json::written(event_members(event))[index] == (member.0, json::field_text(member.1)));
    assert(index == 0 || index == 1 || index == 2 || index == 3 || index == 4 || index == 5 || index
        == 6);
    match event {
        EventView::CloseAction(action) => {
            close_action::action_names_differ(action);
        },
        EventView::CloseActionOutcome(outcome) => {
            close_action::action_names_differ(outcome.action);
        },
        _ => {},
    }
}

proof fn lemma_no_error(schema: Schema, raw: Seq<(Seq<char>, Seq<char>)>)
    requires
        forall|i: int|
            0 <= i < raw.len() ==> members::kind_error(
                members::kind_of(schema, (#[trigger] raw[i]).0),
                raw[i].1,
            ) is None,
    ensures
        members::first_error(schema, raw) is None,
    decreases raw.len(),
{
    if raw.len() > 0 {
        let rest = raw.skip(1);
        assert forall|i: int| 0 <= i < rest.len() implies members::kind_error(
            members::kind_of(schema, (#[trigger] rest[i]).0),
            rest[i].1,
        ) is None by {
            assert(rest[i] == raw[i + 1]);
        }
        lemma_no_error(schema, rest);
        assert(members::kind_error(members::kind_of(schema, raw[0].0), raw[0].1) is None);
    }
}

/// Members that were written make up the message that they were written for.
proof fn lemma_reads_back(event: EventView)
    requires
        forall|i: int|
            0 <= i < event_members(event).len() ==> members::member_is_sound(
                schema_of(event),
                #[trigger] json::written(event_members(event))[i],
            ),
    ensures
        members::first_error(schema_of(event), json::written(event_members(event))) is None,
        match event {
            EventView::CommitFix(request) => request_from(json::written(event_members(event)))
                == Ok::<RequestView, Seq<char>>(request),
            EventView::CommitFixDone(commit_message) => done_from(
                json::written(event_members(event)),
            ) == Ok::<Seq<char>, Seq<char>>(commit_message),
            EventView::CloseAction(action) => action_from(json::written(event_members(event)))
                == Ok::<CloseAction, Seq<char>>(action),
            EventView::CloseActionOutcome(outcome) => outcome_from(
                json::written(event_members(event)),
            ) == Ok::<OutcomeView, Seq<char>>(outcome),
        },
{
    let all = event_members(event);
    let raw = json::written(all);
    lemma_names();
    event_names_are_distinct(event);
    assert forall|i: int| 0 <= i < raw.len() implies members::kind_error(
        members::kind_of(schema_of(event), (#[trigger] raw[i]).0),
        raw[i].1,
    ) is None by {
        lemma_written_member_is_right(event, i);
    }
    lemma_no_error(schema_of(event), raw);
    assert forall|i: int| 0 <= i < all.len() implies json::lookup(raw, (#[trigger] all[i]).0)
        == Some(json::field_text(all[i].1)) && members::member_is_sound(
        schema_of(event),
        (all[i].0, json::field_text(all[i].1)),
    ) by {
        json::lemma_lookup_written(all, i);
        assert(raw[i] == (all[i].0, json::field_text(all[i].1)));
    }
    match event {
        EventView::CommitFix(request) => {
            assert(all[1].0 == "instructions"@);
            assert(all[2].0 == "amend"@);
            assert(all[3].0 == "tldr"@);
            assert(all[4].0 == "why"@);
            assert(all[5].0 == "what"@);
            assert(all[6].0 == "cwd"@);
        },
        EventView::CommitFixDone(commit_message) => {
            assert(all[1].0 == "commit_message"@);
        },
        EventView::CloseAction(action) => {
            assert(all[1].0 == "action"@);
            close_action::action_names_differ(action);
        },
        EventView::CloseActionOutcome(outcome) => {
            assert(all[1].0 == "action"@);
            assert(all[2].0 == "success"@);
            assert(all[3].0 == "reason"@);
            close_action::action_names_differ(outcome.action);
        },
    }
}

/// What checking written members shows, whatever the message was.
proof fn lemma_checked(
    fields: Seq<(Seq<char>, Seq<char>)>,
    schema: Schema,
    passed: bool,
    event: EventView,
)
    requires
        schema == schema_of(event),
        fields == json::written(event_members(event)),
        passed ==> forall|i: int|
            0 <= i < fields.len() ==> members::member_is_sound(schema, #[trigger] fields[i]),
        !passed ==> exists|i: int|
            0 <= i < fields.len() && members::member_is_sound(schema, #[trigger] fields[i])
                && members::kind_error(members::kind_of(schema, fields[i].0), fields[i].1) is Some,
    ensures
        passed,
        forall|i: int|
            0 <= i < event_members(event).len() ==> members::member_is_sound(
                schema_of(event),
                #[trigger] json::written(event_members(event))[i],
            ),
{
    if !passed {
        let i = choose|i: int|
            0 <= i < fields.len() && members::member_is_sound(schema, #[trigger] fields[i])
                && members::kind_error(members::kind_of(schema, fields[i].0), fields[i].1) is Some;
        lemma_written_member_is_right(event, i);
    }
}

fn read_request(fields: &Vec<(String, String)>) -> (request: Result<CommitFixRequest, String>)
    ensures
        match request {
            Ok(request) => request_from(json::raw_members(fields@)) == Ok::<
                RequestView,
                Seq<char>,
            >(request@),
            Err(reason) => request_from(json::raw_members(fields@)) == Err::<
                RequestView,
                Seq<char>,
            >(reason@),
        },
        forall|written: RequestView|
            json::raw_members(fields@) == json::written(
                #[trigger] commit_fix::request_members(written),
            ) ==> request is Ok && request->Ok_0@ == written,
{
    let error = check_members(Schema::CommitFix, fields);
    proof {
        let raw = json::raw_members(fields@);
        assert(raw.len() == fields@.len());
        assert forall|written: RequestView|
            raw == json::written(#[trigger] commit_fix::request_members(written)) implies
            request_from(raw) == Ok::<RequestView, Seq<char>>(written) by {
            let event = EventView::CommitFix(written);
            lemma_checked(raw, Schema::CommitFix, error is None, event);
            lemma_reads_back(event);
        }
    }
    if let Some(reason) = error {
        return Err(reason);
    }
    let instructions = match text_of_member(fields, "instructions") {
        Ok(text) => text,
        Err(reason) => return Err(reason),
    };
    let amend = match flag_of_member(fields, "amend") {
        Ok(flag) => flag,
        Err(reason) => return Err(reason),
    };
    let tldr = match text_of_member(fields, "tldr") {
        Ok(text) => text,
        Err(reason) => return Err(reason),
    };
    let why = match text_of_member(fields, "why") {
        Ok(text) => text,
        Err(reason) => return Err(reason),
    };
    let what = match text_of_member(fields, "what") {
        Ok(text) => text,
        Err(reason) => return Err(reason),
    };
    let cwd = match optional_path_of_member(fields, "cwd") {
        Ok(path) => path,
        Err(reason) => return Err(reason),
    };
    Ok(CommitFixRequest { instructions, amend, tldr, why, what, cwd })
}

fn read_done(fields: &Vec<(String, String)>) -> (done: Result<CommitFixDone, String>)
    ensures
        match done {
            Ok(done) => done_from(json::raw_members(fields@)) == Ok::<Seq<char>, Seq<char>>(
                done.commit_message@,
            ),
            Err(reason) => done_from(json::raw_members(fields@)) == Err::<Seq<char>, Seq<char>>(
                reason@,
            ),
        },
        forall|written: Seq<char>|
            json::raw_members(fields@) == json::written(
                #[trigger] commit_fix::done_members(written),
            ) ==> done is Ok && done->Ok_0.commit_message@ == written,
{
    let error = check_members(Schema::CommitFixDone, fields);
    proof {
        let raw = json::raw_members(fields@);
        assert(raw.len() == fields@.len());
        assert forall|written: Seq<char>|
            raw == json::written(#[trigger] commit_fix::done_members(written)) implies done_from(
            raw,
        ) == Ok::<Seq<char>, Seq<char>>(written) by {
            let event = EventView::CommitFixDone(written);
            lemma_checked(raw, Schema::CommitFixDone, error is None, event);
            lemma_reads_back(event);
        }
    }
    if let Some(reason) = error {
        return Err(reason);
    }
    let commit_message = match find_member(fields, "commit_message") {
        Some(value) => match json::decode_text(value.as_str()) {
            Ok(text) => text,
            Err(reason) => return Err(reason),
        },
        None => {
            let none = String::new();
            assert(none@ =~= Seq::<char>::empty());
            none
        },
    };
    Ok(CommitFixDone { commit_message })
}

fn read_action(fields: &Vec<(String, String)>) -> (request: Result<CloseActionRequest, String>)
    ensures
        match request {
            Ok(request) => action_from(json::raw_members(fields@)) == Ok::<
                CloseAction,
                Seq<char>,
            >(request.action),
            Err(reason) => action_from(json::raw_members(fields@)) == Err::<
                CloseAction,
                Seq<char>,
            >(reason@),
        },
        forall|written: CloseAction|
            json::raw_members(fields@) == json::written(
                #[trigger] close_action::request_members(written),
            ) ==> request is Ok && request->Ok_0.action == written,
{
    let error = check_members(Schema::CloseAction, fields);
    proof {
        let raw = json::raw_members(fields@);
        assert(raw.len() == fields@.len());
        assert forall|written: CloseAction|
            raw == json::written(#[trigger] close_action::request_members(written)) implies
            action_from(raw) == Ok::<CloseAction, Seq<char>>(written) by {
            let event = EventView::CloseAction(written);
            lemma_checked(raw, Schema::CloseAction, error is None, event);
            lemma_reads_back(event);
        }
    }
    if let Some(reason) = error {
        return Err(reason);
    }
    match action_of_member(fields, "action") {
        Ok(action) => Ok(CloseActionRequest { action }),
        Err(reason) => Err(reason),
    }
}

fn read_outcome(fields: &Vec<(String, String)>) -> (outcome: Result<CloseActionOutcome, String>)
    ensures
        match outcome {
            Ok(outcome) => outcome_from(json::raw_members(fields@)) == Ok::<
                OutcomeView,
                Seq<char>,
            >(outcome@),
            Err(reason) => outcome_from(json::raw_members(fields@)) == Err::<
                OutcomeView,
                Seq<char>,
            >(reason@),
        },
        forall|written: OutcomeView|
            json::raw_members(fields@) == json::written(
                #[trigger] close_action::outcome_members(written),
            ) ==> outcome is Ok && outcome->Ok_0@ == written,
{
    let error = check_members(Schema::CloseActionOutcome, fields);
    proof {
        let raw = json::raw_members(fields@);
        assert(raw.len() == fields@.len());
        assert forall|written: OutcomeView|
            raw == json::written(#[trigger] close_action::outcome_members(written)) implies
            outcome_from(raw) == Ok::<OutcomeView, Seq<char>>(written) by {
            let event = EventView::CloseActionOutcome(written);
            lemma_checked(raw, Schema::CloseActionOutcome, error is None, event);
            lemma_reads_back(event);
        }
    }
    if let Some(reason) = error {
        return Err(reason);
    }
    let action = match action_of_member(fields, "action") {
        Ok(action) => action,
        Err(reason) => return Err(reason),
    };
    let success = match flag_of_member(fields, "success") {
        Ok(flag) => flag,
        Err(reason) => return Err(reason),
    };
    let reason = match optional_text_of_member(fields, "reason") {
        Ok(reason) => reason,
        Err(reason) => return Err(reason),
    };
    Ok(CloseActionOutcome { action, success, reason })
}

pub(crate) fn unhandled(tag: &str) -> (reason: String)
    ensures
        reason@ == unhandled_reason(tag@),
{
    let mut reason = "unhandled workflow event '".to_owned();
    reason.append(tag);
    reason.append("'");
    reason
}

impl WorkflowEvent {
    /// Reads a message: routes on the `event` tag, then reads the payload. The
    /// error is the reason to reject the message with. What a sender wrote,
    /// with or without the newline behind it, is read back as it was.
    pub fn parse(message: &[u8]) -> (event: Result<Self, String>)
        ensures
            is_result(event, parsed(message@)),
            forall|written: EventView|
                message@ == utf8::encode_utf8(#[trigger] event_line(written)) || message@
                    == utf8::encode_utf8(event_line(written).push('\n')) ==> event is Ok
                    && event->Ok_0@ == written,
    {
        match parse_document(message) {
            Ok(document) => {
                let event = Self::from_document(&document);
                proof {
                    assert forall|written: EventView|
                        message@ == utf8::encode_utf8(#[trigger] event_line(written)) || message@
                            == utf8::encode_utf8(event_line(written).push('\n')) implies event is Ok
                        && event->Ok_0@ == written by {
                        event_names_are_distinct(written);
                        assert(document@ == DocumentView::Object(
                            json::written(event_members(written)),
                        ));
                    }
                }
                event
            },
            Err(error) => {
                proof {
                    assert forall|written: EventView|
                        message@ == utf8::encode_utf8(#[trigger] event_line(written)) || message@
                            == utf8::encode_utf8(event_line(written).push('\n')) implies false by {
                        event_names_are_distinct(written);
                    }
                }
                let mut reason = "workflow event is not valid JSON: ".to_owned();
                reason.append(error.as_str());
                Err(reason)
            },
        }
    }

    /// The message that a document holds.
    pub fn from_document(document: &Document) -> (event: Result<Self, String>)
        ensures
            is_result(event, event_of(document@)),
            forall|written: EventView|
                document@ == DocumentView::Object(json::written(#[trigger] event_members(written)))
                    ==> event is Ok && event->Ok_0@ == written,
    {
        let fields = match document {
            Document::Object(fields) => fields,
            _ => {
                return Err(unhandled("<missing>"));
            },
        };
        let ghost raw = json::raw_members(fields@);
        let found = find_member(fields, "event");
        let tag = match found {
            Some(value) => json::decode_text(value.as_str()),
            None => Err(String::new()),
        };
        proof {
            assert forall|written: EventView|
                raw == json::written(#[trigger] event_members(written)) implies tag is Ok
                && tag->Ok_0@ == event_tag(written) by {
                event_names_are_distinct(written);
                json::lemma_lookup_written(event_members(written), 0);
                assert(json::quoted(event_tag(written)) == found->0@);
            }
            lemma_tags();
        }
        let tag = match tag {
            Ok(tag) => tag,
            Err(_) => {
                return Err(unhandled("<missing>"));
            },
        };
        if same_text(tag.as_str(), COMMIT_FIX_EVENT) {
            match read_request(fields) {
                Ok(request) => Ok(WorkflowEvent::CommitFix(request)),
                Err(reason) => Err(reason),
            }
        } else if same_text(tag.as_str(), COMMIT_FIX_DONE_EVENT) {
            match read_done(fields) {
                Ok(done) => Ok(WorkflowEvent::CommitFixDone(done)),
                Err(reason) => Err(reason),
            }
        } else if same_text(tag.as_str(), CLOSE_ACTION_EVENT) {
            match read_action(fields) {
                Ok(request) => Ok(WorkflowEvent::CloseAction(request)),
                Err(reason) => Err(reason),
            }
        } else if same_text(tag.as_str(), CLOSE_ACTION_OUTCOME_EVENT) {
            match read_outcome(fields) {
                Ok(outcome) => Ok(WorkflowEvent::CloseActionOutcome(outcome)),
                Err(reason) => Err(reason),
            }
        } else {
            Err(unhandled(tag.as_str()))
        }
    }
}

/// The tag that a message is written with.
pub open spec fn event_tag(event: EventView) -> Seq<char> {
    match event {
        EventView::CommitFix(_) => COMMIT_FIX_EVENT@,
        EventView::CommitFixDone(_) => COMMIT_FIX_DONE_EVENT@,
        EventView::CloseAction(_) => CLOSE_ACTION_EVENT@,
        EventView::CloseActionOutcome(_) => CLOSE_ACTION_OUTCOME_EVENT@,
    }
}

/// A message is read by its tag: each kind under the tag of its own, and what has
/// another tag, or none, is rejected with the tag named.
pub proof fn messages_go_by_their_tag(document: DocumentView)
    ensures
        ({
            let tag = json::text_member(document, "event"@);
            &&& event_of(document) matches Ok(event) ==> match event {
                EventView::CommitFix(_) => tag == Some("commit-fix"@),
                EventView::CommitFixDone(_) => tag == Some("commit-fix-done"@),
                EventView::CloseAction(_) => tag == Some("close-action"@),
                EventView::CloseActionOutcome(_) => tag == Some("close-action-outcome"@),
            }
            &&& tag matches Some(name) ==> (name != "commit-fix"@ && name != "commit-fix-done"@
                && name != "close-action"@ && name != "close-action-outcome"@ ==> (event_of(
                document,
            ) matches Err(reason) && search::contains(reason, name)))
            &&& tag is None ==> event_of(document) is Err
        }),
{
    lemma_tags();
    if let Some(name) = json::text_member(document, "event"@) {
        let reason = unhandled_reason(name);
        let at = "unhandled workflow event '"@.len() as int;
        assert(reason.subrange(at, at + name.len()) =~= name);
        search::containing_is_standing_somewhere(reason, name);
    }
}

/// A request is read field by field, and not at all where a field that a fix
/// session needs is missing.
pub proof fn requests_are_read_field_by_field(raw: Seq<(Seq<char>, Seq<char>)>)
    ensures
        request_from(raw) matches Ok(request) ==> {
            &&& members::required_text(raw, "instructions"@) == Ok::<Seq<char>, Seq<char>>(
                request.instructions,
            )
            &&& members::required_flag(raw, "amend"@) == Ok::<bool, Seq<char>>(request.amend)
            &&& members::required_text(raw, "tldr"@) == Ok::<Seq<char>, Seq<char>>(request.tldr)
            &&& members::required_text(raw, "why"@) == Ok::<Seq<char>, Seq<char>>(request.why)
            &&& members::required_text(raw, "what"@) == Ok::<Seq<char>, Seq<char>>(request.what)
        },
        json::lookup(raw, "instructions"@) is None || json::lookup(raw, "amend"@) is None
            || json::lookup(raw, "tldr"@) is None || json::lookup(raw, "why"@) is None
            || json::lookup(raw, "what"@) is None ==> request_from(raw) is Err,
{
}

/// An outcome is read with the action it is of, whether it succeeded, and why not.
pub proof fn outcomes_are_read_field_by_field(raw: Seq<(Seq<char>, Seq<char>)>)
    ensures
        outcome_from(raw) matches Ok(outcome) ==> {
            &&& members::required_action(raw, "action"@) == Ok::<CloseAction, Seq<char>>(
                outcome.action,
            )
            &&& members::required_flag(raw, "success"@) == Ok::<bool, Seq<char>>(outcome.success)
            &&& members::optional_text_in(raw, "reason"@) == Ok::<Option<Seq<char>>, Seq<char>>(
                outcome.reason,
            )
        },
        json::lookup(raw, "action"@) is None ==> outcome_from(raw) is Err && action_from(raw) is Err,
        json::lookup(raw, "success"@) is None ==> outcome_from(raw) is Err,
        action_from(raw) matches Ok(action) ==> members::required_action(raw, "action"@) == Ok::<
            CloseAction,
            Seq<char>,
        >(action),
{
}

/// The message of a commit is read from its member, and is empty where there is
/// none.
pub proof fn done_messages_are_read(raw: Seq<(Seq<char>, Seq<char>)>)
    ensures
        done_from(raw) matches Ok(message) ==> {
            &&& json::lookup(raw, "commit_message"@) matches Some(value) ==> json::json_as_text(value)
                == Ok::<Seq<char>, Seq<char>>(message)
            &&& json::lookup(raw, "commit_message"@) is None ==> message.len() == 0
        },
        members::first_error(Schema::CommitFixDone, raw) is None && json::lookup(
            raw,
            "commit_message"@,
        ) is None ==> done_from(raw) is Ok,
{
}

/// What is no JSON is told with the reason, and everything else goes by its tag.
pub proof fn messages_are_read_as_json(message: Seq<u8>, result: Result<WorkflowEvent, String>)
    requires
        is_result(result, parsed(message)),
    ensures
        json::json_document(message) matches Err(error) ==> (result matches Err(reason)
            && search::ends_with(reason@, error)),
        json::json_document(message) matches Ok(document) ==> match event_of(document) {
            Ok(event) => result matches Ok(read) && read@ == event,
            Err(error) => result matches Err(reason) && reason@ == error,
        },
{
    if let Err(error) = json::json_document(message) {
        let reason = "workflow event is not valid JSON: "@ + error;
        assert(reason.skip(reason.len() - error.len()) =~= error);
    }
}

} // verus!
