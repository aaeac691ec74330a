//! Commit messages whose body is taken as it stands: every line of it has to
//! fit already.

use vstd::prelude::*;

use super::description;
use super::description::checked_lowercase_first_char;
use super::message;
use super::message::{valid_commit_type, wrap_breaking_change_note_lines, CommitParams, BODY_WIDTH, MAX_SUMMARY};
use crate::text::chars;
use crate::text::chars::char_count;
use crate::text::lines;
use crate::text::lines::lines;
use crate::text::number;
use crate::text::number::decimal_text;
use crate::text::search;
use crate::text::search::{join_texts, text_contains};
use crate::text::words;
use crate::text::words::trimmed;

verus! {

/// A rule that a commit breaks.
#[derive(Debug)]
pub enum CommitMessageError {
    /// The type is not a Conventional Commit type.
    InvalidType(String),
    /// The body is white space.
    EmptyBody,
    /// The body announces a breaking change, which the note is for.
    BreakingChangeInBody,
    /// The summary is this many characters long.
    LongSummary(usize),
    /// A line of the body, counted from one, is this many characters long.
    LongBodyLine { line: usize, length: usize },
}

/// A broken rule, in mathematical terms.
pub enum Violation {
    InvalidType(Seq<char>),
    EmptyBody,
    BreakingChangeInBody,
    LongSummary(nat),
    LongBodyLine { line: nat, length: nat },
}

impl View for CommitMessageError {
    type V = Violation;

    open spec fn view(&self) -> Violation {
        match *self {
            CommitMessageError::InvalidType(commit_type) => Violation::InvalidType(commit_type@),
            CommitMessageError::EmptyBody => Violation::EmptyBody,
            CommitMessageError::BreakingChangeInBody => Violation::BreakingChangeInBody,
            CommitMessageError::LongSummary(length) => Violation::LongSummary(length as nat),
            CommitMessageError::LongBodyLine { line, length } => Violation::LongBodyLine {
                line: line as nat,
                length: length as nat,
            },
        }
    }
}

/// The violations that a sequence of errors reports.
pub open spec fn violations(errors: Seq<CommitMessageError>) -> Seq<Violation> {
    Seq::new(errors.len(), |i: int| errors[i]@)
}

/// What a violation says to the one who asked for the commit.
pub open spec fn violation_text(violation: Violation) -> Seq<char> {
    match violation {
        Violation::InvalidType(commit_type) => "invalid commit type: "@ + commit_type,
        Violation::EmptyBody => "commit body must not be empty"@,
        Violation::BreakingChangeInBody => "commit body must not contain BREAKING CHANGE"@,
        Violation::LongSummary(length) => "commit summary is "@ + number::decimal(length)
            + " characters long and longer than 50 characters"@,
        Violation::LongBodyLine { line, length } => "commit body line "@ + number::decimal(line)
            + " is "@ + number::decimal(length)
            + " characters long and longer than 72 characters"@,
    }
}

impl CommitMessageError {
    /// The violation in words.
    pub fn message(&self) -> (text: String)
        ensures
            text@ == violation_text(self@),
    {
        match self {
            CommitMessageError::InvalidType(commit_type) => {
                let mut text = "invalid commit type: ".to_owned();
                text.append(commit_type.as_str());
                text
            },
            CommitMessageError::EmptyBody => "commit body must not be empty".to_owned(),
            CommitMessageError::BreakingChangeInBody => {
                "commit body must not contain BREAKING CHANGE".to_owned()
            },
            CommitMessageError::LongSummary(length) => {
                let mut text = "commit summary is ".to_owned();
                text.append(decimal_text(*length as u64).as_str());
                text.append(" characters long and longer than 50 characters");
                text
            },
            CommitMessageError::LongBodyLine { line, length } => {
                let mut text = "commit body line ".to_owned();
                text.append(decimal_text(*line as u64).as_str());
                text.append(" is ");
                text.append(decimal_text(*length as u64).as_str());
                text.append(" characters long and longer than 72 characters");
                text
            },
        }
    }
}

/// The lines among the first ones of a body that are too long.
pub open spec fn long_lines(lines: Seq<Seq<char>>) -> Seq<Violation>
    decreases lines.len(),
{
    if lines.len() == 0 {
        Seq::empty()
    } else {
        let before = long_lines(lines.drop_last());
        if lines.last().len() > BODY_WIDTH {
            before.push(Violation::LongBodyLine { line: lines.len(), length: lines.last().len() })
        } else {
            before
        }
    }
}

/// A violation that is reported under a condition.
pub open spec fn violation_if(broken: bool, violation: Violation) -> Seq<Violation> {
    if broken {
        seq![violation]
    } else {
        Seq::empty()
    }
}

/// All rules that a commit breaks, in the order in which they are reported.
pub open spec fn broken_rules(params: CommitParams) -> Seq<Violation> {
    let summary = message::summary_of(params);
    violation_if(
        !message::is_commit_type(params.commit_type@),
        Violation::InvalidType(params.commit_type@),
    ) + violation_if(words::trim(params.body@).len() == 0, Violation::EmptyBody) + violation_if(
        search::contains(params.body@, "BREAKING CHANGE"@),
        Violation::BreakingChangeInBody,
    ) + violation_if(summary.len() > MAX_SUMMARY, Violation::LongSummary(summary.len()))
        + long_lines(lines::lines_of(params.body@))
}

/// The wrapped note, its later lines indented.
pub open spec fn wrapped_note(note: Seq<char>) -> Seq<char> {
    search::join(message::note_lines_of(note), "\n    "@)
}

/// The message of a commit: the summary, a blank line, the body, and under a
/// heading of its own the breaking-change note.
pub open spec fn commit_message(params: CommitParams) -> Seq<char> {
    let head = message::summary_of(params) + "\n\n"@ + params.body@;
    match params.breaking_change_note {
        Some(note) => head + "\n\nBREAKING CHANGE: "@ + wrapped_note(note@),
        None => head,
    }
}

/// What is returned for a commit: its message, or every rule it breaks.
pub open spec fn is_outcome(
    params: CommitParams,
    result: Result<String, Vec<CommitMessageError>>,
) -> bool {
    match result {
        Ok(text) => broken_rules(params).len() == 0 && text@ == commit_message(params),
        Err(errors) => broken_rules(params).len() > 0 && violations(errors@) == broken_rules(
            params,
        ),
    }
}

/// Wraps a breaking-change note and indents its later lines.
pub fn wrap_breaking_change_note(note: &str) -> (text: String)
    ensures
        text@ == wrapped_note(note@),
{
    join_texts(&wrap_breaking_change_note_lines(note), "\n    ")
}

fn report(errors: &mut Vec<CommitMessageError>, error: CommitMessageError)
    ensures
        violations(final(errors)@) == violations(old(errors)@).push(error@),
{
    errors.push(error);
    assert(violations(errors@) =~= violations(old(errors)@).push(error@));
}

fn check_lines(errors: &mut Vec<CommitMessageError>, body: &str)
    ensures
        violations(final(errors)@) == violations(old(errors)@) + long_lines(lines::lines_of(body@)),
{
    let lines = lines(body);
    let ghost all = chars::texts(lines@);
    let ghost start = violations(errors@);
    let mut i: usize = 0;
    assert(start + long_lines(all.take(0)) =~= start);
    while i < lines.len()
        invariant
            all == chars::texts(lines@),
            i <= lines.len(),
            violations(errors@) == start + long_lines(all.take(i as int)),
        decreases lines.len() - i,
    {
        assert(all.take(i + 1).drop_last() =~= all.take(i as int));
        let length: usize = char_count(lines[i].as_str());
        if length > BODY_WIDTH {
            let ghost found = long_lines(all.take(i as int));
            let error = CommitMessageError::LongBodyLine { line: i + 1, length };
            assert((start + found).push(error@) =~= start + found.push(error@));
            report(errors, error);
        }
        i = i + 1;
    }
    assert(all.take(all.len() as int) =~= all);
}

/// Builds the message of a commit, or reports every rule the commit breaks.
pub fn build_commit_message(params: &CommitParams) -> (result: Result<
    String,
    Vec<CommitMessageError>,
>)
    requires
        description::lowers_cleanly(params.description@),
    ensures
        is_outcome(*params, result),
{
    let mut errors: Vec<CommitMessageError> = Vec::new();
    if !valid_commit_type(params.commit_type.as_str()) {
        report(&mut errors, CommitMessageError::InvalidType(params.commit_type.clone()));
    }
    if trimmed(params.body.as_str()).as_str().is_empty() {
        report(&mut errors, CommitMessageError::EmptyBody);
    }
    if text_contains(params.body.as_str(), "BREAKING CHANGE") {
        report(&mut errors, CommitMessageError::BreakingChangeInBody);
    }
    let summary = message::summary(params);
    let length: usize = char_count(summary.as_str());
    if length > MAX_SUMMARY {
        report(&mut errors, CommitMessageError::LongSummary(length));
    }
    check_lines(&mut errors, params.body.as_str());
    assert(violations(errors@) =~= broken_rules(*params));
    assert(violations(errors@).len() == errors@.len());
    if errors.len() > 0 {
        return Err(errors);
    }
    let mut text = summary;
    text.append("\n\n");
    text.append(params.body.as_str());
    match &params.breaking_change_note {
        Some(note) => {
            text.append("\n\nBREAKING CHANGE: ");
            text.append(wrap_breaking_change_note(note.as_str()).as_str());
        },
        None => {},
    }
    Ok(text)
}

/// Builds the message of a commit whose description lowers cleanly, and
/// returns nothing for any other.
pub fn checked_build_commit_message(params: &CommitParams) -> (result: Option<
    Result<String, Vec<CommitMessageError>>,
>)
    ensures
        match result {
            Some(outcome) => description::lowers_cleanly(params.description@) && is_outcome(
                *params,
                outcome,
            ),
            None => !description::lowers_cleanly(params.description@),
        },
{
    if checked_lowercase_first_char(params.description.as_str()).is_some() {
        Some(build_commit_message(params))
    } else {
        None
    }
}

/// A line is reported exactly where it is longer than a body line may be, under
/// its number and with its length.
pub proof fn long_lines_are_reported(lines: Seq<Seq<char>>, index: int)
    requires
        0 <= index < lines.len(),
    ensures
        lines[index].len() > 72 <==> exists|k: int|
            0 <= k < long_lines(lines).len() && (#[trigger] long_lines(lines)[k])
                == (Violation::LongBodyLine { line: (index + 1) as nat, length: lines[index].len() }),
        forall|k: int|
            0 <= k < long_lines(lines).len() ==> match #[trigger] long_lines(lines)[k] {
                Violation::LongBodyLine { line, length } => 1 <= line <= lines.len() && lines[line
                    - 1].len() == length && length > 72,
                _ => false,
            },
    decreases lines.len(),
{
    let head = lines.drop_last();
    let all = long_lines(lines);
    let before = long_lines(head);
    let wanted = Violation::LongBodyLine { line: (index + 1) as nat, length: lines[index].len() };
    if head.len() > 0 {
        let inner: int = if index < head.len() {
            index
        } else {
            0
        };
        long_lines_are_reported(head, inner);
    } else {
        assert(before.len() == 0);
    }
    assert forall|k: int| 0 <= k < all.len() implies match #[trigger] all[k] {
        Violation::LongBodyLine { line, length } => 1 <= line <= lines.len() && lines[line
            - 1].len() == length && length > 72,
        _ => false,
    } by {
        if k < before.len() {
            assert(before[k] == all[k]);
            assert(head[before[k]->line - 1] == lines[before[k]->line - 1]);
        }
    }
    if index < head.len() {
        if lines[index].len() > 72 {
            let k = choose|k: int|
                0 <= k < before.len() && (#[trigger] before[k]) == wanted;
            assert(all[k] == wanted);
        }
    } else if lines[index].len() > 72 {
        assert(all[before.len() as int] == wanted);
    }
    if exists|k: int| 0 <= k < all.len() && (#[trigger] all[k]) == wanted {
        let k = choose|k: int| 0 <= k < all.len() && (#[trigger] all[k]) == wanted;
        assert(lines[all[k]->line - 1].len() > 72);
    }
}

/// A commit is refused exactly where it breaks a rule: its type is unknown, its
/// body is blank or announces a breaking change, its summary is too long, or a
/// line of its body is.
pub proof fn refused_where_a_rule_is_broken(params: CommitParams)
    ensures
        broken_rules(params).len() == 0 <==> message::is_commit_type(params.commit_type@)
            && words::trim(params.body@).len() > 0 && !search::contains(
            params.body@,
            "BREAKING CHANGE"@,
        ) && message::summary_of(params).len() <= 50 && forall|i: int|
            0 <= i < lines::lines_of(params.body@).len() ==> (#[trigger] lines::lines_of(
                params.body@,
            )[i]).len() <= 72,
{
    let all = lines::lines_of(params.body@);
    let long = long_lines(all);
    if all.len() > 0 {
        long_lines_are_reported(all, 0);
        if long.len() > 0 {
            assert(long[0] is LongBodyLine);
            assert(all[long[0]->line - 1].len() > 72);
        } else {
            assert forall|i: int| 0 <= i < all.len() implies (#[trigger] all[i]).len() <= 72 by {
                long_lines_are_reported(all, i);
            }
        }
    }
}

/// A message starts with its summary, holds the body as it stands behind a blank
/// line, and tells of a breaking change exactly where there is one to note.
pub proof fn messages_hold_the_body_as_it_stands(params: CommitParams)
    ensures
        ({
            let text = commit_message(params);
            let head = message::summary_of(params) + "\n\n"@ + params.body@;
            &&& search::starts_with(text, head)
            &&& params.breaking_change_note is None ==> text == head
            &&& params.breaking_change_note matches Some(note) ==> search::starts_with(
                text.skip(head.len() as int),
                "\n\nBREAKING CHANGE: "@,
            ) && search::ends_with(
                text,
                search::join(message::note_lines_of(note@), "\n    "@),
            )
        }),
{
    let text = commit_message(params);
    let head = message::summary_of(params) + "\n\n"@ + params.body@;
    assert(text.take(head.len() as int) =~= head);
    if let Some(note) = params.breaking_change_note {
        let mark = "\n\nBREAKING CHANGE: "@;
        let wrapped = wrapped_note(note@);
        assert(text.skip(head.len() as int) =~= mark + wrapped);
        assert((mark + wrapped).take(mark.len() as int) =~= mark);
        assert(text.skip(text.len() - wrapped.len()) =~= wrapped);
    }
}

/// A violation tells what broke the rule.
pub proof fn violations_tell_their_measure(violation: Violation)
    ensures
        match violation {
            Violation::InvalidType(commit_type) => search::ends_with(
                violation_text(violation),
                commit_type,
            ),
            Violation::LongSummary(length) => search::contains(
                violation_text(violation),
                number::decimal(length),
            ),
            Violation::LongBodyLine { line, length } => search::starts_with(
                violation_text(violation),
                "commit body line "@ + number::decimal(line) + " is "@ + number::decimal(length),
            ),
            _ => true,
        },
{
    let text = violation_text(violation);
    match violation {
        Violation::InvalidType(commit_type) => {
            assert(text.skip(text.len() - commit_type.len()) =~= commit_type);
        },
        Violation::LongSummary(length) => {
            let at = "commit summary is "@.len() as int;
            let digits = number::decimal(length);
            assert(text.subrange(at, at + digits.len()) =~= digits);
            search::containing_is_standing_somewhere(text, digits);
        },
        Violation::LongBodyLine { line, length } => {
            let head = "commit body line "@ + number::decimal(line) + " is "@ + number::decimal(
                length,
            );
            assert(text.take(head.len() as int) =~= head);
        },
        _ => {},
    }
}

/// A commit has one outcome: its message where no rule is broken, and every
/// broken rule where one is.
pub proof fn a_commit_has_one_outcome(
    params: CommitParams,
    result: Result<String, Vec<CommitMessageError>>,
)
    requires
        is_outcome(params, result),
    ensures
        result is Ok <==> broken_rules(params).len() == 0,
        result matches Ok(text) ==> text@ == commit_message(params),
        result matches Err(errors) ==> errors@.len() == broken_rules(params).len() && forall|i: int|
            0 <= i < errors@.len() ==> (#[trigger] errors@[i])@ == broken_rules(params)[i],
{
    if let Err(errors) = result {
        assert forall|i: int| 0 <= i < errors@.len() implies (#[trigger] errors@[i])@
            == broken_rules(params)[i] by {
            assert(violations(errors@)[i] == errors@[i]@);
        }
    }
}

} // verus!
