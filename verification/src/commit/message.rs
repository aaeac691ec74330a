//! Commit messages whose body is wrapped: the rules a message keeps, and the
//! violations reported where it would not.

use vstd::prelude::*;

use super::description;
use super::description::{checked_lowercase_first_char, lowercase_first_char};
use crate::text::chars;
use crate::text::chars::{char_count, same_text};
use crate::text::number;
use crate::text::number::decimal_text;
use crate::text::search;
use crate::text::search::{join_texts, split_text, text_contains};
use crate::text::words;
use crate::text::words::{trimmed, wrap_paragraph_lines, words};

verus! {

/// The widest a line of the body may be.
pub const BODY_WIDTH: usize = 72;

/// The widest the first line of a breaking-change note may be, which stands
/// behind the note's heading.
pub const NOTE_FIRST_WIDTH: usize = 54;

/// The widest a later, indented line of a breaking-change note may be.
pub const NOTE_REST_WIDTH: usize = 68;

/// The longest a summary may be, in characters.
pub const MAX_SUMMARY: usize = 50;

/// How many lines a body may wrap to.
pub const MAX_BODY_LINES: usize = 12;

/// How many lines a breaking-change note may wrap to.
pub const MAX_NOTE_LINES: usize = 4;

/// What a commit is made from.
#[derive(Debug)]
pub struct CommitParams {
    /// Conventional Commit type.
    pub commit_type: String,
    /// Optional scope for the commit.
    pub scope: Option<String>,
    /// Commit description.
    pub description: String,
    /// Commit body as plain text; blank lines separate paragraphs.
    pub body: String,
    /// Optional breaking-change note.
    pub breaking_change_note: Option<String>,
    /// Amend the previous commit instead of creating a new one.
    pub amend: bool,
    /// Working directory for the Git command.
    pub cwd: Option<String>,
}

/// A rule that a commit breaks.
#[derive(Debug)]
pub enum CommitMessageError {
    /// The type is not a Conventional Commit type.
    InvalidType(String),
    /// The body holds no paragraph.
    EmptyBody,
    /// The body announces a breaking change, which the note is for.
    BreakingChangeInBody,
    /// The summary is this many characters long.
    LongSummary(usize),
    /// The body wraps to too many lines.
    TooManyBodyLines { lines: usize, words: usize, paragraphs: usize },
    /// The breaking-change note wraps to too many lines.
    TooManyBreakingChangeLines { lines: usize, words: usize },
}

/// A broken rule, in mathematical terms.
pub enum Violation {
    InvalidType(Seq<char>),
    EmptyBody,
    BreakingChangeInBody,
    LongSummary(nat),
    TooManyBodyLines { lines: nat, words: nat, paragraphs: nat },
    TooManyBreakingChangeLines { lines: nat, words: nat },
}

impl View for CommitMessageError {
    type V = Violation;

    open spec fn view(&self) -> Violation {
        match *self {
            CommitMessageError::InvalidType(commit_type) => Violation::InvalidType(commit_type@),
            CommitMessageError::EmptyBody => Violation::EmptyBody,
            CommitMessageError::BreakingChangeInBody => Violation::BreakingChangeInBody,
            CommitMessageError::LongSummary(length) => Violation::LongSummary(length as nat),
            CommitMessageError::TooManyBodyLines { lines, words, paragraphs } => {
                Violation::TooManyBodyLines {
                    lines: lines as nat,
                    words: words as nat,
                    paragraphs: paragraphs as nat,
                }
            },
            CommitMessageError::TooManyBreakingChangeLines { lines, words } => {
                Violation::TooManyBreakingChangeLines { lines: lines as nat, words: words as nat }
            },
        }
    }
}

/// The violations that a sequence of errors reports.
pub open spec fn violations(errors: Seq<CommitMessageError>) -> Seq<Violation> {
    Seq::new(errors.len(), |i: int| errors[i]@)
}

proof fn lemma_violations_push(errors: Seq<CommitMessageError>, error: CommitMessageError)
    ensures
        violations(errors.push(error)) == violations(errors).push(error@),
{
    assert(violations(errors.push(error)) =~= violations(errors).push(error@));
}

/// What a violation says to the one who asked for the commit.
pub open spec fn violation_text(violation: Violation) -> Seq<char> {
    match violation {
        Violation::InvalidType(commit_type) => "invalid commit type: "@ + commit_type,
        Violation::EmptyBody => "commit body must not be empty"@,
        Violation::BreakingChangeInBody => "commit body must not contain BREAKING CHANGE"@,
        Violation::LongSummary(length) => "commit summary is "@ + number::decimal(length)
            + " characters long and longer than 50 characters"@,
        Violation::TooManyBodyLines { lines, words, paragraphs } => "commit body wraps to "@
            + number::decimal(lines) + " lines ("@ + number::decimal(words) + " words across "@
            + number::decimal(paragraphs)
            + " paragraph(s)) and is longer than 12 lines — shorten the paragraphs"@,
        Violation::TooManyBreakingChangeLines { lines, words } => "breaking change note wraps to "@
            + number::decimal(lines) + " lines ("@ + number::decimal(words)
            + " words) and is longer than 4 lines — shorten the note"@,
    }
}

impl CommitMessageError {
    /// The violation in words.
    pub fn message(&self) -> (text: String)
        ensures
            text@ == violation_text(self@),
    {
        match self {
            CommitMessageError::InvalidType(commit_type) => {
                let mut text = "invalid commit type: ".to_owned();
                text.append(commit_type.as_str());
                text
            },
            CommitMessageError::EmptyBody => "commit body must not be empty".to_owned(),
            CommitMessageError::BreakingChangeInBody => {
                "commit body must not contain BREAKING CHANGE".to_owned()
            },
            CommitMessageError::LongSummary(length) => {
                let mut text = "commit summary is ".to_owned();
                text.append(decimal_text(*length as u64).as_str());
                text.append(" characters long and longer than 50 characters");
                text
            },
            CommitMessageError::TooManyBodyLines { lines, words, paragraphs } => {
                let mut text = "commit body wraps to ".to_owned();
                text.append(decimal_text(*lines as u64).as_str());
                text.append(" lines (");
                text.append(decimal_text(*words as u64).as_str());
                text.append(" words across ");
                text.append(decimal_text(*paragraphs as u64).as_str());
                text.append(
                    " paragraph(s)) and is longer than 12 lines — shorten the paragraphs",
                );
                text
            },
            CommitMessageError::TooManyBreakingChangeLines { lines, words } => {
                let mut text = "breaking change note wraps to ".to_owned();
                text.append(decimal_text(*lines as u64).as_str());
                text.append(" lines (");
                text.append(decimal_text(*words as u64).as_str());
                text.append(" words) and is longer than 4 lines — shorten the note");
                text
            },
        }
    }
}

/// The list of violations, one to a line.
pub open spec fn rejection(broken: Seq<Violation>) -> Seq<char> {
    search::join(
        Seq::new(broken.len(), |i: int| "- "@ + violation_text(broken[i])),
        "\n"@,
    )
}

/// Lists the violations, one to a line.
pub fn rejection_text(errors: &Vec<CommitMessageError>) -> (text: String)
    ensures
        text@ == rejection(violations(errors@)),
{
    let ghost all = Seq::new(errors@.len(), |i: int| "- "@ + violation_text(errors@[i]@));
    let mut items: Vec<String> = Vec::new();
    let mut i: usize = 0;
    while i < errors.len()
        invariant
            i <= errors.len(),
            items.len() == i,
            all.len() == errors.len(),
            all == Seq::new(errors@.len(), |i: int| "- "@ + violation_text(errors@[i]@)),
            forall|k: int| 0 <= k < i ==> (#[trigger] items@[k])@ == all[k],
        decreases errors.len() - i,
    {
        let mut item = "- ".to_owned();
        item.append(errors[i].message().as_str());
        items.push(item);
        i = i + 1;
    }
    assert(chars::texts(items@) =~= all);
    assert(all =~= Seq::new(
        violations(errors@).len(),
        |i: int| "- "@ + violation_text(violations(errors@)[i]),
    ));
    join_texts(&items, "\n")
}

/// The types of the Conventional Commits convention.
pub open spec fn is_commit_type(commit_type: Seq<char>) -> bool {
    ||| commit_type == "build"@
    ||| commit_type == "chore"@
    ||| commit_type == "ci"@
    ||| commit_type == "docs"@
    ||| commit_type == "feat"@
    ||| commit_type == "fix"@
    ||| commit_type == "refactor"@
    ||| commit_type == "style"@
    ||| commit_type == "test"@
}

/// Whether a commit type is one of the convention's.
pub fn valid_commit_type(commit_type: &str) -> (valid: bool)
    ensures
        valid == is_commit_type(commit_type@),
{
    same_text(commit_type, "build") || same_text(commit_type, "chore") || same_text(
        commit_type,
        "ci",
    ) || same_text(commit_type, "docs") || same_text(commit_type, "feat") || same_text(
        commit_type,
        "fix",
    ) || same_text(commit_type, "refactor") || same_text(commit_type, "style") || same_text(
        commit_type,
        "test",
    )
}

/// The pieces that are more than white space, each trimmed.
pub open spec fn trimmed_pieces(pieces: Seq<Seq<char>>) -> Seq<Seq<char>>
    decreases pieces.len(),
{
    if pieces.len() == 0 {
        Seq::empty()
    } else {
        let before = trimmed_pieces(pieces.drop_last());
        let last = words::trim(pieces.last());
        if last.len() == 0 {
            before
        } else {
            before.push(last)
        }
    }
}

/// The paragraphs of a body, which blank lines separate.
pub open spec fn paragraphs_of(body: Seq<char>) -> Seq<Seq<char>> {
    trimmed_pieces(search::split_on(body, "\n\n"@))
}

/// Splits a body into paragraphs at blank lines, trimming them and dropping
/// those that are empty.
pub fn split_paragraphs(text: &str) -> (paragraphs: Vec<String>)
    ensures
        chars::texts(paragraphs@) == paragraphs_of(text@),
{
    proof {
        reveal_strlit("\n\n");
    }
    let pieces = split_text(text, "\n\n");
    let ghost all = chars::texts(pieces@);
    let mut paragraphs: Vec<String> = Vec::new();
    let mut i: usize = 0;
    assert(chars::texts(paragraphs@) =~= trimmed_pieces(all.take(0)));
    while i < pieces.len()
        invariant
            all == chars::texts(pieces@),
            i <= pieces.len(),
            chars::texts(paragraphs@) == trimmed_pieces(all.take(i as int)),
        decreases pieces.len() - i,
    {
        assert(all.take(i + 1).drop_last() =~= all.take(i as int));
        let piece = trimmed(pieces[i].as_str());
        if !piece.as_str().is_empty() {
            proof {
                chars::lemma_texts_push(paragraphs@, piece);
            }
            paragraphs.push(piece);
        }
        i = i + 1;
    }
    assert(all.take(all.len() as int) =~= all);
    paragraphs
}

/// How many words paragraphs have together.
pub open spec fn total_words(paragraphs: Seq<Seq<char>>) -> nat
    decreases paragraphs.len(),
{
    if paragraphs.len() == 0 {
        0
    } else {
        total_words(paragraphs.drop_last()) + words::words_of(paragraphs.last()).len()
    }
}

/// Counts the words of all paragraphs, the measure that whoever wrote them can
/// act on where the number of wrapped lines is not.
pub fn word_count(paragraphs: &Vec<String>) -> (count: usize)
    requires
        total_words(chars::texts(paragraphs@)) <= usize::MAX,
    ensures
        count == total_words(chars::texts(paragraphs@)),
{
    let ghost all = chars::texts(paragraphs@);
    let mut count: usize = 0;
    let mut i: usize = 0;
    assert(total_words(all.take(0)) == 0);
    while i < paragraphs.len()
        invariant
            all == chars::texts(paragraphs@),
            i <= paragraphs.len(),
            count == total_words(all.take(i as int)),
            total_words(all) <= usize::MAX,
        decreases paragraphs.len() - i,
    {
        assert(all.take(i + 1).drop_last() =~= all.take(i as int));
        proof {
            lemma_total_words_prefix(all, i + 1);
        }
        let found = words(paragraphs[i].as_str());
        assert(chars::texts(found@).len() == found@.len());
        count = count + found.len();
        i = i + 1;
    }
    assert(all.take(all.len() as int) =~= all);
    count
}

proof fn lemma_total_words_prefix(paragraphs: Seq<Seq<char>>, n: int)
    requires
        0 <= n <= paragraphs.len(),
    ensures
        total_words(paragraphs.take(n)) <= total_words(paragraphs),
    decreases paragraphs.len(),
{
    if n < paragraphs.len() {
        lemma_total_words_prefix(paragraphs.drop_last(), n);
        assert(paragraphs.drop_last().take(n) =~= paragraphs.take(n));
    } else {
        assert(paragraphs.take(n) =~= paragraphs);
    }
}

/// The words of paragraphs add up, and no paragraphs have none.
pub proof fn word_counts_add_up(first: Seq<Seq<char>>, second: Seq<Seq<char>>)
    ensures
        total_words(Seq::empty()) == 0,
        total_words(first + second) == total_words(first) + total_words(second),
    decreases second.len(),
{
    if second.len() == 0 {
        assert(first + second =~= first);
    } else {
        word_counts_add_up(first, second.drop_last());
        assert((first + second).drop_last() =~= first + second.drop_last());
        assert((first + second).last() == second.last());
    }
}

proof fn lemma_trimmed_words(pieces: Seq<Seq<char>>)
    ensures
        total_words(trimmed_pieces(pieces)) == total_words(pieces),
    decreases pieces.len(),
{
    if pieces.len() > 0 {
        let before = trimmed_pieces(pieces.drop_last());
        let last = words::trim(pieces.last());
        lemma_trimmed_words(pieces.drop_last());
        words::trimming_keeps_the_words(pieces.last());
        if last.len() > 0 {
            assert(before.push(last).drop_last() =~= before);
        }
    }
}

proof fn lemma_split_words(text: Seq<char>)
    ensures
        total_words(search::split_on(text, "\n\n"@)) == words::words_of(text).len(),
    decreases text.len(),
{
    reveal_strlit("\n\n");
    let blank = "\n\n"@;
    search::lemma_find(text, blank);
    match search::find(text, blank) {
        Some(at) => {
            let at = at as int;
            let head = text.take(at);
            let rest = text.skip(at + 2);
            lemma_split_words(rest);
            word_counts_add_up(seq![head], search::split_on(rest, blank));
            assert(seq![head].drop_last() =~= Seq::empty());
            assert(total_words(seq![head]) == words::words_of(head).len());
            assert(text.subrange(at, at + 2)[0] == '\n');
            assert(text.subrange(at, at + 2)[1] == '\n');
            let none = Seq::<char>::empty();
            words::lemma_words_across_space(head, '\n', text.skip(at + 1));
            words::lemma_words_across_space(none, '\n', rest);
            assert(head + seq!['\n'] + text.skip(at + 1) =~= text);
            assert(none + seq!['\n'] + rest =~= text.skip(at + 1));
            assert(words::words_of(none).len() == 0);
            assert(search::split_on(text, blank) == seq![head] + search::split_on(rest, blank));
        },
        None => {
            assert(search::split_on(text, blank) == seq![text]);
            assert(seq![text].drop_last() =~= Seq::empty());
            assert(total_words(Seq::<Seq<char>>::empty()) == 0);
            assert(total_words(seq![text]) == words::words_of(text).len());
        },
    }
}

/// A body has as many words as its paragraphs have together.
pub proof fn splitting_keeps_the_number_of_words(body: Seq<char>)
    ensures
        total_words(paragraphs_of(body)) == words::words_of(body).len(),
{
    lemma_split_words(body);
    lemma_trimmed_words(search::split_on(body, "\n\n"@));
}

/// The lines that paragraphs wrap to, a blank line between each two.
pub open spec fn body_lines_of(paragraphs: Seq<Seq<char>>) -> Seq<Seq<char>>
    decreases paragraphs.len(),
{
    if paragraphs.len() == 0 {
        Seq::empty()
    } else {
        let before = body_lines_of(paragraphs.drop_last());
        let lines = words::wrapped_lines(paragraphs.last(), BODY_WIDTH as nat, BODY_WIDTH as nat);
        if paragraphs.len() == 1 {
            lines
        } else {
            before.push(Seq::empty()) + lines
        }
    }
}

fn append_lines(lines: &mut Vec<String>, more: Vec<String>)
    ensures
        chars::texts(final(lines)@) == chars::texts(old(lines)@) + chars::texts(more@),
{
    let mut more = more;
    let ghost added = more@;
    lines.append(&mut more);
    assert(chars::texts(lines@) =~= chars::texts(old(lines)@) + chars::texts(added));
}

/// Wraps each paragraph on its own and puts a blank line between each two.
pub fn wrap_body_lines(paragraphs: &Vec<String>) -> (lines: Vec<String>)
    ensures
        chars::texts(lines@) == body_lines_of(chars::texts(paragraphs@)),
{
    let ghost all = chars::texts(paragraphs@);
    let mut lines: Vec<String> = Vec::new();
    let mut i: usize = 0;
    assert(chars::texts(lines@) =~= body_lines_of(all.take(0)));
    while i < paragraphs.len()
        invariant
            all == chars::texts(paragraphs@),
            i <= paragraphs.len(),
            chars::texts(lines@) == body_lines_of(all.take(i as int)),
        decreases paragraphs.len() - i,
    {
        assert(all.take(i + 1).drop_last() =~= all.take(i as int));
        let ghost before = chars::texts(lines@);
        if i > 0 {
            let blank = String::new();
            proof {
                chars::lemma_texts_push(lines@, blank);
            }
            lines.push(blank);
        }
        let more = wrap_paragraph_lines(paragraphs[i].as_str(), BODY_WIDTH, BODY_WIDTH);
        if i == 0 {
            assert(before =~= Seq::<Seq<char>>::empty());
            assert(before + chars::texts(more@) =~= chars::texts(more@));
        }
        append_lines(&mut lines, more);
        i = i + 1;
    }
    assert(all.take(all.len() as int) =~= all);
    lines
}

/// The lines a breaking-change note wraps to.
pub open spec fn note_lines_of(note: Seq<char>) -> Seq<Seq<char>> {
    words::wrapped_lines(note, NOTE_FIRST_WIDTH as nat, NOTE_REST_WIDTH as nat)
}

/// Wraps a breaking-change note.
pub fn wrap_breaking_change_note_lines(note: &str) -> (lines: Vec<String>)
    ensures
        chars::texts(lines@) == note_lines_of(note@),
{
    wrap_paragraph_lines(note, NOTE_FIRST_WIDTH, NOTE_REST_WIDTH)
}

/// The first line of a commit message.
pub open spec fn summary_of(params: CommitParams) -> Seq<char> {
    let scope = match params.scope {
        Some(scope) => "("@ + scope@ + ")"@,
        None => Seq::empty(),
    };
    let mark = if params.breaking_change_note is Some {
        "!"@
    } else {
        Seq::empty()
    };
    params.commit_type@ + scope + mark + ": "@ + description::lowered(params.description@)
}

/// A violation that is reported under a condition.
pub open spec fn violation_if(broken: bool, violation: Violation) -> Seq<Violation> {
    if broken {
        seq![violation]
    } else {
        Seq::empty()
    }
}

/// Whether a paragraph announces a breaking change.
pub open spec fn announces_breaking_change(paragraphs: Seq<Seq<char>>) -> bool {
    exists|i: int|
        0 <= i < paragraphs.len() && search::contains(#[trigger] paragraphs[i], "BREAKING CHANGE"@)
}

/// The rules of the type and of the body that a commit breaks.
pub open spec fn body_violations(params: CommitParams) -> Seq<Violation> {
    let paragraphs = paragraphs_of(params.body@);
    let lines = body_lines_of(paragraphs);
    violation_if(
        !is_commit_type(params.commit_type@),
        Violation::InvalidType(params.commit_type@),
    ) + violation_if(paragraphs.len() == 0, Violation::EmptyBody) + violation_if(
        announces_breaking_change(paragraphs),
        Violation::BreakingChangeInBody,
    ) + violation_if(
        lines.len() > MAX_BODY_LINES,
        (Violation::TooManyBodyLines {
            lines: lines.len(),
            words: total_words(paragraphs),
            paragraphs: paragraphs.len(),
        }),
    )
}

/// The rules of the breaking-change note that a commit breaks.
pub open spec fn note_violations(params: CommitParams) -> Seq<Violation> {
    match params.breaking_change_note {
        Some(note) => {
            let lines = note_lines_of(note@);
            violation_if(
                lines.len() > MAX_NOTE_LINES,
                (Violation::TooManyBreakingChangeLines {
                    lines: lines.len(),
                    words: words::words_of(note@).len(),
                }),
            )
        },
        None => Seq::empty(),
    }
}

/// The rules of the summary that a commit breaks.
pub open spec fn summary_violations(params: CommitParams) -> Seq<Violation> {
    let summary = summary_of(params);
    violation_if(summary.len() > MAX_SUMMARY, Violation::LongSummary(summary.len()))
}

/// All rules that a commit breaks, in the order in which they are reported.
pub open spec fn broken_rules(params: CommitParams) -> Seq<Violation> {
    body_violations(params) + note_violations(params) + summary_violations(params)
}

/// The message of a commit: the summary, a blank line, the wrapped body, and
/// under a heading of its own the breaking-change note.
pub open spec fn commit_message(params: CommitParams) -> Seq<char> {
    let head = summary_of(params) + "\n\n"@ + search::join(
        body_lines_of(paragraphs_of(params.body@)),
        "\n"@,
    );
    match params.breaking_change_note {
        Some(note) => head + "\n\nBREAKING CHANGE: "@ + search::join(
            note_lines_of(note@),
            "\n    "@,
        ),
        None => head,
    }
}

/// What is returned for a commit: its message, or every rule it breaks.
pub open spec fn is_outcome(
    params: CommitParams,
    result: Result<String, Vec<CommitMessageError>>,
) -> bool {
    match result {
        Ok(message) => broken_rules(params).len() == 0 && message@ == commit_message(params),
        Err(errors) => broken_rules(params).len() > 0 && violations(errors@) == broken_rules(
            params,
        ),
    }
}

proof fn lemma_words_fit(text: Seq<char>)
    ensures
        words::words_of(text).len() <= text.len(),
    decreases text.len(),
{
    if text.len() > 0 {
        if chars::is_space(text[0]) {
            lemma_words_fit(text.skip(1));
        } else {
            words::lemma_word_len(text);
            lemma_words_fit(text.skip(words::word_len(text) as int));
        }
    }
}

proof fn lemma_trim_shortens(text: Seq<char>)
    ensures
        words::trim_start(text).len() <= text.len(),
        words::trim_end(text).len() <= text.len(),
    decreases text.len(),
{
    if text.len() > 0 {
        lemma_trim_shortens(text.skip(1));
        lemma_trim_shortens(text.drop_last());
    }
}

spec fn total_len(pieces: Seq<Seq<char>>) -> nat
    decreases pieces.len(),
{
    if pieces.len() == 0 {
        0
    } else {
        total_len(pieces.drop_last()) + pieces.last().len()
    }
}

proof fn lemma_total_len_prepend(piece: Seq<char>, pieces: Seq<Seq<char>>)
    ensures
        total_len(seq![piece] + pieces) == piece.len() + total_len(pieces),
    decreases pieces.len(),
{
    let all = seq![piece] + pieces;
    if pieces.len() == 0 {
        assert(all.drop_last() =~= Seq::<Seq<char>>::empty());
        assert(total_len(Seq::<Seq<char>>::empty()) == 0);
    } else {
        assert(all.drop_last() =~= seq![piece] + pieces.drop_last());
        lemma_total_len_prepend(piece, pieces.drop_last());
    }
}

proof fn lemma_split_shortens(text: Seq<char>, separator: Seq<char>)
    ensures
        total_len(search::split_on(text, separator)) <= text.len(),
    decreases text.len(),
{
    let pieces = search::split_on(text, separator);
    match search::find(text, separator) {
        Some(at) if 0 < separator.len() && at + separator.len() <= text.len() => {
            let rest = text.skip((at + separator.len()) as int);
            lemma_split_shortens(rest, separator);
            lemma_total_len_prepend(text.take(at as int), search::split_on(rest, separator));
        },
        _ => {
            assert(pieces =~= seq![text] + Seq::<Seq<char>>::empty());
            lemma_total_len_prepend(text, Seq::empty());
        },
    }
}

proof fn lemma_pieces_words(pieces: Seq<Seq<char>>)
    ensures
        total_words(trimmed_pieces(pieces)) <= total_len(pieces),
    decreases pieces.len(),
{
    if pieces.len() > 0 {
        lemma_pieces_words(pieces.drop_last());
        let before = trimmed_pieces(pieces.drop_last());
        let last = words::trim(pieces.last());
        lemma_trim_shortens(pieces.last());
        lemma_trim_shortens(words::trim_start(pieces.last()));
        lemma_words_fit(last);
        if last.len() > 0 {
            assert(before.push(last).drop_last() =~= before);
        }
    }
}

/// A body has no more words than characters.
proof fn lemma_body_words(body: Seq<char>)
    ensures
        total_words(paragraphs_of(body)) <= body.len(),
{
    lemma_split_shortens(body, "\n\n"@);
    lemma_pieces_words(search::split_on(body, "\n\n"@));
}

fn breaking_change_announced(paragraphs: &Vec<String>) -> (found: bool)
    ensures
        found == announces_breaking_change(chars::texts(paragraphs@)),
{
    let ghost all = chars::texts(paragraphs@);
    let mut i: usize = 0;
    while i < paragraphs.len()
        invariant
            all == chars::texts(paragraphs@),
            i <= paragraphs.len(),
            forall|k: int|
                0 <= k < i ==> !search::contains(#[trigger] all[k], "BREAKING CHANGE"@),
        decreases paragraphs.len() - i,
    {
        assert(all[i as int] == paragraphs@[i as int]@);
        if text_contains(paragraphs[i].as_str(), "BREAKING CHANGE") {
            return true;
        }
        i = i + 1;
    }
    false
}

fn report(errors: &mut Vec<CommitMessageError>, error: CommitMessageError)
    ensures
        violations(final(errors)@) == violations(old(errors)@).push(error@),
{
    proof {
        lemma_violations_push(errors@, error);
    }
    errors.push(error);
}

pub(crate) fn summary(params: &CommitParams) -> (text: String)
    requires
        description::lowers_cleanly(params.description@),
    ensures
        text@ == summary_of(*params),
{
    let mut text = params.commit_type.clone();
    match &params.scope {
        Some(scope) => {
            let mut group = "(".to_owned();
            group.append(scope.as_str());
            group.append(")");
            text.append(group.as_str());
        },
        None => {
            assert(text@ + Seq::<char>::empty() =~= text@);
        },
    }
    if params.breaking_change_note.is_some() {
        text.append("!");
    } else {
        assert(text@ + Seq::<char>::empty() =~= text@);
    }
    text.append(": ");
    text.append(lowercase_first_char(params.description.as_str()).as_str());
    text
}

fn check_body(params: &CommitParams, paragraphs: &Vec<String>, lines: &Vec<String>) -> (errors: Vec<
    CommitMessageError,
>)
    requires
        chars::texts(paragraphs@) == paragraphs_of(params.body@),
        chars::texts(lines@) == body_lines_of(paragraphs_of(params.body@)),
    ensures
        violations(errors@) == body_violations(*params),
{
    assert(chars::texts(paragraphs@).len() == paragraphs@.len());
    assert(chars::texts(lines@).len() == lines@.len());
    let mut errors: Vec<CommitMessageError> = Vec::new();
    if !valid_commit_type(params.commit_type.as_str()) {
        report(&mut errors, CommitMessageError::InvalidType(params.commit_type.clone()));
    }
    if paragraphs.len() == 0 {
        report(&mut errors, CommitMessageError::EmptyBody);
    }
    if breaking_change_announced(paragraphs) {
        report(&mut errors, CommitMessageError::BreakingChangeInBody);
    }
    if lines.len() > MAX_BODY_LINES {
        let length: usize = char_count(params.body.as_str());
        proof {
            lemma_body_words(params.body@);
        }
        report(
            &mut errors,
            CommitMessageError::TooManyBodyLines {
                lines: lines.len(),
                words: word_count(paragraphs),
                paragraphs: paragraphs.len(),
            },
        );
    }
    assert(violations(errors@) =~= body_violations(*params));
    errors
}

/// Builds the message of a commit, or reports every rule the commit breaks.
pub fn build_commit_message(params: &CommitParams) -> (result: Result<
    String,
    Vec<CommitMessageError>,
>)
    requires
        description::lowers_cleanly(params.description@),
    ensures
        is_outcome(*params, result),
{
    let paragraphs = split_paragraphs(params.body.as_str());
    let body_lines = wrap_body_lines(&paragraphs);
    let mut errors = check_body(params, &paragraphs, &body_lines);
    let note_lines: Option<Vec<String>> = match &params.breaking_change_note {
        Some(note) => {
            let lines = wrap_breaking_change_note_lines(note.as_str());
            assert(chars::texts(lines@).len() == lines@.len());
            if lines.len() > MAX_NOTE_LINES {
                let found = words(note.as_str());
                assert(chars::texts(found@).len() == found@.len());
                report(
                    &mut errors,
                    CommitMessageError::TooManyBreakingChangeLines {
                        lines: lines.len(),
                        words: found.len(),
                    },
                );
            }
            Some(lines)
        },
        None => None,
    };
    assert(violations(errors@) =~= body_violations(*params) + note_violations(*params));
    let summary = summary(params);
    let length: usize = char_count(summary.as_str());
    if length > MAX_SUMMARY {
        report(&mut errors, CommitMessageError::LongSummary(length));
    }
    assert(violations(errors@) =~= broken_rules(*params));
    assert(violations(errors@).len() == errors@.len());
    if errors.len() > 0 {
        return Err(errors);
    }
    let mut message = summary;
    message.append("\n\n");
    message.append(join_texts(&body_lines, "\n").as_str());
    match &note_lines {
        Some(lines) => {
            message.append("\n\nBREAKING CHANGE: ");
            message.append(join_texts(lines, "\n    ").as_str());
        },
        None => {},
    }
    Ok(message)
}

/// Builds the message of a commit whose description lowers cleanly, and
/// returns nothing for any other.
pub fn checked_build_commit_message(params: &CommitParams) -> (result: Option<
    Result<String, Vec<CommitMessageError>>,
>)
    ensures
        match result {
            Some(outcome) => description::lowers_cleanly(params.description@) && is_outcome(
                *params,
                outcome,
            ),
            None => !description::lowers_cleanly(params.description@),
        },
{
    if checked_lowercase_first_char(params.description.as_str()).is_some() {
        Some(build_commit_message(params))
    } else {
        None
    }
}

/// Whether a line of a body keeps to the width of a body. A single word that is
/// wider stands alone.
pub open spec fn keeps_to_the_width(line: Seq<char>) -> bool {
    line.len() <= BODY_WIDTH || words::is_word(line)
}

/// No line of a body is wider than a body, unless it is a single word.
pub proof fn body_keeps_to_the_width(paragraphs: Seq<Seq<char>>)
    ensures
        forall|k: int|
            0 <= k < body_lines_of(paragraphs).len() ==> keeps_to_the_width(
                #[trigger] body_lines_of(paragraphs)[k],
            ),
    decreases paragraphs.len(),
{
    if paragraphs.len() > 0 {
        let before = body_lines_of(paragraphs.drop_last());
        let width = BODY_WIDTH as nat;
        let lines = words::wrapped_lines(paragraphs.last(), width, width);
        body_keeps_to_the_width(paragraphs.drop_last());
        words::wrapping_keeps_to_the_width(paragraphs.last(), width, width);
        assert forall|k: int| 0 <= k < lines.len() implies keeps_to_the_width(
            #[trigger] lines[k],
        ) by {
            assert(words::line_width(k, width, width) == width);
        }
        if paragraphs.len() > 1 {
            let all = before.push(Seq::empty()) + lines;
            assert(body_lines_of(paragraphs) == all);
            assert forall|k: int| 0 <= k < all.len() implies keeps_to_the_width(
                #[trigger] all[k],
            ) by {
                if k < before.len() {
                    assert(all[k] == before[k]);
                } else if k > before.len() {
                    assert(all[k] == lines[k - before.len() - 1]);
                }
            }
        }
    }
}

/// What stands before a line of a breaking-change note in a message: its
/// heading, or an indent.
pub open spec fn note_prefix(index: int) -> Seq<char> {
    if index == 0 {
        "BREAKING CHANGE: "@
    } else {
        "    "@
    }
}

/// No line of a breaking-change note is wider than a body, its heading or
/// indent included, unless a single word is wider than the room it is left.
pub proof fn note_keeps_to_the_width(note: Seq<char>)
    ensures
        forall|k: int|
            0 <= k < note_lines_of(note).len() ==> {
                let line = #[trigger] note_lines_of(note)[k];
                (note_prefix(k) + line).len() <= BODY_WIDTH || words::is_word(line)
            },
{
    reveal_strlit("BREAKING CHANGE: ");
    reveal_strlit("    ");
    words::wrapping_keeps_to_the_width(note, NOTE_FIRST_WIDTH as nat, NOTE_REST_WIDTH as nat);
}

/// A commit that breaks no rule has a known type, a body that announces no
/// breaking change, and keeps to every limit of length.
pub proof fn accepted_commit_keeps_to_the_limits(params: CommitParams)
    requires
        broken_rules(params).len() == 0,
    ensures
        is_commit_type(params.commit_type@),
        paragraphs_of(params.body@).len() > 0,
        !announces_breaking_change(paragraphs_of(params.body@)),
        summary_of(params).len() <= MAX_SUMMARY,
        body_lines_of(paragraphs_of(params.body@)).len() <= MAX_BODY_LINES,
        params.breaking_change_note matches Some(note) ==> note_lines_of(note@).len()
            <= MAX_NOTE_LINES,
        forall|k: int|
            0 <= k < body_lines_of(paragraphs_of(params.body@)).len() ==> keeps_to_the_width(
                #[trigger] body_lines_of(paragraphs_of(params.body@))[k],
            ),
        params.breaking_change_note matches Some(note) ==> forall|k: int|
            0 <= k < note_lines_of(note@).len() ==> {
                let line = #[trigger] note_lines_of(note@)[k];
                (note_prefix(k) + line).len() <= BODY_WIDTH || words::is_word(line)
            },
{
    body_keeps_to_the_width(paragraphs_of(params.body@));
    if let Some(note) = params.breaking_change_note {
        note_keeps_to_the_width(note@);
    }
    assert(body_violations(params).len() == 0);
    assert(note_violations(params).len() == 0);
    assert(summary_violations(params).len() == 0);
}

/// A refusal says what is wrong: at least one rule is broken, and each that is
/// stands in it.
pub proof fn refusal_is_explained(params: CommitParams)
    ensures
        !is_commit_type(params.commit_type@) ==> broken_rules(params).contains(
            Violation::InvalidType(params.commit_type@),
        ),
        paragraphs_of(params.body@).len() == 0 ==> broken_rules(params).contains(
            Violation::EmptyBody,
        ),
        summary_of(params).len() > MAX_SUMMARY ==> broken_rules(params).contains(
            Violation::LongSummary(summary_of(params).len()),
        ),
{
    let rules = broken_rules(params);
    if !is_commit_type(params.commit_type@) {
        assert(rules[0] == Violation::InvalidType(params.commit_type@));
    }
    if paragraphs_of(params.body@).len() == 0 {
        let place = if is_commit_type(params.commit_type@) {
            0int
        } else {
            1int
        };
        assert(rules[place] == Violation::EmptyBody);
    }
    if summary_of(params).len() > MAX_SUMMARY {
        assert(rules.last() == Violation::LongSummary(summary_of(params).len()));
    }
}

proof fn lemma_trimmed_pieces_add_up(first: Seq<Seq<char>>, second: Seq<Seq<char>>)
    ensures
        trimmed_pieces(first + second) == trimmed_pieces(first) + trimmed_pieces(second),
    decreases second.len(),
{
    if second.len() == 0 {
        assert(first + second =~= first);
        assert(trimmed_pieces(first) + trimmed_pieces(second) =~= trimmed_pieces(first));
    } else {
        lemma_trimmed_pieces_add_up(first, second.drop_last());
        assert((first + second).drop_last() =~= first + second.drop_last());
        assert((first + second).last() == second.last());
        let before = trimmed_pieces(second.drop_last());
        let last = words::trim(second.last());
        if last.len() > 0 {
            assert(trimmed_pieces(first) + before.push(last) =~= (trimmed_pieces(first)
                + before).push(last));
        }
    }
}

proof fn lemma_one_piece(piece: Seq<char>)
    ensures
        trimmed_pieces(seq![piece]) == (if words::trim(piece).len() == 0 {
            Seq::empty()
        } else {
            seq![words::trim(piece)]
        }),
{
    assert(seq![piece].drop_last() =~= Seq::<Seq<char>>::empty());
    assert(trimmed_pieces(Seq::<Seq<char>>::empty()) =~= Seq::<Seq<char>>::empty());
    assert(trimmed_pieces(seq![piece]) =~= (if words::trim(piece).len() == 0 {
        Seq::empty()
    } else {
        seq![words::trim(piece)]
    }));
}

/// A line break before a body makes no paragraph.
proof fn lemma_leading_break(body: Seq<char>)
    ensures
        paragraphs_of(seq!['\n'] + body) == paragraphs_of(body),
    decreases body.len(),
{
    reveal_strlit("\n\n");
    let blank = "\n\n"@;
    let all = seq!['\n'] + body;
    search::lemma_find(all, blank);
    search::lemma_find(body, blank);
    assert(all.skip(1) =~= body);
    if body.len() > 0 && body[0] == '\n' {
        let rest = body.skip(1);
        assert(all.take(2) =~= blank);
        assert(search::starts_with(all, blank));
        assert(all.take(0) =~= Seq::<char>::empty());
        assert(all.skip(2) =~= rest);
        assert(search::split_on(all, blank) == seq![Seq::<char>::empty()] + search::split_on(
            rest,
            blank,
        ));
        lemma_trimmed_pieces_add_up(seq![Seq::<char>::empty()], search::split_on(rest, blank));
        lemma_one_piece(Seq::empty());
        assert(words::trim(Seq::<char>::empty()) =~= Seq::<char>::empty());
        assert(paragraphs_of(all) =~= paragraphs_of(rest));
        lemma_leading_break(rest);
        assert(seq!['\n'] + rest =~= body);
    } else {
        assert(!search::starts_with(all, blank)) by {
            if search::starts_with(all, blank) {
                assert(all.take(2)[1] == body[0]);
            }
        }
        match search::find(body, blank) {
            Some(at) => {
                let at = at as int;
                let head = body.take(at);
                let rest = body.skip(at + 2);
                assert(search::find(all, blank) == Some((at + 1) as nat));
                assert(all.take(at + 1) =~= seq!['\n'] + head);
                assert(all.skip(at + 3) =~= rest);
                assert(search::split_on(all, blank) == seq![seq!['\n'] + head]
                    + search::split_on(rest, blank));
                assert(search::split_on(body, blank) == seq![head] + search::split_on(
                    rest,
                    blank,
                ));
                lemma_trimmed_pieces_add_up(
                    seq![seq!['\n'] + head],
                    search::split_on(rest, blank),
                );
                lemma_trimmed_pieces_add_up(seq![head], search::split_on(rest, blank));
                lemma_trim_after_break(head);
                lemma_one_piece(head);
                lemma_one_piece(seq!['\n'] + head);
            },
            None => {
                assert(search::find(all, blank) is None);
                lemma_trim_after_break(body);
                lemma_one_piece(body);
                lemma_one_piece(all);
            },
        }
    }
}

proof fn lemma_trim_after_break(text: Seq<char>)
    ensures
        words::trim(seq!['\n'] + text) == words::trim(text),
{
    assert((seq!['\n'] + text).skip(1) =~= text);
}

proof fn lemma_trim_before_break(text: Seq<char>)
    ensures
        words::trim(text.push('\n')) == words::trim(text),
    decreases text.len(),
{
    let all = text.push('\n');
    if text.len() == 0 {
        assert(all.skip(1) =~= text);
    } else if chars::is_space(text[0]) {
        assert(all[0] == text[0]);
        assert(all.skip(1) =~= text.skip(1).push('\n'));
        lemma_trim_before_break(text.skip(1));
    } else {
        assert(all[0] == text[0]);
        assert(all.drop_last() =~= text);
    }
}

/// Blank lines, and nothing else, part paragraphs: what stands before a blank
/// line and what stands behind it have their paragraphs apart from each other,
/// and a body without one is a single paragraph, without the white space around
/// it, unless it is blank.
pub proof fn blank_lines_part_paragraphs(first: Seq<char>, second: Seq<char>)
    ensures
        paragraphs_of(first + seq!['\n', '\n'] + second) == paragraphs_of(first) + paragraphs_of(
            second,
        ),
        !search::contains(first, seq!['\n', '\n']) ==> paragraphs_of(first) == (if words::words_of(
            first,
        ).len() == 0 {
            Seq::empty()
        } else {
            seq![words::trim(first)]
        }),
    decreases first.len(),
{
    reveal_strlit("\n\n");
    let blank = "\n\n"@;
    assert(blank =~= seq!['\n', '\n']);
    let all = first + blank + second;
    assert(all.take(first.len() as int) =~= first);
    search::lemma_find(first, blank);
    search::lemma_find(all, blank);
    match search::find(first, blank) {
        Some(at) => {
            let at = at as int;
            let head = first.take(at);
            let rest = first.skip(at + 2);
            blank_lines_part_paragraphs(rest, second);
            lemma_same_place(all, first, blank, at);
            assert(all.take(at) =~= head);
            assert(all.skip(at + 2) =~= rest + blank + second);
            assert(search::split_on(all, blank) == seq![head] + search::split_on(
                rest + blank + second,
                blank,
            ));
            assert(search::split_on(first, blank) == seq![head] + search::split_on(rest, blank));
            lemma_trimmed_pieces_add_up(
                seq![head],
                search::split_on(rest + blank + second, blank),
            );
            lemma_trimmed_pieces_add_up(seq![head], search::split_on(rest, blank));
            assert(paragraphs_of(all) =~= paragraphs_of(first) + paragraphs_of(second));
        },
        None => {
            assert(search::split_on(first, blank) == seq![first]);
            lemma_one_piece(first);
            lemma_trim_blank(first);
            if first.len() > 0 && first.last() == '\n' {
                let head = first.drop_last();
                let at = head.len() as int;
                lemma_no_earlier(all, first, blank, at);
                assert(all.skip(at).take(2) =~= blank);
                assert(search::starts_with(all.skip(at), blank));
                lemma_find_at(all, blank, at);
                assert(all.take(at) =~= head);
                assert(all.skip(at + 2) =~= seq!['\n'] + second);
                assert(search::split_on(all, blank) == seq![head] + search::split_on(
                    seq!['\n'] + second,
                    blank,
                ));
                lemma_trimmed_pieces_add_up(
                    seq![head],
                    search::split_on(seq!['\n'] + second, blank),
                );
                lemma_leading_break(second);
                lemma_one_piece(head);
                lemma_trim_before_break(head);
                assert(head.push('\n') =~= first);
            } else {
                let at = first.len() as int;
                lemma_no_earlier(all, first, blank, at);
                assert(all.skip(at).take(2) =~= blank);
                assert(search::starts_with(all.skip(at), blank));
                lemma_find_at(all, blank, at);
                assert(all.take(at) =~= first);
                assert(all.skip(at + 2) =~= second);
                assert(search::split_on(all, blank) == seq![first] + search::split_on(
                    second,
                    blank,
                ));
                lemma_trimmed_pieces_add_up(seq![first], search::split_on(second, blank));
            }
        },
    }
}

proof fn lemma_trim_blank(text: Seq<char>)
    ensures
        words::trim(text).len() == 0 <==> words::words_of(text).len() == 0,
{
    let places = words::trimming_takes_the_outer_white_space(text);
    words::trimming_keeps_the_words(text);
    let left = words::trim(text);
    if left.len() > 0 {
        words::lemma_word_len(left);
    } else {
        assert(words::words_of(left).len() == 0);
    }
}

/// The first occurrence is where the first of all places is.
proof fn lemma_find_at(text: Seq<char>, pattern: Seq<char>, at: int)
    requires
        0 <= at <= text.len(),
        search::starts_with(text.skip(at), pattern),
        forall|i: int| 0 <= i < at ==> !search::starts_with(#[trigger] text.skip(i), pattern),
    ensures
        search::find(text, pattern) == Some(at as nat),
{
    search::lemma_find(text, pattern);
    match search::find(text, pattern) {
        Some(found) => {
            let found = found as int;
            assert(text.skip(found).take(pattern.len() as int) =~= text.subrange(
                found,
                found + pattern.len(),
            ));
            assert(search::starts_with(text.skip(found), pattern));
            if at < found {
                assert(!search::starts_with(text.skip(at), pattern));
            }
        },
        None => {
            assert(!search::starts_with(text.skip(at), pattern));
        },
    }
}

proof fn lemma_same_place(all: Seq<char>, first: Seq<char>, pattern: Seq<char>, at: int)
    requires
        search::starts_with(all, first),
        pattern.len() > 0,
        search::find(first, pattern) == Some(at as nat),
        0 <= at,
    ensures
        search::find(all, pattern) == Some(at as nat),
{
    search::lemma_find(first, pattern);
    assert(all.take(first.len() as int) == first);
    assert(all.skip(at).take(pattern.len() as int) =~= first.subrange(at, at + pattern.len()));
    assert forall|i: int| 0 <= i < at implies !search::starts_with(
        #[trigger] all.skip(i),
        pattern,
    ) by {
        assert(!search::starts_with(first.skip(i), pattern));
        assert(first.skip(i).take(pattern.len() as int) =~= all.skip(i).take(
            pattern.len() as int,
        ));
    }
    lemma_find_at(all, pattern, at);
}

/// A pattern of two line breaks stands nowhere before a text's own end.
proof fn lemma_no_earlier(all: Seq<char>, first: Seq<char>, pattern: Seq<char>, at: int)
    requires
        search::starts_with(all, first),
        pattern.len() == 2,
        pattern[0] == '\n',
        search::find(first, pattern) is None,
        0 <= at <= first.len(),
        at < first.len() ==> at == first.len() - 1,
        at == first.len() && at > 0 ==> first.last() != '\n',
    ensures
        forall|i: int| 0 <= i < at ==> !search::starts_with(#[trigger] all.skip(i), pattern),
{
    search::lemma_find(first, pattern);
    assert(all.take(first.len() as int) == first);
    assert forall|i: int| 0 <= i < at implies !search::starts_with(
        #[trigger] all.skip(i),
        pattern,
    ) by {
        assert(!search::starts_with(first.skip(i), pattern));
        if i + 2 <= first.len() {
            assert(first.skip(i).take(2) =~= all.skip(i).take(2));
        } else {
            assert(i == first.len() - 1);
            assert(first.last() == all.take(first.len() as int)[i]);
            if search::starts_with(all.skip(i), pattern) {
                assert(all.skip(i).take(2)[0] == all[i]);
            }
        }
    }
}

/// The words of paragraphs, paragraph by paragraph, are the words of the body.
proof fn lemma_paragraph_words(pieces: Seq<Seq<char>>)
    ensures
        words::words_of_lines(trimmed_pieces(pieces)) == words::words_of_lines(pieces),
    decreases pieces.len(),
{
    if pieces.len() > 0 {
        let less = pieces.drop_last();
        lemma_paragraph_words(less);
        words::words_of_lines_add_up(less, seq![pieces.last()]);
        words::words_of_one_line(pieces.last());
        assert(less + seq![pieces.last()] =~= pieces);
        lemma_trimmed_pieces_add_up(less, seq![pieces.last()]);
        lemma_one_piece(pieces.last());
        lemma_trim_blank(pieces.last());
        words::trimming_keeps_the_words(pieces.last());
        let last = trimmed_pieces(seq![pieces.last()]);
        words::words_of_lines_add_up(trimmed_pieces(less), last);
        words::words_of_one_line(words::trim(pieces.last()));
        if words::trim(pieces.last()).len() == 0 {
            assert(last =~= Seq::<Seq<char>>::empty());
            assert(words::words_of_lines(last) =~= words::words_of(pieces.last()));
        }
    }
}

/// Splitting a body into paragraphs keeps every word, in order.
pub proof fn paragraphs_keep_the_words(body: Seq<char>)
    ensures
        words::words_of_lines(paragraphs_of(body)) == words::words_of(body),
{
    reveal_strlit("\n\n");
    let pieces = search::split_on(body, "\n\n"@);
    lemma_paragraph_words(pieces);
    search::join_undoes_split(body, "\n\n"@);
    words::joining_keeps_the_words(pieces, "\n\n"@);
}

/// How many of some lines are blank.
pub open spec fn blank_lines(lines: Seq<Seq<char>>) -> nat {
    lines.filter(|line: Seq<char>| line.len() == 0).len()
}

/// Paragraphs are laid out one below the other: the lines of some paragraphs and
/// of some more are the lines of either, with one blank line between them.
pub proof fn paragraphs_are_set_apart(first: Seq<Seq<char>>, second: Seq<Seq<char>>)
    requires
        first.len() > 0,
        second.len() > 0,
    ensures
        body_lines_of(first + second) == body_lines_of(first) + seq![Seq::<char>::empty()]
            + body_lines_of(second),
    decreases second.len(),
{
    let all = first + second;
    assert(all.drop_last() =~= first + second.drop_last());
    assert(all.last() == second.last());
    let lines = words::wrapped_lines(second.last(), BODY_WIDTH as nat, BODY_WIDTH as nat);
    let blank = seq![Seq::<char>::empty()];
    if second.len() == 1 {
        assert(all.drop_last() =~= first);
        assert(body_lines_of(all) =~= body_lines_of(first) + blank + lines);
    } else {
        paragraphs_are_set_apart(first, second.drop_last());
        let before = body_lines_of(second.drop_last());
        assert(body_lines_of(second) == before.push(Seq::empty()) + lines);
        assert(body_lines_of(all) =~= body_lines_of(first) + blank + (before.push(Seq::empty())
            + lines));
    }
}

/// A body keeps every word of its paragraphs, in order, and adds none.
pub proof fn body_lines_keep_the_words(paragraphs: Seq<Seq<char>>)
    ensures
        words::words_of_lines(body_lines_of(paragraphs)) == words::words_of_lines(paragraphs),
    decreases paragraphs.len(),
{
    if paragraphs.len() > 0 {
        let last = paragraphs.last();
        let less = paragraphs.drop_last();
        let width = BODY_WIDTH as nat;
        let lines = words::wrapped_lines(last, width, width);
        body_lines_keep_the_words(less);
        words::wrapping_keeps_the_words(last, width, width);
        words::words_of_lines_add_up(less, seq![last]);
        words::words_of_one_line(last);
        assert(less + seq![last] =~= paragraphs);
        if paragraphs.len() == 1 {
            assert(less =~= Seq::<Seq<char>>::empty());
            assert(words::words_of_lines(less) =~= Seq::<Seq<char>>::empty());
            assert(words::words_of_lines(less) + words::words_of(last) =~= words::words_of(last));
        } else {
            let before = body_lines_of(less);
            let blank = Seq::<char>::empty();
            words::words_of_lines_add_up(before, seq![blank]);
            words::words_of_one_line(blank);
            assert(words::words_of(blank) =~= Seq::<Seq<char>>::empty());
            assert(before + seq![blank] =~= before.push(blank));
            words::words_of_lines_add_up(before.push(blank), lines);
            assert(words::words_of_lines(before) + words::words_of(blank)
                =~= words::words_of_lines(before));
        }
    }
}

/// The lines of a body hold one blank line less than there are paragraphs.
pub proof fn one_blank_line_between_paragraphs(paragraphs: Seq<Seq<char>>)
    ensures
        paragraphs.len() > 0 ==> blank_lines(body_lines_of(paragraphs)) == paragraphs.len() - 1,
        paragraphs.len() == 0 ==> body_lines_of(paragraphs).len() == 0,
    decreases paragraphs.len(),
{
    broadcast use Seq::filter_distributes_over_add;

    if paragraphs.len() > 0 {
        let less = paragraphs.drop_last();
        let last = paragraphs.last();
        let width = BODY_WIDTH as nat;
        let lines = words::wrapped_lines(last, width, width);
        let is_blank = |line: Seq<char>| line.len() == 0;
        words::wrapping_keeps_to_the_width(last, width, width);
        lemma_none_blank(lines);
        if paragraphs.len() > 1 {
            one_blank_line_between_paragraphs(less);
            let before = body_lines_of(less);
            let blank = seq![Seq::<char>::empty()];
            assert(before + blank =~= before.push(Seq::empty()));
            reveal_with_fuel(Seq::filter, 2);
            assert(blank.drop_last() =~= Seq::<Seq<char>>::empty());
            assert(blank.filter(is_blank).len() == 1);
            Seq::filter_distributes_over_add(before, blank, is_blank);
            Seq::filter_distributes_over_add(before.push(Seq::empty()), lines, is_blank);
        }
    }
}

proof fn lemma_none_blank(lines: Seq<Seq<char>>)
    requires
        forall|k: int| 0 <= k < lines.len() ==> (#[trigger] lines[k]).len() > 0,
    ensures
        blank_lines(lines) == 0,
    decreases lines.len(),
{
    reveal(Seq::filter);
    if lines.len() > 0 {
        let less = lines.drop_last();
        assert forall|k: int| 0 <= k < less.len() implies (#[trigger] less[k]).len() > 0 by {
            assert(less[k] == lines[k]);
        }
        lemma_none_blank(less);
        assert(lines[lines.len() - 1].len() > 0);
    }
}

/// Every word of a body stands in its lines, in order, and no others; and one
/// blank line stands between each two of its paragraphs.
pub proof fn no_word_of_a_body_is_lost(body: Seq<char>)
    ensures
        words::words_of_lines(body_lines_of(paragraphs_of(body))) == words::words_of(body),
        words::words_of(body).len() > 0 ==> blank_lines(body_lines_of(paragraphs_of(body)))
            == paragraphs_of(body).len() - 1,
{
    paragraphs_keep_the_words(body);
    body_lines_keep_the_words(paragraphs_of(body));
    one_blank_line_between_paragraphs(paragraphs_of(body));
    if paragraphs_of(body).len() == 0 {
        assert(words::words_of_lines(paragraphs_of(body)).len() == 0);
    }
}

/// The message of a commit holds every word it is made from, in order: those of
/// the summary, of the body, and of the breaking-change note behind its heading.
pub proof fn no_word_of_a_commit_is_lost(params: CommitParams)
    ensures
        words::words_of(commit_message(params)) == words::words_of(summary_of(params))
            + words::words_of(params.body@) + (match params.breaking_change_note {
            Some(note) => seq!["BREAKING"@, "CHANGE:"@] + words::words_of(note@),
            None => Seq::empty(),
        }),
{
    reveal_strlit("\n\n");
    reveal_strlit("\n");
    let lines = body_lines_of(paragraphs_of(params.body@));
    let body = search::join(lines, "\n"@);
    let summary = summary_of(params);
    no_word_of_a_body_is_lost(params.body@);
    words::joining_keeps_the_words(lines, "\n"@);
    words::words_across(summary, "\n\n"@, body);
    let head = summary + "\n\n"@ + body;
    match params.breaking_change_note {
        Some(note) => {
            reveal_strlit("\n\nBREAKING CHANGE: ");
            reveal_strlit("\n    ");
            reveal_strlit("BREAKING");
            reveal_strlit("CHANGE:");
            let noted = note_lines_of(note@);
            let text = search::join(noted, "\n    "@);
            words::joining_keeps_the_words(noted, "\n    "@);
            words::wrapping_keeps_the_words(
                note@,
                NOTE_FIRST_WIDTH as nat,
                NOTE_REST_WIDTH as nat,
            );
            let one = seq![' '];
            let tail = "BREAKING"@ + one + ("CHANGE:"@ + one + text);
            words::words_across("CHANGE:"@, one, text);
            words::words_across("BREAKING"@, one, "CHANGE:"@ + one + text);
            words::words_across(head, "\n\n"@, tail);
            words::unbroken_text_is_one_word("BREAKING"@);
            words::unbroken_text_is_one_word("CHANGE:"@);
            assert("\n\nBREAKING CHANGE: "@ =~= "\n\n"@ + "BREAKING"@ + one + "CHANGE:"@ + one);
            assert(commit_message(params) =~= head + "\n\n"@ + tail);
            assert(words::words_of(commit_message(params)) =~= words::words_of(summary)
                + words::words_of(params.body@) + (seq!["BREAKING"@, "CHANGE:"@]
                + words::words_of(note@)));
        },
        None => {
            assert(commit_message(params) == head);
            assert(words::words_of(head) + Seq::<Seq<char>>::empty() =~= words::words_of(head));
        },
    }
}

/// A summary names the type of the commit first, its scope in parentheses right
/// behind, a breaking change by an exclamation mark, and ends with the
/// description behind a colon and a space. It holds nothing else.
pub proof fn summary_tells_the_commit(params: CommitParams)
    ensures
        search::starts_with(summary_of(params), params.commit_type@),
        params.scope matches Some(scope) ==> search::starts_with(
            summary_of(params),
            params.commit_type@ + seq!['('] + scope@ + seq![')'],
        ),
        search::ends_with(
            summary_of(params),
            seq![':', ' '] + description::lowered(params.description@),
        ),
        summary_of(params).len() == params.commit_type@.len() + (match params.scope {
            Some(scope) => scope@.len() + 2,
            None => 0,
        }) + (if params.breaking_change_note is Some {
            1int
        } else {
            0
        }) + 2 + description::lowered(params.description@).len(),
        params.breaking_change_note is Some ==> summary_of(params)[summary_of(params).len() - 3
            - description::lowered(params.description@).len()] == '!',
{
    reveal_strlit("(");
    reveal_strlit(")");
    reveal_strlit("!");
    reveal_strlit(": ");
    let summary = summary_of(params);
    let lowered = description::lowered(params.description@);
    assert(summary.take(params.commit_type@.len() as int) =~= params.commit_type@);
    assert(summary.skip(summary.len() - (2 + lowered.len())) =~= seq![':', ' '] + lowered);
    if let Some(scope) = params.scope {
        let named = params.commit_type@ + seq!['('] + scope@ + seq![')'];
        assert(summary.take(named.len() as int) =~= named);
    }
}

/// The message of a commit starts with its summary, which a blank line follows,
/// and ends with its breaking-change note where it has one.
pub proof fn message_starts_with_the_summary(params: CommitParams)
    ensures
        search::starts_with(commit_message(params), summary_of(params) + seq!['\n', '\n']),
        params.breaking_change_note is None ==> commit_message(params).skip(
            (summary_of(params).len() + 2) as int,
        ) == search::join(body_lines_of(paragraphs_of(params.body@)), "\n"@),
        params.breaking_change_note matches Some(note) ==> search::ends_with(
            commit_message(params),
            "\n\nBREAKING CHANGE: "@ + search::join(note_lines_of(note@), "\n    "@),
        ),
{
    reveal_strlit("\n\n");
    let message = commit_message(params);
    let head = summary_of(params) + seq!['\n', '\n'];
    assert(message.take(head.len() as int) =~= head);
    match params.breaking_change_note {
        Some(note) => {
            let tail = "\n\nBREAKING CHANGE: "@ + search::join(note_lines_of(note@), "\n    "@);
            assert(message.skip(message.len() - tail.len()) =~= tail);
        },
        None => {
            assert(message.skip(head.len() as int) =~= search::join(
                body_lines_of(paragraphs_of(params.body@)),
                "\n"@,
            ));
        },
    }
}

/// Each rule is reported where it is broken, and only there; and a commit is
/// refused exactly where one is.
pub proof fn every_broken_rule_is_reported(params: CommitParams)
    ensures
        broken_rules(params).contains(Violation::InvalidType(params.commit_type@))
            <==> !is_commit_type(params.commit_type@),
        broken_rules(params).contains(Violation::EmptyBody) <==> words::words_of(
            params.body@,
        ).len() == 0,
        broken_rules(params).contains(Violation::BreakingChangeInBody)
            <==> announces_breaking_change(paragraphs_of(params.body@)),
        (exists|i: int|
            0 <= i < broken_rules(params).len()
                && #[trigger] broken_rules(params)[i] is TooManyBodyLines) <==> body_lines_of(
            paragraphs_of(params.body@),
        ).len() > 12,
        (exists|i: int|
            0 <= i < broken_rules(params).len()
                && #[trigger] broken_rules(params)[i] is TooManyBreakingChangeLines) <==> (
        params.breaking_change_note matches Some(note) && note_lines_of(note@).len() > 4),
        (exists|i: int|
            0 <= i < broken_rules(params).len() && #[trigger] broken_rules(params)[i] is LongSummary)
            <==> summary_of(params).len() > 50,
        broken_rules(params).len() == 0 <==> is_commit_type(params.commit_type@) && words::words_of(
            params.body@,
        ).len() > 0 && !announces_breaking_change(paragraphs_of(params.body@)) && body_lines_of(
            paragraphs_of(params.body@),
        ).len() <= 12 && (params.breaking_change_note matches Some(note) ==> note_lines_of(
            note@,
        ).len() <= 4) && summary_of(params).len() <= 50,
{
    let rules = broken_rules(params);
    let paragraphs = paragraphs_of(params.body@);
    let lines = body_lines_of(paragraphs);
    no_word_of_a_body_is_lost(params.body@);
    paragraphs_keep_the_words(params.body@);
    lemma_paragraphs_have_words(search::split_on(params.body@, "\n\n"@));
    if paragraphs.len() > 0 {
        assert(words::words_of(paragraphs[0]).len() > 0);
    } else {
        assert(words::words_of_lines(paragraphs).len() == 0);
    }
    let a = violation_if(
        !is_commit_type(params.commit_type@),
        Violation::InvalidType(params.commit_type@),
    );
    let b = violation_if(paragraphs.len() == 0, Violation::EmptyBody);
    let c = violation_if(announces_breaking_change(paragraphs), Violation::BreakingChangeInBody);
    let d = violation_if(
        lines.len() > MAX_BODY_LINES,
        (Violation::TooManyBodyLines {
            lines: lines.len(),
            words: total_words(paragraphs),
            paragraphs: paragraphs.len(),
        }),
    );
    let e = note_violations(params);
    let f = summary_violations(params);
    assert(rules == a + b + c + d + e + f);
    if a.len() > 0 {
        assert(rules[0] == a[0]);
    }
    if b.len() > 0 {
        assert(rules[a.len() as int] == b[0]);
    }
    if c.len() > 0 {
        assert(rules[(a.len() + b.len()) as int] == c[0]);
    }
    if d.len() > 0 {
        assert(rules[(a.len() + b.len() + c.len()) as int] == d[0]);
    }
    if e.len() > 0 {
        assert(rules[(a.len() + b.len() + c.len() + d.len()) as int] == e[0]);
    }
    if f.len() > 0 {
        assert(rules[(a.len() + b.len() + c.len() + d.len() + e.len()) as int] == f[0]);
    }
}

proof fn lemma_paragraphs_have_words(pieces: Seq<Seq<char>>)
    ensures
        forall|i: int|
            0 <= i < trimmed_pieces(pieces).len() ==> words::words_of(
                #[trigger] trimmed_pieces(pieces)[i],
            ).len() > 0,
        trimmed_pieces(pieces).len() > 0 ==> words::words_of_lines(trimmed_pieces(pieces)).len()
            > 0,
    decreases pieces.len(),
{
    let all = trimmed_pieces(pieces);
    if pieces.len() > 0 {
        let last = words::trim(pieces.last());
        lemma_paragraphs_have_words(pieces.drop_last());
        lemma_trim_blank(pieces.last());
        words::trimming_keeps_the_words(pieces.last());
        assert forall|i: int| 0 <= i < all.len() implies words::words_of(#[trigger] all[i]).len()
            > 0 by {
            if i < trimmed_pieces(pieces.drop_last()).len() {
                assert(all[i] == trimmed_pieces(pieces.drop_last())[i]);
            }
        }
        if all.len() > 0 {
            assert(words::words_of(all[0]).len() > 0);
        }
    }
}

/// A paragraph is wrapped to lines of 72 characters and a note to 54 on its first
/// line and 68 on the others: no line is longer unless it is a single word, and a
/// line ends only where the next word would not fit.
pub proof fn lines_are_filled_to_the_width(paragraph: Seq<char>, note: Seq<char>)
    ensures
        ({
            let lines = body_lines_of(seq![paragraph]);
            &&& forall|k: int|
                0 <= k < lines.len() ==> (#[trigger] lines[k]).len() <= 72 || words::is_word(
                    lines[k],
                )
            &&& forall|k: int|
                0 <= k < lines.len() - 1 ==> (#[trigger] lines[k]).len() + 1 + words::word_len(
                    lines[k + 1],
                ) > 72
        }),
        ({
            let lines = note_lines_of(note);
            &&& lines.len() > 0 ==> lines[0].len() <= 54 || words::is_word(lines[0])
            &&& lines.len() > 1 ==> lines[0].len() + 1 + words::word_len(lines[1]) > 54
            &&& forall|k: int|
                0 < k < lines.len() ==> (#[trigger] lines[k]).len() <= 68 || words::is_word(
                    lines[k],
                )
            &&& forall|k: int|
                0 < k < lines.len() - 1 ==> (#[trigger] lines[k]).len() + 1 + words::word_len(
                    lines[k + 1],
                ) > 68
        }),
{
    words::wrapping_keeps_to_the_width(paragraph, 72, 72);
    words::wrapping_is_greedy(paragraph, 72, 72);
    words::wrapping_keeps_to_the_width(note, 54, 68);
    words::wrapping_is_greedy(note, 54, 68);
    assert(body_lines_of(seq![paragraph]) == words::wrapped_lines(paragraph, 72, 72));
}

/// Where a rule stands among those that are reported.
pub open spec fn rank(violation: Violation) -> int {
    match violation {
        Violation::InvalidType(_) => 0,
        Violation::EmptyBody => 1,
        Violation::BreakingChangeInBody => 2,
        Violation::TooManyBodyLines { .. } => 3,
        Violation::TooManyBreakingChangeLines { .. } => 4,
        Violation::LongSummary(_) => 5,
    }
}

/// Whether a violation carries what was measured of a commit.
pub open spec fn is_measured(params: CommitParams, violation: Violation) -> bool {
    match violation {
        Violation::InvalidType(commit_type) => commit_type == params.commit_type@,
        Violation::TooManyBodyLines { lines, words, paragraphs } => lines == body_lines_of(
            paragraphs_of(params.body@),
        ).len() && words == words::words_of(params.body@).len() && paragraphs == paragraphs_of(
            params.body@,
        ).len(),
        Violation::TooManyBreakingChangeLines { lines, words } => (
        params.breaking_change_note matches Some(note) && lines == note_lines_of(note@).len()
            && words == words::words_of(note@).len()),
        Violation::LongSummary(length) => length == summary_of(params).len(),
        _ => true,
    }
}

spec fn is_in_order(params: CommitParams, broken: Seq<Violation>, end: int) -> bool {
    &&& forall|i: int, k: int|
        0 <= i < k < broken.len() ==> rank(#[trigger] broken[i]) < rank(#[trigger] broken[k])
    &&& forall|i: int|
        0 <= i < broken.len() ==> rank(#[trigger] broken[i]) < end && is_measured(params, broken[i])
}

proof fn lemma_one_more(
    params: CommitParams,
    before: Seq<Violation>,
    broken: bool,
    violation: Violation,
)
    requires
        is_in_order(params, before, rank(violation)),
        broken ==> is_measured(params, violation),
    ensures
        is_in_order(params, before + violation_if(broken, violation), rank(violation) + 1),
{
    let all = before + violation_if(broken, violation);
    assert forall|i: int| 0 <= i < all.len() implies rank(#[trigger] all[i]) < rank(violation) + 1
        && is_measured(params, all[i]) by {
        if i < before.len() {
            assert(all[i] == before[i]);
        }
    }
    assert forall|i: int, k: int| 0 <= i < k < all.len() implies rank(#[trigger] all[i]) < rank(
        #[trigger] all[k],
    ) by {
        assert(all[i] == before[i]);
        if k < before.len() {
            assert(all[k] == before[k]);
        }
    }
}

/// Broken rules are reported once each, those of the type first, then those of the
/// body, of the note, and of the summary; and each with what was measured.
pub proof fn rules_are_reported_in_order(params: CommitParams)
    ensures
        forall|i: int, k: int|
            0 <= i < k < broken_rules(params).len() ==> rank(#[trigger] broken_rules(params)[i])
                < rank(#[trigger] broken_rules(params)[k]),
        forall|i: int|
            0 <= i < broken_rules(params).len() ==> is_measured(
                params,
                #[trigger] broken_rules(params)[i],
            ),
{
    splitting_keeps_the_number_of_words(params.body@);
    let none = Seq::<Violation>::empty();
    let paragraphs = paragraphs_of(params.body@);
    let lines = body_lines_of(paragraphs);
    let invalid = Violation::InvalidType(params.commit_type@);
    let many = Violation::TooManyBodyLines {
        lines: lines.len(),
        words: total_words(paragraphs),
        paragraphs: paragraphs.len(),
    };
    let unknown = !is_commit_type(params.commit_type@);
    let announced = announces_breaking_change(paragraphs);
    let first = none + violation_if(unknown, invalid);
    lemma_one_more(params, none, unknown, invalid);
    let second = first + violation_if(paragraphs.len() == 0, Violation::EmptyBody);
    lemma_one_more(params, first, paragraphs.len() == 0, Violation::EmptyBody);
    let third = second + violation_if(announced, Violation::BreakingChangeInBody);
    lemma_one_more(params, second, announced, Violation::BreakingChangeInBody);
    let fourth = third + violation_if(lines.len() > MAX_BODY_LINES, many);
    lemma_one_more(params, third, lines.len() > MAX_BODY_LINES, many);
    assert(first =~= violation_if(unknown, invalid));
    assert(fourth == body_violations(params));
    let fifth = fourth + note_violations(params);
    match params.breaking_change_note {
        Some(note) => {
            let noted = note_lines_of(note@);
            lemma_one_more(
                params,
                fourth,
                noted.len() > MAX_NOTE_LINES,
                (Violation::TooManyBreakingChangeLines {
                    lines: noted.len(),
                    words: words::words_of(note@).len(),
                }),
            );
        },
        None => {
            assert(fifth =~= fourth);
        },
    }
    assert(is_in_order(params, fifth, 5));
    let summary = summary_of(params);
    lemma_one_more(
        params,
        fifth,
        summary.len() > MAX_SUMMARY,
        Violation::LongSummary(summary.len()),
    );
}

/// A violation tells what was measured.
pub proof fn violations_tell_their_measure(violation: Violation)
    ensures
        match violation {
            Violation::InvalidType(commit_type) => search::ends_with(
                violation_text(violation),
                commit_type,
            ),
            Violation::LongSummary(length) => search::starts_with(
                violation_text(violation),
                "commit summary is "@ + number::decimal(length),
            ),
            Violation::TooManyBodyLines { lines, words, paragraphs } => search::starts_with(
                violation_text(violation),
                "commit body wraps to "@ + number::decimal(lines) + " lines ("@ + number::decimal(
                    words,
                ) + " words across "@ + number::decimal(paragraphs) + " paragraph(s))"@,
            ),
            Violation::TooManyBreakingChangeLines { lines, words } => search::starts_with(
                violation_text(violation),
                "breaking change note wraps to "@ + number::decimal(lines) + " lines ("@
                    + number::decimal(words) + " words)"@,
            ),
            _ => true,
        },
{
    let text = violation_text(violation);
    match violation {
        Violation::InvalidType(commit_type) => {
            assert(text.skip(text.len() - commit_type.len()) =~= commit_type);
        },
        Violation::LongSummary(length) => {
            let head = "commit summary is "@ + number::decimal(length);
            assert(text.take(head.len() as int) =~= head);
        },
        Violation::TooManyBodyLines { lines, words, paragraphs } => {
            reveal_strlit(" paragraph(s))");
            reveal_strlit(" paragraph(s)) and is longer than 12 lines — shorten the paragraphs");
            let head = "commit body wraps to "@ + number::decimal(lines) + " lines ("@
                + number::decimal(words) + " words across "@ + number::decimal(paragraphs)
                + " paragraph(s))"@;
            assert(text.take(head.len() as int) =~= head);
        },
        Violation::TooManyBreakingChangeLines { lines, words } => {
            reveal_strlit(" words)");
            reveal_strlit(" words) and is longer than 4 lines — shorten the note");
            let head = "breaking change note wraps to "@ + number::decimal(lines) + " lines ("@
                + number::decimal(words) + " words)"@;
            assert(text.take(head.len() as int) =~= head);
        },
        _ => {},
    }
}

/// A refusal lists every broken rule, each on a line of its own behind a dash.
pub proof fn refusals_list_every_rule(broken: Seq<Violation>, violation: Violation)
    ensures
        rejection(Seq::empty()).len() == 0,
        rejection(seq![violation]) == seq!['-', ' '] + violation_text(violation),
        broken.len() > 0 ==> rejection(broken.push(violation)) == rejection(broken) + seq!['\n']
            + (seq!['-', ' '] + violation_text(violation)),
{
    reveal_strlit("- ");
    reveal_strlit("\n");
    let item = "- "@ + violation_text(violation);
    let none = Seq::<Violation>::empty();
    let texts = Seq::new(broken.len(), |i: int| "- "@ + violation_text(broken[i]));
    let more = broken.push(violation);
    assert(Seq::new(none.len(), |i: int| "- "@ + violation_text(none[i])) =~= Seq::empty());
    let one = seq![violation];
    assert(Seq::new(one.len(), |i: int| "- "@ + violation_text(one[i])) =~= seq![item]);
    assert(Seq::new(more.len(), |i: int| "- "@ + violation_text(more[i])) =~= texts.push(item));
    search::joining_adds_part_by_part(texts, item, "\n"@);
    assert("- "@ =~= seq!['-', ' ']);
    assert("\n"@ =~= seq!['\n']);
}

/// A commit has one outcome: its message where no rule is broken, and every
/// broken rule where one is.
pub proof fn a_commit_has_one_outcome(
    params: CommitParams,
    result: Result<String, Vec<CommitMessageError>>,
)
    requires
        is_outcome(params, result),
    ensures
        result is Ok <==> broken_rules(params).len() == 0,
        result matches Ok(text) ==> text@ == commit_message(params),
        result matches Err(errors) ==> errors@.len() == broken_rules(params).len() && forall|i: int|
            0 <= i < errors@.len() ==> (#[trigger] errors@[i])@ == broken_rules(params)[i],
{
    if let Err(errors) = result {
        assert forall|i: int| 0 <= i < errors@.len() implies (#[trigger] errors@[i])@
            == broken_rules(params)[i] by {
            assert(violations(errors@)[i] == errors@[i]@);
        }
    }
}

/// The types of a commit are those of the convention.
pub proof fn types_are_those_of_the_convention(commit_type: Seq<char>)
    ensures
        is_commit_type("build"@) && is_commit_type("chore"@) && is_commit_type("ci"@)
            && is_commit_type("docs"@) && is_commit_type("feat"@) && is_commit_type("fix"@)
            && is_commit_type("refactor"@) && is_commit_type("style"@) && is_commit_type("test"@),
        is_commit_type(commit_type) ==> 2 <= commit_type.len() <= 8,
{
    reveal_strlit("build");
    reveal_strlit("chore");
    reveal_strlit("ci");
    reveal_strlit("docs");
    reveal_strlit("feat");
    reveal_strlit("fix");
    reveal_strlit("refactor");
    reveal_strlit("style");
    reveal_strlit("test");
}

} // verus!
