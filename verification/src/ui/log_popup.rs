//! What the log popup shows.

use ansi_to_tui::IntoText;
use ratatui::prelude::Style;
use vstd::prelude::*;

use crate::markdown;
use crate::markdown::StyledSpan;
use crate::ui::popups::NO_LOG_OUTPUT;

verus! {

/// The lines that a text with escape sequences stands for, where it can be
/// read.
pub uninterp spec fn ansi_lines(line: Seq<char>) -> Option<Seq<Seq<(Seq<char>, Style)>>>;

/// Reads the escape sequences of a text. The spans of the lines that
/// `ansi_to_tui::IntoText::into_text` makes of its bytes, or that it fails, are
/// a function of the text alone.
#[verifier::external_body]
fn read_ansi(line: &str) -> (lines: Option<Vec<Vec<StyledSpan>>>)
    ensures
        match lines {
            Some(lines) => ansi_lines(line@) == Some(markdown::rendered_views(lines@)),
            None => ansi_lines(line@) is None,
        },
{
    let text = line.as_bytes().to_vec().into_text().ok()?;
    Some(
        text.lines.into_iter().map(
            |line|
                line.spans.into_iter().map(
                    |span| StyledSpan { content: span.content.into_owned(), style: span.style },
                ).collect(),
        ).collect(),
    )
}

/// A logged line as it is shown.
#[derive(Debug)]
pub enum LogLine {
    /// The lines that its escape sequences make of it.
    Parsed(Vec<Vec<StyledSpan>>),
    /// The text as it is.
    Raw(String),
}

/// Whether a logged line is shown as it should be: by its escape sequences
/// where they can be read, as it is elsewhere.
pub open spec fn is_shown(line: Seq<char>, shown: LogLine) -> bool {
    match ansi_lines(line) {
        Some(lines) => shown matches LogLine::Parsed(parsed) && markdown::rendered_views(parsed@)
            == lines,
        None => shown matches LogLine::Raw(text) && text@ == line,
    }
}

/// How a logged line is shown, from what its escape sequences were read as.
pub fn shown_line(line: &str, parsed: Option<Vec<Vec<StyledSpan>>>) -> (shown: LogLine)
    ensures
        match parsed {
            Some(lines) => shown == LogLine::Parsed(lines),
            None => shown matches LogLine::Raw(text) && text@ == line@,
        },
{
    match parsed {
        Some(lines) => LogLine::Parsed(lines),
        None => LogLine::Raw(line.to_owned()),
    }
}

/// What the log popup shows of the logged lines: each of them, and a notice
/// where there is none.
pub fn log_lines(lines: &Vec<String>) -> (shown: Vec<LogLine>)
    ensures
        lines@.len() == 0 ==> shown@.len() == 1 && (shown@[0] matches LogLine::Raw(text) && text@
            == NO_LOG_OUTPUT@),
        lines@.len() > 0 ==> shown@.len() == lines@.len() && forall|i: int|
            0 <= i < lines@.len() ==> is_shown(lines@[i]@, #[trigger] shown@[i]),
{
    let mut shown: Vec<LogLine> = Vec::new();
    if lines.len() == 0 {
        shown.push(LogLine::Raw(NO_LOG_OUTPUT.to_owned()));
        return shown;
    }
    let mut i: usize = 0;
    while i < lines.len()
        invariant
            i <= lines@.len(),
            shown@.len() == i,
            forall|k: int| 0 <= k < i ==> is_shown(lines@[k]@, #[trigger] shown@[k]),
        decreases lines@.len() - i,
    {
        let line = lines[i].as_str();
        let parsed = read_ansi(line);
        shown.push(shown_line(line, parsed));
        i = i + 1;
    }
    shown
}

} // verus!
