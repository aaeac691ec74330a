//! Lines of text.

use vstd::prelude::*;
use super::chars;

use super::chars::{chars_of, text_of};

verus! {

/// How many characters stand before the first line feed.
pub open spec fn line_len(text: Seq<char>) -> nat
    decreases text.len(),
{
    if text.len() == 0 || text[0] == '\n' {
        0
    } else {
        1 + line_len(text.skip(1))
    }
}

/// A line without the carriage return that stood before its line feed.
pub open spec fn without_return(line: Seq<char>) -> Seq<char> {
    if line.len() > 0 && line.last() == '\r' {
        line.drop_last()
    } else {
        line
    }
}

/// The lines of a text. A line ends at a line feed, with or without a carriage
/// return before it, and the last line's ending is optional.
pub open spec fn lines_of(text: Seq<char>) -> Seq<Seq<char>>
    decreases text.len(),
{
    let len = line_len(text) as int;
    if text.len() == 0 {
        Seq::empty()
    } else if len >= text.len() {
        seq![text]
    } else {
        seq![without_return(text.take(len))] + lines_of(text.skip(len + 1))
    }
}

/// A line is no longer than the text it starts, and ends at a line feed.
pub proof fn lemma_line_len(text: Seq<char>)
    ensures
        line_len(text) <= text.len(),
        line_len(text) < text.len() ==> text[line_len(text) as int] == '\n',
        forall|i: int| 0 <= i < line_len(text) ==> #[trigger] text[i] != '\n',
    decreases text.len(),
{
    if text.len() > 0 && text[0] != '\n' {
        let rest = text.skip(1);
        lemma_line_len(rest);
        assert forall|i: int| 0 <= i < line_len(text) implies #[trigger] text[i] != '\n' by {
            if i > 0 {
                assert(text[i] == rest[i - 1]);
            }
        }
    }
}

/// No line holds a line feed.
pub proof fn lemma_lines_hold_no_line_feed(text: Seq<char>)
    ensures
        forall|k: int| 0 <= k < lines_of(text).len() ==> !(#[trigger] lines_of(text)[k]).contains('\n'),
    decreases text.len(),
{
    lemma_line_len(text);
    let len = line_len(text) as int;
    if text.len() > 0 && len < text.len() {
        lemma_lines_hold_no_line_feed(text.skip(len + 1));
        assert forall|k: int| 0 <= k < lines_of(text).len() implies !(
        #[trigger] lines_of(text)[k]).contains('\n') by {
            if k > 0 {
                assert(lines_of(text)[k] == lines_of(text.skip(len + 1))[k - 1]);
            } else {
                assert(lines_of(text)[0] == without_return(text.take(len)));
            }
        }
    } else if text.len() > 0 {
        assert(lines_of(text) == seq![text]);
    } else {
        assert(lines_of(text).len() == 0);
    }
}

/// Splits a text into its lines.
pub fn lines(text: &str) -> (lines: Vec<String>)
    ensures
        chars::texts(lines@) == lines_of(text@),
{
    let chars = chars_of(text);
    let ghost all = chars@;
    let mut out: Vec<String> = Vec::new();
    let mut i: usize = 0;
    assert(all.skip(0) =~= all);
    assert(chars::texts(out@) + lines_of(all) =~= lines_of(all));
    while i < chars.len()
        invariant
            chars@ == all,
            i <= chars.len(),
            chars::texts(out@) + lines_of(all.skip(i as int)) == lines_of(all),
        decreases chars.len() - i,
    {
        let ghost rest = all.skip(i as int);
        let mut j: usize = i;
        while j < chars.len() && chars[j] != '\n'
            invariant
                chars@ == all,
                i <= j <= chars.len(),
                rest == all.skip(i as int),
                line_len(rest) == (j - i) + line_len(all.skip(j as int)),
            decreases chars.len() - j,
        {
            assert(all.skip(j as int).skip(1) =~= all.skip(j + 1));
            j = j + 1;
        }
        assert(line_len(all.skip(j as int)) == 0);
        let ghost line = rest.take(j - i);
        let end: usize = if j < chars.len() && j > i && chars[j - 1] == '\r' {
            j - 1
        } else {
            j
        };
        let piece = text_of(&chars, i, end);
        if j < chars.len() {
            assert(piece@ =~= without_return(line));
            assert(rest.skip(j - i + 1) =~= all.skip(j + 1));
            proof {
                chars::lemma_texts_push(out@, piece);
                let after = lines_of(all.skip(j + 1));
                assert(chars::texts(out@).push(piece@) + after =~= chars::texts(out@) + (seq![piece@] + after));
            }
            out.push(piece);
            i = j + 1;
        } else {
            assert(piece@ =~= rest);
            proof {
                chars::lemma_texts_push(out@, piece);
                assert(chars::texts(out@) + seq![rest] =~= chars::texts(out@).push(rest));
                assert(all.skip(j as int) =~= Seq::<char>::empty());
                assert(chars::texts(out@).push(rest) + Seq::<Seq<char>>::empty() =~= chars::texts(out@).push(rest));
            }
            out.push(piece);
            i = j;
        }
    }
    assert(all.skip(all.len() as int) =~= Seq::<char>::empty());
    assert(chars::texts(out@) + Seq::<Seq<char>>::empty() =~= chars::texts(out@));
    out
}

/// The first line of a text, empty where the text is.
pub open spec fn first_line_of(text: Seq<char>) -> Seq<char> {
    if lines_of(text).len() == 0 {
        Seq::empty()
    } else {
        lines_of(text)[0]
    }
}

/// The first line of a text, or an empty one.
pub fn first_line(text: &str) -> (line: String)
    ensures
        line@ == first_line_of(text@),
{
    let lines = lines(text);
    assert(chars::texts(lines@).len() == lines@.len());
    if lines.len() == 0 {
        String::new()
    } else {
        assert(chars::texts(lines@)[0] == lines@[0]@);
        lines[0].clone()
    }
}

proof fn lemma_line_stops(line: Seq<char>, rest: Seq<char>)
    requires
        !line.contains('\n'),
    ensures
        line_len(line) == line.len(),
        line_len(line + seq!['\n'] + rest) == line.len(),
    decreases line.len(),
{
    let text = line + seq!['\n'] + rest;
    if line.len() > 0 {
        assert(line[0] != '\n') by {
            if line[0] == '\n' {
                assert(line.contains('\n'));
            }
        }
        assert(text[0] == line[0]);
        assert(text.skip(1) =~= line.skip(1) + seq!['\n'] + rest);
        assert(!line.skip(1).contains('\n')) by {
            if line.skip(1).contains('\n') {
                let i = choose|i: int| 0 <= i < line.skip(1).len() && line.skip(1)[i] == '\n';
                assert(line[i + 1] == '\n');
            }
        }
        lemma_line_stops(line.skip(1), rest);
    }
}

/// A line ends at its line feed, and the lines behind it are those of the rest.
/// What holds no line feed is one line, and nothing is none.
pub proof fn lines_end_at_line_feeds(line: Seq<char>, rest: Seq<char>)
    requires
        !line.contains('\n'),
    ensures
        lines_of(Seq::empty()).len() == 0,
        line.len() > 0 ==> lines_of(line) == seq![line],
        line.len() == 0 || line.last() != '\r' ==> lines_of(line + seq!['\n'] + rest) == seq![line]
            + lines_of(rest),
        lines_of(line.push('\r') + seq!['\n'] + rest) == seq![line] + lines_of(rest),
        line.len() == 0 || line.last() != '\r' ==> first_line_of(line + seq!['\n'] + rest) == line,
{
    let text = line + seq!['\n'] + rest;
    lemma_line_stops(line, rest);
    assert(text.take(line.len() as int) =~= line);
    assert(text.skip(line.len() + 1int) =~= rest);
    let returned = line.push('\r');
    assert(!returned.contains('\n')) by {
        if returned.contains('\n') {
            let i = choose|i: int| 0 <= i < returned.len() && returned[i] == '\n';
            assert(line[i] == '\n');
        }
    }
    let other = returned + seq!['\n'] + rest;
    lemma_line_stops(returned, rest);
    assert(other.take(returned.len() as int) =~= returned);
    assert(other.skip(returned.len() + 1int) =~= rest);
    assert(returned.drop_last() =~= line);
}

} // verus!
