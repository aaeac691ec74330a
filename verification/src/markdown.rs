//! Markdown rendering shared by bubble layout and presentation.

use ratatui::prelude::Style;
use vstd::prelude::*;

use crate::text::chars;
use crate::text::chars::{chars_of, text_of};
use crate::text::lines;
use crate::text::search;
use crate::text::search::text_starts_with;
use crate::text::words;
use crate::text::words::trimmed_start;

verus! {

/// A text whose lines end with a line feed alone.
pub open spec fn with_line_feeds(text: Seq<char>) -> Seq<char>
    decreases text.len(),
{
    if text.len() == 0 {
        Seq::empty()
    } else if text[0] == '\r' && text.len() > 1 && text[1] == '\n' {
        with_line_feeds(text.skip(1))
    } else {
        seq![text[0]] + with_line_feeds(text.skip(1))
    }
}

/// Whether a line opens or closes a code block.
pub open spec fn is_fence(line: Seq<char>) -> bool {
    search::starts_with(words::trim_start(line), "```"@) || search::starts_with(
        words::trim_start(line),
        "~~~"@,
    )
}

/// A line that is not the last, with what ends it: a hard break where it is
/// prose.
pub open spec fn broken_line(line: Seq<char>, in_code: bool) -> Seq<char> {
    if !in_code && !is_fence(line) && line.len() > 0 {
        lines::without_return(line) + "  \n"@
    } else {
        line.push('\n')
    }
}

/// A text with a hard break behind each line of prose that is not its last.
pub open spec fn with_hard_breaks(text: Seq<char>, in_code_block: bool) -> Seq<char>
    decreases text.len(),
{
    let len = lines::line_len(text) as int;
    if text.len() == 0 {
        Seq::empty()
    } else {
        let line = text.take(len);
        let in_code = if is_fence(line) {
            !in_code_block
        } else {
            in_code_block
        };
        if len >= text.len() {
            text
        } else {
            broken_line(line, in_code) + with_hard_breaks(text.skip(len + 1), in_code)
        }
    }
}

fn unify_line_ends(text: &str) -> (unified: String)
    ensures
        unified@ == with_line_feeds(text@),
{
    let chars = chars_of(text);
    let ghost all = chars@;
    let mut unified = String::new();
    let mut i: usize = 0;
    assert(all.skip(0) =~= all);
    assert(unified@ + with_line_feeds(all) =~= with_line_feeds(all));
    while i < chars.len()
        invariant
            chars@ == all,
            i <= chars@.len(),
            unified@ + with_line_feeds(all.skip(i as int)) == with_line_feeds(all),
        decreases chars@.len() - i,
    {
        let ghost rest = all.skip(i as int);
        assert(rest.skip(1) =~= all.skip(i + 1));
        assert(rest[0] == all[i as int]);
        let is_return = chars[i] == '\r' && i < chars.len() - 1 && chars[i + 1] == '\n';
        assert(is_return <==> rest[0] == '\r' && rest.len() > 1 && rest[1] == '\n');
        if !is_return {
            let ghost before = unified@;
            unified.push(chars[i]);
            assert(unified@ + with_line_feeds(rest.skip(1)) =~= before + (seq![rest[0]]
                + with_line_feeds(rest.skip(1))));
        }
        i = i + 1;
    }
    assert(all.skip(all.len() as int) =~= Seq::<char>::empty());
    assert(unified@ + Seq::<char>::empty() =~= unified@);
    unified
}

fn line_is_fence(line: &str) -> (fence: bool)
    ensures
        fence == is_fence(line@),
{
    let start = trimmed_start(line);
    text_starts_with(start.as_str(), "```") || text_starts_with(start.as_str(), "~~~")
}

fn line_end(chars: &Vec<char>, from: usize) -> (end: usize)
    requires
        from <= chars@.len(),
    ensures
        end == from + lines::line_len(chars@.skip(from as int)),
        end <= chars@.len(),
{
    let mut end: usize = from;
    let ghost rest = chars@.skip(from as int);
    while end < chars.len() && chars[end] != '\n'
        invariant
            from <= end <= chars@.len(),
            rest == chars@.skip(from as int),
            end - from + lines::line_len(chars@.skip(end as int)) == lines::line_len(rest),
        decreases chars@.len() - end,
    {
        assert(chars@.skip(end as int).skip(1) =~= chars@.skip(end + 1));
        end = end + 1;
    }
    end
}

fn break_line(line: &str, in_code: bool) -> (broken: String)
    ensures
        broken@ == broken_line(line@, in_code),
{
    let chars = chars_of(line);
    let len: usize = chars.len();
    let mut broken;
    if !in_code && !line_is_fence(line) && len > 0 {
        let cut: usize = if chars[len - 1] == '\r' {
            len - 1
        } else {
            len
        };
        assert(chars@.subrange(0, cut as int) =~= lines::without_return(line@));
        broken = text_of(&chars, 0, cut);
        broken.append("  \n");
    } else {
        broken = line.to_owned();
        broken.push('\n');
    }
    broken
}

/// Marks the line breaks of prose, so that they are kept where Markdown is
/// rendered. Code blocks are left as they are.
pub fn preserve_line_breaks(text: &str) -> (rendered: String)
    ensures
        rendered@ == with_hard_breaks(with_line_feeds(text@), false),
{
    let unified = unify_line_ends(text);
    let chars = chars_of(unified.as_str());
    let ghost all = chars@;
    let mut rendered = String::new();
    let mut in_code_block = false;
    let mut i: usize = 0;
    assert(all.skip(0) =~= all);
    assert(rendered@ + with_hard_breaks(all, false) =~= with_hard_breaks(all, false));
    while i < chars.len()
        invariant
            chars@ == all,
            i <= chars@.len(),
            rendered@ + with_hard_breaks(all.skip(i as int), in_code_block) == with_hard_breaks(
                all,
                false,
            ),
        decreases chars@.len() - i,
    {
        let ghost rest = all.skip(i as int);
        let ghost before = rendered@;
        let end: usize = line_end(&chars, i);
        let ghost len = end - i;
        proof {
            lines::lemma_line_len(rest);
            assert(all.subrange(i as int, end as int) =~= rest.take(len));
        }
        let line = text_of(&chars, i, end);
        if line_is_fence(line.as_str()) {
            in_code_block = !in_code_block;
        }
        if end < chars.len() {
            assert(rest.skip(len + 1) =~= all.skip(end + 1));
            let ghost then = with_hard_breaks(rest.skip(len + 1), in_code_block);
            let broken = break_line(line.as_str(), in_code_block);
            rendered.append(broken.as_str());
            assert(rendered@ + then =~= before + (broken@ + then));
            i = end + 1;
        } else {
            rendered.append(line.as_str());
            assert(line@ =~= rest);
            i = end;
            assert(all.skip(end as int) =~= Seq::<char>::empty());
            assert(rendered@ + Seq::<char>::empty() =~= before + rest);
        }
    }
    assert(all.skip(all.len() as int) =~= Seq::<char>::empty());
    assert(rendered@ + Seq::<char>::empty() =~= rendered@);
    rendered
}

/// The style of a terminal's text, as it is drawn with.
#[verifier::external_type_specification]
#[verifier::external_body]
pub struct ExStyle(ratatui::prelude::Style);

/// A piece of rendered text in one style.
#[derive(Debug)]
pub struct StyledSpan {
    pub content: String,
    pub style: Style,
}

/// The pieces of a line as texts.
pub open spec fn span_views(spans: Seq<StyledSpan>) -> Seq<(Seq<char>, Style)> {
    Seq::new(spans.len(), |i: int| (spans[i].content@, spans[i].style))
}

/// Rendered lines as texts.
pub open spec fn rendered_views(lines: Seq<Vec<StyledSpan>>) -> Seq<Seq<(Seq<char>, Style)>> {
    Seq::new(lines.len(), |i: int| span_views(lines[i]@))
}

/// The lines that Markdown is rendered as.
pub uninterp spec fn markdown_lines(markdown: Seq<char>) -> Seq<Seq<(Seq<char>, Style)>>;

/// Renders Markdown. The spans of the lines that `tui_markdown::from_str`
/// makes of it are a function of the text alone.
#[verifier::external_body]
fn render_markdown(markdown: &str) -> (lines: Vec<Vec<StyledSpan>>)
    ensures
        rendered_views(lines@) == markdown_lines(markdown@),
{
    tui_markdown::from_str(markdown).lines.into_iter().map(
        |line|
            line.spans.into_iter().map(
                |span| StyledSpan { content: span.content.into_owned(), style: span.style },
            ).collect(),
    ).collect()
}

/// Renders Markdown, its line breaks kept.
pub fn render(text: &str) -> (lines: Vec<Vec<StyledSpan>>)
    ensures
        rendered_views(lines@) == markdown_lines(with_hard_breaks(with_line_feeds(text@), false)),
{
    let rendered = preserve_line_breaks(text);
    render_markdown(rendered.as_str())
}

/// How many line feeds a text holds.
pub open spec fn line_feeds(text: Seq<char>) -> nat
    decreases text.len(),
{
    if text.len() == 0 {
        0
    } else {
        line_feeds(text.drop_last()) + (if text.last() == '\n' {
            1nat
        } else {
            0nat
        })
    }
}

proof fn lemma_line_feeds_add_up(first: Seq<char>, second: Seq<char>)
    ensures
        line_feeds(first + second) == line_feeds(first) + line_feeds(second),
    decreases second.len(),
{
    if second.len() == 0 {
        assert(first + second =~= first);
    } else {
        lemma_line_feeds_add_up(first, second.drop_last());
        assert((first + second).drop_last() =~= first + second.drop_last());
        assert((first + second).last() == second.last());
    }
}

proof fn lemma_no_line_feeds(text: Seq<char>)
    requires
        forall|i: int| 0 <= i < text.len() ==> #[trigger] text[i] != '\n',
    ensures
        line_feeds(text) == 0,
    decreases text.len(),
{
    if text.len() > 0 {
        let less = text.drop_last();
        assert forall|i: int| 0 <= i < less.len() implies #[trigger] less[i] != '\n' by {
            assert(less[i] == text[i]);
        }
        assert(text[text.len() - 1] != '\n');
        lemma_no_line_feeds(less);
    }
}

/// The ends of lines become line feeds alone: no word is lost, no line is lost or
/// added, and a text without carriage returns is left as it is.
pub proof fn unifying_keeps_lines_and_words(text: Seq<char>)
    ensures
        words::words_of(with_line_feeds(text)) == words::words_of(text),
        line_feeds(with_line_feeds(text)) == line_feeds(text),
        (forall|i: int| 0 <= i < text.len() ==> #[trigger] text[i] != '\r') ==> with_line_feeds(text)
            == text,
    decreases text.len(),
{
    if text.len() > 0 {
        let rest = text.skip(1);
        let first = seq![text[0]];
        unifying_keeps_lines_and_words(rest);
        assert(first + rest =~= text);
        lemma_line_feeds_add_up(first, rest);
        lemma_line_feeds_add_up(first, with_line_feeds(rest));
        if forall|i: int| 0 <= i < text.len() ==> #[trigger] text[i] != '\r' {
            assert forall|i: int| 0 <= i < rest.len() implies #[trigger] rest[i] != '\r' by {
                assert(rest[i] == text[i + 1]);
            }
        }
        if text[0] == '\r' && text.len() > 1 && text[1] == '\n' {
            lemma_no_line_feeds(first);
            let none = Seq::<char>::empty();
            words::lemma_words_across_space(none, '\r', rest);
            assert(none + seq!['\r'] + rest =~= text);
            assert(words::words_of(none) =~= Seq::<Seq<char>>::empty());
            assert(words::words_of(none) + words::words_of(rest) =~= words::words_of(rest));
        } else {
            lemma_words_behind(text[0], rest, with_line_feeds(rest));
            lemma_starts_alike(rest);
        }
    }
}

/// Where two texts have the same words, and both start inside a word or both do
/// not, so do they behind one more character.
proof fn lemma_words_behind(c: char, left: Seq<char>, right: Seq<char>)
    ensures
        words::words_of(left) == words::words_of(right) && (left.len() == 0 || chars::is_space(
            left[0],
        ) <==> right.len() == 0 || chars::is_space(right[0])) ==> words::words_of(seq![c] + left)
            == words::words_of(seq![c] + right),
{
    if words::words_of(left) == words::words_of(right) && (left.len() == 0 || chars::is_space(
        left[0],
    ) <==> right.len() == 0 || chars::is_space(right[0])) {
        let a = seq![c] + left;
        let b = seq![c] + right;
        assert(a.skip(1) =~= left);
        assert(b.skip(1) =~= right);
        if chars::is_space(c) {
        } else if left.len() == 0 || chars::is_space(left[0]) {
            assert(words::word_len(left) == 0);
            assert(words::word_len(right) == 0);
            assert(a.take(1) =~= seq![c]);
            assert(b.take(1) =~= seq![c]);
            assert(words::words_of(a) == seq![seq![c]] + words::words_of(left));
            assert(words::words_of(b) == seq![seq![c]] + words::words_of(right));
        } else {
            words::lemma_word_len(left);
            words::lemma_word_len(right);
            let m = words::word_len(left) as int;
            let n = words::word_len(right) as int;
            let w = words::words_of(left);
            assert(w == seq![left.take(m)] + words::words_of(left.skip(m)));
            assert(w == seq![right.take(n)] + words::words_of(right.skip(n)));
            assert(w[0] == left.take(m));
            assert(w[0] == right.take(n));
            assert(w.skip(1) =~= words::words_of(left.skip(m)));
            assert(w.skip(1) =~= words::words_of(right.skip(n)));
            assert(a.take(m + 1) =~= seq![c] + left.take(m));
            assert(b.take(n + 1) =~= seq![c] + right.take(n));
            assert(a.skip(m + 1) =~= left.skip(m));
            assert(b.skip(n + 1) =~= right.skip(n));
            assert(words::words_of(a) == seq![a.take(m + 1)] + words::words_of(a.skip(m + 1)));
            assert(words::words_of(b) == seq![b.take(n + 1)] + words::words_of(b.skip(n + 1)));
        }
    }
}

proof fn lemma_starts_alike(text: Seq<char>)
    ensures
        text.len() == 0 || chars::is_space(text[0]) <==> with_line_feeds(text).len() == 0
            || chars::is_space(with_line_feeds(text)[0]),
        text.len() > 0 ==> with_line_feeds(text).len() > 0,
    decreases text.len(),
{
    if text.len() > 0 && text[0] == '\r' && text.len() > 1 && text[1] == '\n' {
        let rest = text.skip(1);
        assert(rest[0] == '\n');
        assert(with_line_feeds(rest)[0] == '\n');
    }
}

/// Marking the breaks of lines keeps every word, in order, and every line; a text
/// of one line is left as it is, and so is code, up to the fence that closes it.
pub proof fn marking_breaks_keeps_lines_and_words(text: Seq<char>, in_code: bool)
    ensures
        words::words_of(with_hard_breaks(text, in_code)) == words::words_of(text),
        line_feeds(with_hard_breaks(text, in_code)) == line_feeds(text),
        line_feeds(text) == 0 ==> with_hard_breaks(text, in_code) == text,
    decreases text.len(),
{
    reveal_strlit("  \n");
    lines::lemma_line_len(text);
    let len = lines::line_len(text) as int;
    if text.len() > 0 && len < text.len() {
        let line = text.take(len);
        let rest = text.skip(len + 1);
        let now = if is_fence(line) {
            !in_code
        } else {
            in_code
        };
        let then = with_hard_breaks(rest, now);
        marking_breaks_keeps_lines_and_words(rest, now);
        assert(line + seq!['\n'] + rest =~= text);
        words::lemma_words_across_space(line, '\n', rest);
        lemma_line_feeds_add_up(line + seq!['\n'], rest);
        lemma_line_feeds_add_up(line, seq!['\n']);
        assert forall|i: int| 0 <= i < line.len() implies #[trigger] line[i] != '\n' by {
            assert(line[i] == text[i]);
        }
        lemma_no_line_feeds(line);
        assert(line_feeds(seq!['\n']) == 1) by {
            assert(seq!['\n'].drop_last() =~= Seq::<char>::empty());
            assert(line_feeds(Seq::<char>::empty()) == 0);
        }
        if !now && !is_fence(line) && line.len() > 0 {
            let kept = lines::without_return(line);
            assert forall|i: int| 0 <= i < kept.len() implies #[trigger] kept[i] != '\n' by {
                assert(kept[i] == line[i]);
            }
            lemma_no_line_feeds(kept);
            words::words_across(kept, "  \n"@, then);
            assert(kept + "  \n"@ + then =~= broken_line(line, now) + then);
            assert("  \n"@ =~= seq![' ', ' '] + seq!['\n']);
            lemma_line_feeds_add_up(kept + "  \n"@, then);
            lemma_line_feeds_add_up(kept, "  \n"@);
            lemma_line_feeds_add_up(seq![' ', ' '], seq!['\n']);
            lemma_no_line_feeds(seq![' ', ' ']);
            if kept.len() < line.len() {
                let none = Seq::<char>::empty();
                words::lemma_words_across_space(kept, '\r', none);
                assert(kept + seq!['\r'] + none =~= line);
                assert(words::words_of(none) =~= Seq::<Seq<char>>::empty());
                assert(words::words_of(kept) + words::words_of(none) =~= words::words_of(kept));
            }
        } else {
            words::lemma_words_across_space(line, '\n', then);
            assert(line + seq!['\n'] + then =~= broken_line(line, now) + then);
            lemma_line_feeds_add_up(line + seq!['\n'], then);
        }
    } else if text.len() > 0 {
        assert forall|i: int| 0 <= i < text.len() implies #[trigger] text[i] != '\n' by {}
        lemma_no_line_feeds(text);
    }
}

/// A line of prose ends with two blanks, a line of code or a fence as it did, and
/// a fence opens or closes the code behind it.
pub proof fn prose_alone_is_broken_hard(line: Seq<char>, rest: Seq<char>, in_code: bool)
    requires
        line.len() > 0,
        forall|i: int| 0 <= i < line.len() ==> #[trigger] line[i] != '\n' && line[i] != '\r',
    ensures
        ({
            let text = line + seq!['\n'] + rest;
            &&& !in_code && !is_fence(line) ==> with_hard_breaks(text, in_code) == line + seq![
                ' ',
                ' ',
                '\n',
            ] + with_hard_breaks(rest, false)
            &&& in_code && !is_fence(line) ==> with_hard_breaks(text, in_code) == line + seq!['\n']
                + with_hard_breaks(rest, true)
            &&& is_fence(line) ==> with_hard_breaks(text, in_code) == line + seq!['\n']
                + with_hard_breaks(rest, !in_code)
        }),
{
    reveal_strlit("  \n");
    assert("  \n"@ =~= seq![' ', ' ', '\n']);
    let text = line + seq!['\n'] + rest;
    lemma_line_stops(line, rest);
    assert(text.take(line.len() as int) =~= line);
    assert(text.skip(line.len() + 1int) =~= rest);
    assert(line.push('\n') =~= line + seq!['\n']);
    assert(lines::without_return(line) == line);
}

proof fn lemma_line_stops(line: Seq<char>, rest: Seq<char>)
    requires
        forall|i: int| 0 <= i < line.len() ==> #[trigger] line[i] != '\n',
    ensures
        lines::line_len(line + seq!['\n'] + rest) == line.len(),
    decreases line.len(),
{
    let text = line + seq!['\n'] + rest;
    if line.len() > 0 {
        assert(text[0] == line[0]);
        assert(text.skip(1) =~= line.skip(1) + seq!['\n'] + rest);
        lemma_line_stops(line.skip(1), rest);
    }
}

} // verus!
