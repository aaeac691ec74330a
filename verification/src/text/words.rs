//! Words: splitting at white space, trimming, and greedy wrapping.

use vstd::prelude::*;
use super::chars;
use super::search;

use super::chars::{char_count, char_is_space, chars_of, text_of};

verus! {

/// How many characters stand before the first white space.
pub open spec fn word_len(text: Seq<char>) -> nat
    decreases text.len(),
{
    if text.len() == 0 || chars::is_space(text[0]) {
        0
    } else {
        1 + word_len(text.skip(1))
    }
}

/// The maximal runs of characters that are not white space, in order.
pub open spec fn words_of(text: Seq<char>) -> Seq<Seq<char>>
    decreases text.len(),
{
    if text.len() == 0 {
        Seq::empty()
    } else if chars::is_space(text[0]) {
        words_of(text.skip(1))
    } else {
        let len = word_len(text) as int;
        if 0 < len <= text.len() {
            seq![text.take(len)] + words_of(text.skip(len))
        } else {
            Seq::empty()
        }
    }
}

/// A word is no longer than the text it starts.
pub proof fn lemma_word_len(text: Seq<char>)
    ensures
        word_len(text) <= text.len(),
        text.len() > 0 && !chars::is_space(text[0]) ==> word_len(text) > 0,
        forall|i: int| 0 <= i < word_len(text) ==> !chars::is_space(#[trigger] text[i]),
        word_len(text) < text.len() ==> chars::is_space(text[word_len(text) as int]),
    decreases text.len(),
{
    if text.len() > 0 && !chars::is_space(text[0]) {
        let rest = text.skip(1);
        lemma_word_len(rest);
        assert forall|i: int| 0 <= i < word_len(text) implies !chars::is_space(#[trigger] text[i]) by {
            if i > 0 {
                assert(text[i] == rest[i - 1]);
            }
        }
    }
}

/// Splits a text into its words.
pub fn words(text: &str) -> (words: Vec<String>)
    ensures
        chars::texts(words@) == words_of(text@),
{
    let chars = chars_of(text);
    let ghost all = chars@;
    let mut out: Vec<String> = Vec::new();
    let mut i: usize = 0;
    assert(all.skip(0) =~= all);
    assert(chars::texts(out@) + words_of(all) =~= words_of(all));
    while i < chars.len()
        invariant
            chars@ == all,
            i <= chars.len(),
            chars::texts(out@) + words_of(all.skip(i as int)) == words_of(all),
        decreases chars.len() - i,
    {
        let ghost rest = all.skip(i as int);
        if char_is_space(chars[i]) {
            assert(rest.skip(1) =~= all.skip(i + 1));
            i = i + 1;
        } else {
            let mut j: usize = i;
            while j < chars.len() && !char_is_space(chars[j])
                invariant
                    chars@ == all,
                    i <= j <= chars.len(),
                    rest == all.skip(i as int),
                    word_len(rest) == (j - i) + word_len(all.skip(j as int)),
                decreases chars.len() - j,
            {
                assert(all.skip(j as int).skip(1) =~= all.skip(j + 1));
                j = j + 1;
            }
            assert(word_len(all.skip(j as int)) == 0);
            proof {
                lemma_word_len(rest);
            }
            let word = text_of(&chars, i, j);
            assert(word@ =~= rest.take(j - i));
            assert(rest.skip(j - i) =~= all.skip(j as int));
            proof {
                chars::lemma_texts_push(out@, word);
                assert((chars::texts(out@).push(word@)) + words_of(all.skip(j as int)) =~= chars::texts(out@) + (
                seq![word@] + words_of(all.skip(j as int))));
            }
            out.push(word);
            i = j;
        }
    }
    assert(all.skip(all.len() as int) =~= Seq::<char>::empty());
    assert(chars::texts(out@) + Seq::<Seq<char>>::empty() =~= chars::texts(out@));
    out
}

/// Every word is non-empty and holds no white space.
pub proof fn lemma_words_are_words(text: Seq<char>)
    ensures
        forall|k: int|
            0 <= k < words_of(text).len() ==> (#[trigger] words_of(text)[k]).len() > 0
                && word_len(words_of(text)[k]) == words_of(text)[k].len(),
    decreases text.len(),
{
    if text.len() > 0 {
        if chars::is_space(text[0]) {
            lemma_words_are_words(text.skip(1));
            assert(words_of(text) == words_of(text.skip(1)));
        } else {
            lemma_word_len(text);
            let len = word_len(text) as int;
            let first = text.take(len);
            lemma_words_are_words(text.skip(len));
            lemma_unbroken(first);
            assert forall|k: int| 0 <= k < words_of(text).len() implies (
            #[trigger] words_of(text)[k]).len() > 0 && word_len(words_of(text)[k])
                == words_of(text)[k].len() by {
                if k > 0 {
                    assert(words_of(text)[k] == words_of(text.skip(len))[k - 1]);
                } else {
                    assert(words_of(text)[0] == first);
                }
            }
        }
    } else {
        assert(words_of(text).len() == 0);
    }
}

/// A text without white space is all one word.
pub proof fn lemma_unbroken(text: Seq<char>)
    requires
        forall|i: int| 0 <= i < text.len() ==> !chars::is_space(#[trigger] text[i]),
    ensures
        word_len(text) == text.len(),
    decreases text.len(),
{
    if text.len() > 0 {
        let rest = text.skip(1);
        assert forall|i: int| 0 <= i < rest.len() implies !chars::is_space(#[trigger] rest[i]) by {
            assert(rest[i] == text[i + 1]);
        }
        lemma_unbroken(rest);
    }
}

/// The text without its leading white space.
pub open spec fn trim_start(text: Seq<char>) -> Seq<char>
    decreases text.len(),
{
    if text.len() > 0 && chars::is_space(text[0]) {
        trim_start(text.skip(1))
    } else {
        text
    }
}

/// The text without its trailing white space.
pub open spec fn trim_end(text: Seq<char>) -> Seq<char>
    decreases text.len(),
{
    if text.len() > 0 && chars::is_space(text.last()) {
        trim_end(text.drop_last())
    } else {
        text
    }
}

/// The text without leading and trailing white space.
pub open spec fn trim(text: Seq<char>) -> Seq<char> {
    trim_end(trim_start(text))
}

/// Removes leading white space.
pub fn trimmed_start(text: &str) -> (out: String)
    ensures
        out@ == trim_start(text@),
{
    let chars = chars_of(text);
    let ghost all = chars@;
    let mut i: usize = 0;
    assert(all.skip(0) =~= all);
    while i < chars.len() && char_is_space(chars[i])
        invariant
            chars@ == all,
            i <= chars.len(),
            trim_start(all.skip(i as int)) == trim_start(all),
        decreases chars.len() - i,
    {
        assert(all.skip(i as int).skip(1) =~= all.skip(i + 1));
        i = i + 1;
    }
    assert(all.subrange(i as int, all.len() as int) =~= all.skip(i as int));
    text_of(&chars, i, chars.len())
}

/// Removes leading and trailing white space.
pub fn trimmed(text: &str) -> (out: String)
    ensures
        out@ == trim(text@),
{
    let start = trimmed_start(text);
    let chars = chars_of(start.as_str());
    let ghost all = chars@;
    let mut end: usize = chars.len();
    assert(all.take(all.len() as int) =~= all);
    while end > 0 && char_is_space(chars[end - 1])
        invariant
            chars@ == all,
            end <= chars.len(),
            trim_end(all.take(end as int)) == trim_end(all),
        decreases end,
    {
        assert(all.take(end as int).drop_last() =~= all.take(end - 1));
        end = end - 1;
    }
    assert(all.subrange(0, end as int) =~= all.take(end as int));
    text_of(&chars, 0, end)
}

/// The lines that words fill greedily, `line` being the one under way: a word
/// joins it after a space while that keeps the line within `width`, and opens
/// a line of its own otherwise. Lines after the one under way hold `rest`
/// characters.
pub open spec fn fill(
    line: Seq<char>,
    words: Seq<Seq<char>>,
    width: nat,
    rest: nat,
) -> Seq<Seq<char>>
    decreases words.len(),
{
    if words.len() == 0 {
        if line.len() == 0 {
            Seq::empty()
        } else {
            seq![line]
        }
    } else if line.len() == 0 {
        fill(words[0], words.skip(1), width, rest)
    } else if line.len() + 1 + words[0].len() <= width {
        fill(line + seq![' '] + words[0], words.skip(1), width, rest)
    } else {
        seq![line] + fill(words[0], words.skip(1), rest, rest)
    }
}

/// A text wrapped at white space, to `first` characters on the first line and
/// `rest` on every later one.
pub open spec fn wrapped_lines(text: Seq<char>, first: nat, rest: nat) -> Seq<Seq<char>> {
    fill(Seq::empty(), words_of(text), first, rest)
}

/// Wraps a text at white space. The first line may differ in width from the
/// rest, for text that starts behind a prefix.
pub fn wrap_paragraph_lines(text: &str, first_line_max: usize, rest_max: usize) -> (lines: Vec<
    String,
>)
    ensures
        chars::texts(lines@) == wrapped_lines(text@, first_line_max as nat, rest_max as nat),
{
    let words = words(text);
    let ghost all = chars::texts(words@);
    let mut lines: Vec<String> = Vec::new();
    let mut line = String::new();
    let mut i: usize = 0;
    assert(all.skip(0) =~= all);
    assert(line@ =~= Seq::<char>::empty());
    proof {
        lemma_words_are_words(text@);
    }
    let ghost goal = wrapped_lines(text@, first_line_max as nat, rest_max as nat);
    assert(chars::texts(lines@) + goal =~= goal);
    while i < words.len()
        invariant
            all == chars::texts(words@),
            i <= words.len(),
            lines@.len() > 0 ==> line@.len() > 0,
            forall|k: int| 0 <= k < all.len() ==> (#[trigger] all[k]).len() > 0,
            chars::texts(lines@) + fill(
                line@,
                all.skip(i as int),
                if lines@.len() == 0 {
                    first_line_max as nat
                } else {
                    rest_max as nat
                },
                rest_max as nat,
            ) == goal,
        decreases words.len() - i,
    {
        let ghost before = all.skip(i as int);
        assert(before.skip(1) =~= all.skip(i + 1));
        assert(before[0] == words@[i as int]@);
        assert(all[i as int].len() > 0);
        let max_width: usize = if lines.len() == 0 {
            first_line_max
        } else {
            rest_max
        };
        let word = words[i].as_str();
        let used: usize = char_count(line.as_str());
        let more: usize = char_count(word);
        if used == 0 {
            assert(line@ + word@ =~= word@);
            line.append(word);
        } else if used < max_width && more <= max_width - used - 1 {
            assert(line@.push(' ') =~= line@ + seq![' ']);
            line.push(' ');
            line.append(word);
        } else {
            let ghost full = line;
            proof {
                chars::lemma_texts_push(lines@, full);
                let after = fill(word@, all.skip(i + 1), rest_max as nat, rest_max as nat);
                assert(chars::texts(lines@).push(full@) + after =~= chars::texts(lines@) + (seq![full@] + after));
            }
            lines.push(line);
            line = word.to_owned();
        }
        i = i + 1;
    }
    assert(all.skip(all.len() as int) =~= Seq::<Seq<char>>::empty());
    if line.as_str().is_empty() {
        assert(chars::texts(lines@) + Seq::<Seq<char>>::empty() =~= chars::texts(lines@));
    } else {
        proof {
            chars::lemma_texts_push(lines@, line);
            assert(chars::texts(lines@) + seq![line@] =~= chars::texts(lines@).push(line@));
        }
        lines.push(line);
    }
    lines
}

/// The words of all lines, line by line.
pub open spec fn words_of_lines(lines: Seq<Seq<char>>) -> Seq<Seq<char>>
    decreases lines.len(),
{
    if lines.len() == 0 {
        Seq::empty()
    } else {
        words_of(lines[0]) + words_of_lines(lines.skip(1))
    }
}

/// Whether a text is one word.
pub open spec fn is_word(text: Seq<char>) -> bool {
    text.len() > 0 && word_len(text) == text.len()
}

proof fn lemma_word_len_before_space(left: Seq<char>, space: char, right: Seq<char>)
    requires
        chars::is_space(space),
    ensures
        word_len(left + seq![space] + right) == word_len(left),
    decreases left.len(),
{
    let all = left + seq![space] + right;
    if left.len() == 0 {
        assert(all[0] == space);
    } else if !chars::is_space(left[0]) {
        assert(all[0] == left[0]);
        assert(all.skip(1) =~= left.skip(1) + seq![space] + right);
        lemma_word_len_before_space(left.skip(1), space, right);
    } else {
        assert(all[0] == left[0]);
    }
}

/// The words of a text are those before and those behind any white space in it.
pub proof fn lemma_words_across_space(left: Seq<char>, space: char, right: Seq<char>)
    requires
        chars::is_space(space),
    ensures
        words_of(left + seq![space] + right) == words_of(left) + words_of(right),
    decreases left.len(),
{
    let all = left + seq![space] + right;
    if left.len() == 0 {
        assert(all[0] == space);
        assert(all.skip(1) =~= right);
        assert(words_of(left) + words_of(right) =~= words_of(right));
    } else if chars::is_space(left[0]) {
        assert(all[0] == left[0]);
        assert(all.skip(1) =~= left.skip(1) + seq![space] + right);
        lemma_words_across_space(left.skip(1), space, right);
    } else {
        assert(all[0] == left[0]);
        lemma_word_len_before_space(left, space, right);
        lemma_word_len(left);
        let len = word_len(left) as int;
        assert(all.take(len) =~= left.take(len));
        assert(all.skip(len) =~= left.skip(len) + seq![space] + right);
        lemma_words_across_space(left.skip(len), space, right);
        assert(words_of(all) =~= words_of(left) + words_of(right));
    }
}

proof fn lemma_trim_start_keeps_words(text: Seq<char>)
    ensures
        words_of(trim_start(text)) == words_of(text),
    decreases text.len(),
{
    if text.len() > 0 && chars::is_space(text[0]) {
        lemma_trim_start_keeps_words(text.skip(1));
    }
}

proof fn lemma_trim_end_keeps_words(text: Seq<char>)
    ensures
        words_of(trim_end(text)) == words_of(text),
    decreases text.len(),
{
    if text.len() > 0 && chars::is_space(text.last()) {
        let none = Seq::<char>::empty();
        lemma_trim_end_keeps_words(text.drop_last());
        lemma_words_across_space(text.drop_last(), text.last(), none);
        assert(text.drop_last() + seq![text.last()] + none =~= text);
        assert(words_of(text.drop_last()) + words_of(none) =~= words_of(text.drop_last()));
    }
}

/// Trimming keeps every word, in order.
pub proof fn trimming_keeps_the_words(text: Seq<char>)
    ensures
        words_of(trim(text)) == words_of(text),
{
    lemma_trim_start_keeps_words(text);
    lemma_trim_end_keeps_words(trim_start(text));
}

proof fn lemma_words_of_word(word: Seq<char>)
    requires
        is_word(word),
    ensures
        words_of(word) == seq![word],
{
    lemma_word_len(word);
    assert(!chars::is_space(word[0]));
    assert(word.take(word.len() as int) =~= word);
    assert(word.skip(word.len() as int) =~= Seq::<char>::empty());
    assert(words_of(Seq::<char>::empty()) =~= Seq::<Seq<char>>::empty());
    assert(words_of(word) =~= seq![word]);
}

proof fn lemma_fill_keeps_words(line: Seq<char>, words: Seq<Seq<char>>, width: nat, rest: nat)
    requires
        forall|k: int| 0 <= k < words.len() ==> is_word(#[trigger] words[k]),
    ensures
        words_of_lines(fill(line, words, width, rest)) == words_of(line) + words,
    decreases words.len(),
{
    let later = words.skip(1);
    if words.len() > 0 {
        assert forall|k: int| 0 <= k < later.len() implies is_word(#[trigger] later[k]) by {
            assert(later[k] == words[k + 1]);
        }
    }
    if words.len() == 0 {
        if line.len() == 0 {
            assert(words_of(line) + words =~= Seq::<Seq<char>>::empty());
        } else {
            assert(seq![line].skip(1) =~= Seq::<Seq<char>>::empty());
            assert(words_of_lines(Seq::<Seq<char>>::empty()) =~= Seq::<Seq<char>>::empty());
            assert(words_of_lines(seq![line]) =~= words_of(line) + words);
        }
    } else {
        let word = words[0];
        lemma_words_of_word(word);
        if line.len() == 0 {
            lemma_fill_keeps_words(word, later, width, rest);
            assert(words_of(line) + words =~= seq![word] + later);
        } else if line.len() + 1 + word.len() <= width {
            lemma_fill_keeps_words(line + seq![' '] + word, later, width, rest);
            lemma_words_across_space(line, ' ', word);
            assert(words_of(line) + seq![word] + later =~= words_of(line) + words);
        } else {
            lemma_fill_keeps_words(word, later, rest, rest);
            let after = fill(word, later, rest, rest);
            assert((seq![line] + after).skip(1) =~= after);
            assert(words_of(line) + (seq![word] + later) =~= words_of(line) + words);
        }
    }
}

/// Wrapping keeps every word, in order, and adds none.
pub proof fn wrapping_keeps_the_words(text: Seq<char>, first: nat, rest: nat)
    ensures
        words_of_lines(wrapped_lines(text, first, rest)) == words_of(text),
{
    lemma_words_are_words(text);
    lemma_fill_keeps_words(Seq::empty(), words_of(text), first, rest);
    assert(words_of(Seq::<char>::empty()) + words_of(text) =~= words_of(text));
}

/// The width that a line of wrapped text keeps to.
pub open spec fn line_width(k: int, first: nat, rest: nat) -> nat {
    if k == 0 {
        first
    } else {
        rest
    }
}

proof fn lemma_fill_widths(line: Seq<char>, words: Seq<Seq<char>>, width: nat, rest: nat)
    requires
        line.len() <= width || is_word(line),
        forall|k: int| 0 <= k < words.len() ==> is_word(#[trigger] words[k]),
    ensures
        forall|k: int|
            0 <= k < fill(line, words, width, rest).len() ==> {
                let filled = #[trigger] fill(line, words, width, rest)[k];
                &&& filled.len() > 0
                &&& filled.len() <= line_width(k, width, rest) || is_word(filled)
            },
    decreases words.len(),
{
    let later = words.skip(1);
    if words.len() > 0 {
        assert forall|k: int| 0 <= k < later.len() implies is_word(#[trigger] later[k]) by {
            assert(later[k] == words[k + 1]);
        }
    }
    if words.len() > 0 {
        let word = words[0];
        if line.len() == 0 {
            lemma_fill_widths(word, later, width, rest);
            assert(fill(line, words, width, rest) == fill(word, later, width, rest));
        } else if line.len() + 1 + word.len() <= width {
            let longer = line + seq![' '] + word;
            lemma_fill_widths(longer, later, width, rest);
            assert(fill(line, words, width, rest) == fill(longer, later, width, rest));
        } else {
            lemma_fill_widths(word, later, rest, rest);
            let after = fill(word, later, rest, rest);
            let all = fill(line, words, width, rest);
            assert(all == seq![line] + after);
            assert forall|k: int| 0 <= k < all.len() implies {
                let filled = #[trigger] all[k];
                &&& filled.len() > 0
                &&& filled.len() <= line_width(k, width, rest) || is_word(filled)
            } by {
                if k > 0 {
                    assert(all[k] == after[k - 1]);
                }
            }
        }
    }
}

/// A wrapped line is never empty, and keeps to its width unless a single word
/// is wider.
pub proof fn wrapping_keeps_to_the_width(text: Seq<char>, first: nat, rest: nat)
    ensures
        forall|k: int|
            0 <= k < wrapped_lines(text, first, rest).len() ==> {
                let line = #[trigger] wrapped_lines(text, first, rest)[k];
                &&& line.len() > 0
                &&& line.len() <= line_width(k, first, rest) || is_word(line)
            },
{
    lemma_words_are_words(text);
    lemma_fill_widths(Seq::empty(), words_of(text), first, rest);
}

/// The line under way stays at the head of the first line filled.
pub proof fn lemma_fill_starts_with(line: Seq<char>, words: Seq<Seq<char>>, width: nat, rest: nat)
    requires
        line.len() > 0,
    ensures
        fill(line, words, width, rest).len() > 0,
        fill(line, words, width, rest)[0].len() >= line.len(),
        fill(line, words, width, rest)[0].take(line.len() as int) == line,
        fill(line, words, width, rest)[0].len() == line.len() || fill(
            line,
            words,
            width,
            rest,
        )[0][line.len() as int] == ' ',
    decreases words.len(),
{
    if words.len() == 0 {
        assert(line.take(line.len() as int) =~= line);
    } else if line.len() + 1 + words[0].len() <= width {
        let longer = line + seq![' '] + words[0];
        lemma_fill_starts_with(longer, words.skip(1), width, rest);
        let got = fill(longer, words.skip(1), width, rest)[0];
        assert(got.take(line.len() as int) =~= got.take(longer.len() as int).take(
            line.len() as int,
        ));
        assert(longer.take(line.len() as int) =~= line);
        assert(got[line.len() as int] == got.take(longer.len() as int)[line.len() as int]);
    } else {
        assert(line.take(line.len() as int) =~= line);
    }
}

proof fn lemma_fill_greedy(line: Seq<char>, words: Seq<Seq<char>>, width: nat, rest: nat)
    requires
        forall|k: int| 0 <= k < words.len() ==> is_word(#[trigger] words[k]),
    ensures
        forall|k: int|
            0 <= k < fill(line, words, width, rest).len() - 1 ==> (
            #[trigger] fill(line, words, width, rest)[k]).len() + 1 + word_len(
                fill(line, words, width, rest)[k + 1],
            ) > line_width(k, width, rest),
    decreases words.len(),
{
    let later = words.skip(1);
    if words.len() > 0 {
        assert forall|k: int| 0 <= k < later.len() implies is_word(#[trigger] later[k]) by {
            assert(later[k] == words[k + 1]);
        }
    }
    if words.len() > 0 {
        let word = words[0];
        if line.len() == 0 {
            lemma_fill_greedy(word, later, width, rest);
            assert(fill(line, words, width, rest) == fill(word, later, width, rest));
        } else if line.len() + 1 + word.len() <= width {
            let longer = line + seq![' '] + word;
            lemma_fill_greedy(longer, later, width, rest);
            assert(fill(line, words, width, rest) == fill(longer, later, width, rest));
        } else {
            lemma_fill_greedy(word, later, rest, rest);
            lemma_fill_starts_with(word, later, rest, rest);
            let after = fill(word, later, rest, rest);
            let all = fill(line, words, width, rest);
            assert(all == seq![line] + after);
            let next = after[0];
            if next.len() > word.len() {
                assert(next =~= word + seq![' '] + next.skip((word.len() + 1) as int));
                lemma_word_len_before_space(word, ' ', next.skip((word.len() + 1) as int));
            } else {
                assert(next =~= word);
            }
            assert forall|k: int| 0 <= k < all.len() - 1 implies (#[trigger] all[k]).len() + 1
                + word_len(all[k + 1]) > line_width(k, width, rest) by {
                if k > 0 {
                    assert(all[k] == after[k - 1]);
                    assert(all[k + 1] == after[k]);
                } else {
                    assert(all[1] == next);
                }
            }
        }
    }
}

/// Wrapping is greedy: the word that opens a line would not have fit on the
/// line before it.
pub proof fn wrapping_is_greedy(text: Seq<char>, first: nat, rest: nat)
    ensures
        forall|k: int|
            0 <= k < wrapped_lines(text, first, rest).len() - 1 ==> (
            #[trigger] wrapped_lines(text, first, rest)[k]).len() + 1 + word_len(
                wrapped_lines(text, first, rest)[k + 1],
            ) > line_width(k, first, rest),
{
    lemma_words_are_words(text);
    lemma_fill_greedy(Seq::empty(), words_of(text), first, rest);
}

/// A text that holds no white space is its only word, and a text of nothing but
/// white space has none.
pub proof fn unbroken_text_is_one_word(text: Seq<char>)
    ensures
        text.len() > 0 && (forall|i: int|
            0 <= i < text.len() ==> !chars::is_space(#[trigger] text[i])) ==> words_of(text)
            == seq![text],
        (forall|i: int| 0 <= i < text.len() ==> chars::is_space(#[trigger] text[i]))
            ==> words_of(text).len() == 0,
    decreases text.len(),
{
    if text.len() > 0 {
        if chars::is_space(text[0]) {
            let rest = text.skip(1);
            assert forall|i: int| 0 <= i < rest.len() && (forall|k: int|
                0 <= k < text.len() ==> chars::is_space(
                    #[trigger] text[k],
                )) implies chars::is_space(#[trigger] rest[i]) by {
                assert(rest[i] == text[i + 1]);
            }
            unbroken_text_is_one_word(rest);
        } else if forall|i: int| 0 <= i < text.len() ==> !chars::is_space(#[trigger] text[i]) {
            lemma_unbroken(text);
            lemma_words_of_word(text);
        }
    }
}

/// White space anywhere in a text parts its words, and counts for nothing else.
pub proof fn white_space_parts_words(left: Seq<char>, space: char, right: Seq<char>)
    requires
        chars::is_space(space),
    ensures
        words_of(left + seq![space] + right) == words_of(left) + words_of(right),
{
    lemma_words_across_space(left, space, right);
}

/// The words of lines add up.
pub proof fn words_of_lines_add_up(first: Seq<Seq<char>>, second: Seq<Seq<char>>)
    ensures
        words_of_lines(first + second) == words_of_lines(first) + words_of_lines(second),
    decreases first.len(),
{
    if first.len() == 0 {
        assert(first + second =~= second);
        assert(words_of_lines(first) + words_of_lines(second) =~= words_of_lines(second));
    } else {
        words_of_lines_add_up(first.skip(1), second);
        assert((first + second).skip(1) =~= first.skip(1) + second);
        assert((first + second)[0] == first[0]);
        assert(words_of_lines(first + second) =~= words_of_lines(first) + words_of_lines(second));
    }
}

/// The words of one line are the words of its text.
pub proof fn words_of_one_line(line: Seq<char>)
    ensures
        words_of_lines(seq![line]) == words_of(line),
{
    assert(seq![line].skip(1) =~= Seq::<Seq<char>>::empty());
    assert(words_of_lines(Seq::<Seq<char>>::empty()) =~= Seq::<Seq<char>>::empty());
    assert(words_of_lines(seq![line]) =~= words_of(line));
}

/// Lines that are put together with white space between each two have the words
/// of the lines, in order and no others.
pub proof fn joining_keeps_the_words(lines: Seq<Seq<char>>, separator: Seq<char>)
    requires
        separator.len() > 0,
        forall|i: int| 0 <= i < separator.len() ==> chars::is_space(#[trigger] separator[i]),
    ensures
        words_of(search::join(lines, separator)) == words_of_lines(lines),
    decreases lines.len(),
{
    if lines.len() == 0 {
        assert(words_of(Seq::<char>::empty()) =~= Seq::<Seq<char>>::empty());
    } else if lines.len() == 1 {
        assert(lines =~= seq![lines[0]]);
        words_of_one_line(lines[0]);
    } else {
        let before = search::join(lines.drop_last(), separator);
        joining_keeps_the_words(lines.drop_last(), separator);
        words_across(before, separator, lines.last());
        words_of_lines_add_up(lines.drop_last(), seq![lines.last()]);
        words_of_one_line(lines.last());
        assert(lines.drop_last() + seq![lines.last()] =~= lines);
    }
}

/// A stretch of white space parts the words before it from those behind it.
pub proof fn words_across(left: Seq<char>, blank: Seq<char>, right: Seq<char>)
    requires
        blank.len() > 0,
        forall|i: int| 0 <= i < blank.len() ==> chars::is_space(#[trigger] blank[i]),
    ensures
        words_of(left + blank + right) == words_of(left) + words_of(right),
    decreases blank.len(),
{
    let rest = blank.skip(1) + right;
    lemma_words_across_space(left, blank[0], rest);
    assert(left + seq![blank[0]] + rest =~= left + blank + right);
    if blank.len() == 1 {
        assert(rest =~= right);
    } else {
        let none = Seq::<char>::empty();
        let less = blank.skip(1);
        assert forall|i: int| 0 <= i < less.len() implies chars::is_space(#[trigger] less[i]) by {
            assert(less[i] == blank[i + 1]);
        }
        words_across(none, less, right);
        assert(none + less + right =~= rest);
        assert(words_of(none) =~= Seq::<Seq<char>>::empty());
        assert(words_of(none) + words_of(right) =~= words_of(right));
    }
}

/// What is trimmed off a text is white space, and all of it: what is left stands
/// in the text from one place to another, white space alone stands outside, and
/// none at either end of what is left.
pub proof fn trimming_takes_the_outer_white_space(text: Seq<char>) -> (places: (int, int))
    ensures
        0 <= places.0 <= places.1 <= text.len(),
        trim(text) == text.subrange(places.0, places.1),
        forall|i: int|
            0 <= i < text.len() && !(places.0 <= i < places.1) ==> chars::is_space(
                #[trigger] text[i],
            ),
        trim(text).len() > 0 ==> !chars::is_space(trim(text)[0]) && !chars::is_space(
            trim(text).last(),
        ),
{
    let from = lemma_trim_start(text);
    let start = trim_start(text);
    let len = lemma_trim_end(start);
    assert(start.take(len) =~= text.subrange(from, from + len));
    assert forall|i: int| 0 <= i < text.len() && !(from <= i < from + len) implies chars::is_space(
        #[trigger] text[i],
    ) by {
        if i >= from {
            assert(start[i - from] == text[i]);
        }
    }
    if len > 0 {
        assert(trim(text)[0] == start[0]);
    }
    (from, from + len)
}

proof fn lemma_trim_start(text: Seq<char>) -> (from: int)
    ensures
        0 <= from <= text.len(),
        trim_start(text) == text.skip(from),
        forall|i: int| 0 <= i < from ==> chars::is_space(#[trigger] text[i]),
        trim_start(text).len() > 0 ==> !chars::is_space(trim_start(text)[0]),
    decreases text.len(),
{
    if text.len() > 0 && chars::is_space(text[0]) {
        let rest = text.skip(1);
        let from = lemma_trim_start(rest);
        assert(rest.skip(from) =~= text.skip(from + 1));
        assert forall|i: int| 0 <= i < from + 1 implies chars::is_space(#[trigger] text[i]) by {
            if i > 0 {
                assert(rest[i - 1] == text[i]);
            }
        }
        from + 1
    } else {
        assert(text.skip(0) =~= text);
        0
    }
}

proof fn lemma_trim_end(text: Seq<char>) -> (len: int)
    ensures
        0 <= len <= text.len(),
        trim_end(text) == text.take(len),
        forall|i: int| len <= i < text.len() ==> chars::is_space(#[trigger] text[i]),
        trim_end(text).len() > 0 ==> !chars::is_space(trim_end(text).last()),
    decreases text.len(),
{
    if text.len() > 0 && chars::is_space(text.last()) {
        let less = text.drop_last();
        let len = lemma_trim_end(less);
        assert(less.take(len) =~= text.take(len));
        assert forall|i: int| len <= i < text.len() implies chars::is_space(#[trigger] text[i]) by {
            if i < less.len() {
                assert(less[i] == text[i]);
            }
        }
        len
    } else {
        assert(text.take(text.len() as int) =~= text);
        text.len() as int
    }
}

proof fn lemma_fill_len(line: Seq<char>, words: Seq<Seq<char>>, width: nat, rest: nat)
    requires
        forall|k: int| 0 <= k < words.len() ==> (#[trigger] words[k]).len() > 0,
    ensures
        fill(line, words, width, rest).len() <= words.len() + (if line.len() > 0 {
            1int
        } else {
            0
        }),
    decreases words.len(),
{
    if words.len() > 0 {
        let later = words.skip(1);
        assert forall|k: int| 0 <= k < later.len() implies (#[trigger] later[k]).len() > 0 by {
            assert(later[k] == words[k + 1]);
        }
        assert(words[0].len() > 0);
        if line.len() == 0 {
            lemma_fill_len(words[0], later, width, rest);
        } else if line.len() + 1 + words[0].len() <= width {
            lemma_fill_len(line + seq![' '] + words[0], later, width, rest);
        } else {
            lemma_fill_len(words[0], later, rest, rest);
        }
    }
}

/// A text wraps to no more lines than it has words.
pub proof fn lemma_lines_have_words(text: Seq<char>, first: nat, rest: nat)
    ensures
        wrapped_lines(text, first, rest).len() <= words_of(text).len(),
{
    lemma_words_are_words(text);
    lemma_fill_len(Seq::empty(), words_of(text), first, rest);
}

} // verus!
