//! Searching, splitting and joining.

use vstd::prelude::*;
use super::chars;

use super::chars::{chars_of, text_of};

verus! {

/// Whether a text begins with a pattern.
pub open spec fn starts_with(text: Seq<char>, pattern: Seq<char>) -> bool {
    pattern.len() <= text.len() && text.take(pattern.len() as int) == pattern
}

/// Whether a text ends with a pattern.
pub open spec fn ends_with(text: Seq<char>, pattern: Seq<char>) -> bool {
    pattern.len() <= text.len() && text.skip(text.len() - pattern.len()) == pattern
}

/// The position of a pattern's first occurrence.
pub open spec fn find(text: Seq<char>, pattern: Seq<char>) -> Option<nat>
    decreases text.len(),
{
    if starts_with(text, pattern) {
        Some(0)
    } else if text.len() == 0 {
        None
    } else {
        match find(text.skip(1), pattern) {
            Some(at) => Some(at + 1),
            None => None,
        }
    }
}

/// Whether a pattern occurs in a text.
pub open spec fn contains(text: Seq<char>, pattern: Seq<char>) -> bool {
    find(text, pattern) is Some
}

/// `find` points at the first place where the pattern stands.
pub proof fn lemma_find(text: Seq<char>, pattern: Seq<char>)
    ensures
        match find(text, pattern) {
            Some(at) => {
                &&& at + pattern.len() <= text.len()
                &&& text.subrange(at as int, (at + pattern.len()) as int) == pattern
                &&& forall|i: int| 0 <= i < at ==> !starts_with(#[trigger] text.skip(i), pattern)
            },
            None => forall|i: int|
                0 <= i <= text.len() ==> !starts_with(#[trigger] text.skip(i), pattern),
        },
    decreases text.len(),
{
    assert(text.skip(0) =~= text);
    if starts_with(text, pattern) {
        assert(text.subrange(0, pattern.len() as int) =~= text.take(pattern.len() as int));
    } else if text.len() > 0 {
        let rest = text.skip(1);
        lemma_find(rest, pattern);
        match find(rest, pattern) {
            Some(at) => {
                assert(text.subrange((at + 1) as int, (at + 1 + pattern.len()) as int) =~= rest.subrange(
                    at as int,
                    (at + pattern.len()) as int,
                ));
                assert forall|i: int| 0 <= i < at + 1 implies !starts_with(
                    #[trigger] text.skip(i),
                    pattern,
                ) by {
                    if i > 0 {
                        assert(text.skip(i) =~= rest.skip(i - 1));
                    }
                }
            },
            None => {
                assert forall|i: int| 0 <= i <= text.len() implies !starts_with(
                    #[trigger] text.skip(i),
                    pattern,
                ) by {
                    if i > 0 {
                        assert(text.skip(i) =~= rest.skip(i - 1));
                    }
                }
            },
        }
    } else {
        assert forall|i: int| 0 <= i <= text.len() implies !starts_with(
            #[trigger] text.skip(i),
            pattern,
        ) by {
            assert(text.skip(i) =~= text);
        }
    }
}

fn stands_at(chars: &Vec<char>, from: usize, pattern: &Vec<char>) -> (stands: bool)
    requires
        from <= chars.len(),
    ensures
        stands == starts_with(chars@.skip(from as int), pattern@),
{
    if chars.len() - from < pattern.len() {
        return false;
    }
    let ghost rest = chars@.skip(from as int);
    let mut i: usize = 0;
    while i < pattern.len()
        invariant
            from + pattern.len() <= chars.len(),
            i <= pattern.len(),
            rest == chars@.skip(from as int),
            forall|k: int| 0 <= k < i ==> rest[k] == #[trigger] pattern@[k],
        decreases pattern.len() - i,
    {
        if chars[from + i] != pattern[i] {
            assert(rest.take(pattern@.len() as int)[i as int] != pattern@[i as int]);
            return false;
        }
        i = i + 1;
    }
    assert(rest.take(pattern@.len() as int) =~= pattern@);
    true
}

fn find_from(chars: &Vec<char>, from: usize, pattern: &Vec<char>) -> (found: Option<usize>)
    requires
        from <= chars.len(),
    ensures
        match found {
            Some(at) => from <= at && at + pattern.len() <= chars.len() && find(
                chars@.skip(from as int),
                pattern@,
            ) == Some((at - from) as nat),
            None => find(chars@.skip(from as int), pattern@) is None,
        },
{
    let ghost rest = chars@.skip(from as int);
    let mut i: usize = from;
    loop
        invariant
            from <= i <= chars.len(),
            rest == chars@.skip(from as int),
            match find(chars@.skip(i as int), pattern@) {
                Some(at) => find(rest, pattern@) == Some((at + i - from) as nat),
                None => find(rest, pattern@) is None,
            },
        decreases chars.len() - i,
    {
        if stands_at(chars, i, pattern) {
            return Some(i);
        }
        if i == chars.len() {
            return None;
        }
        assert(chars@.skip(i as int).skip(1) =~= chars@.skip(i + 1));
        i = i + 1;
    }
}

/// Whether a string begins with a pattern.
pub fn text_starts_with(text: &str, pattern: &str) -> (starts: bool)
    ensures
        starts == starts_with(text@, pattern@),
{
    assert(text@.skip(0) =~= text@);
    stands_at(&chars_of(text), 0, &chars_of(pattern))
}

/// Whether a string ends with a pattern.
pub fn text_ends_with(text: &str, pattern: &str) -> (ends: bool)
    ensures
        ends == ends_with(text@, pattern@),
{
    let chars = chars_of(text);
    let tail = chars_of(pattern);
    if chars.len() < tail.len() {
        return false;
    }
    let start: usize = chars.len() - tail.len();
    let ghost rest = chars@.skip(start as int);
    assert(rest.take(tail@.len() as int) =~= rest);
    stands_at(&chars, start, &tail)
}

/// The position of a pattern's first occurrence, in characters.
pub fn find_text(text: &str, pattern: &str) -> (found: Option<usize>)
    ensures
        match found {
            Some(at) => find(text@, pattern@) == Some(at as nat) && at + pattern@.len()
                <= text@.len(),
            None => find(text@, pattern@) is None,
        },
{
    assert(text@.skip(0) =~= text@);
    find_from(&chars_of(text), 0, &chars_of(pattern))
}

/// Whether a pattern occurs in a string.
pub fn text_contains(text: &str, pattern: &str) -> (found: bool)
    ensures
        found == contains(text@, pattern@),
{
    find_text(text, pattern).is_some()
}

/// The text behind a prefix.
pub fn strip_text_prefix(text: &str, prefix: &str) -> (rest: Option<String>)
    ensures
        match rest {
            Some(rest) => starts_with(text@, prefix@) && rest@ == text@.skip(prefix@.len() as int),
            None => !starts_with(text@, prefix@),
        },
{
    if !text_starts_with(text, prefix) {
        return None;
    }
    let chars = chars_of(text);
    let start: usize = prefix.unicode_len();
    assert(chars@.subrange(start as int, chars@.len() as int) =~= text@.skip(prefix@.len() as int));
    Some(text_of(&chars, start, chars.len()))
}

/// The pieces of a text between the occurrences of a separator, taken from
/// the left and without overlap.
pub open spec fn split_on(text: Seq<char>, separator: Seq<char>) -> Seq<Seq<char>>
    decreases text.len(),
{
    match find(text, separator) {
        Some(at) => {
            if 0 < separator.len() && at + separator.len() <= text.len() {
                seq![text.take(at as int)] + split_on(
                    text.skip((at + separator.len()) as int),
                    separator,
                )
            } else {
                seq![text]
            }
        },
        None => seq![text],
    }
}

/// Splits a string at a separator.
pub fn split_text(text: &str, separator: &str) -> (pieces: Vec<String>)
    requires
        separator@.len() > 0,
    ensures
        chars::texts(pieces@) == split_on(text@, separator@),
{
    let chars = chars_of(text);
    let pattern = chars_of(separator);
    let ghost all = chars@;
    let mut out: Vec<String> = Vec::new();
    let mut i: usize = 0;
    assert(all.skip(0) =~= all);
    assert(chars::texts(out@) + split_on(all, pattern@) =~= split_on(all, pattern@));
    loop
        invariant_except_break
            chars@ == all,
            pattern@.len() > 0,
            i <= chars.len(),
            chars::texts(out@) + split_on(all.skip(i as int), pattern@) == split_on(all, pattern@),
        ensures
            chars::texts(out@) == split_on(all, pattern@),
        decreases chars.len() - i,
    {
        let ghost rest = all.skip(i as int);
        match find_from(&chars, i, &pattern) {
            Some(at) => {
                let piece = text_of(&chars, i, at);
                assert(piece@ =~= rest.take(at - i));
                let next: usize = at + pattern.len();
                assert(rest.skip(next - i) =~= all.skip(next as int));
                proof {
                    chars::lemma_texts_push(out@, piece);
                    let after = split_on(all.skip(next as int), pattern@);
                    assert(chars::texts(out@).push(piece@) + after =~= chars::texts(out@) + (seq![piece@]
                        + after));
                }
                out.push(piece);
                i = next;
            },
            None => {
                let piece = text_of(&chars, i, chars.len());
                assert(piece@ =~= rest);
                proof {
                    chars::lemma_texts_push(out@, piece);
                    assert(chars::texts(out@) + seq![rest] =~= chars::texts(out@).push(rest));
                }
                out.push(piece);
                break;
            },
        }
    }
    out
}

/// The texts one behind another, with a separator between each two.
pub open spec fn join(parts: Seq<Seq<char>>, separator: Seq<char>) -> Seq<char>
    decreases parts.len(),
{
    if parts.len() == 0 {
        Seq::empty()
    } else if parts.len() == 1 {
        parts[0]
    } else {
        join(parts.drop_last(), separator) + separator + parts.last()
    }
}

/// Joins strings with a separator.
pub fn join_texts(parts: &Vec<String>, separator: &str) -> (text: String)
    ensures
        text@ == join(chars::texts(parts@), separator@),
{
    let ghost all = chars::texts(parts@);
    let mut text = String::new();
    let mut i: usize = 0;
    assert(text@ =~= join(all.take(0), separator@));
    while i < parts.len()
        invariant
            all == chars::texts(parts@),
            i <= parts.len(),
            text@ == join(all.take(i as int), separator@),
        decreases parts.len() - i,
    {
        assert(all.take(i + 1).drop_last() =~= all.take(i as int));
        if i > 0 {
            text.append(separator);
        }
        let ghost before = text@;
        text.append(parts[i].as_str());
        if i == 0 {
            assert(before + all[0] =~= all[0]);
        }
        i = i + 1;
    }
    assert(all.take(all.len() as int) =~= all);
    text
}

/// What is joined of at least two texts starts with the first of them.
pub proof fn lemma_join_first(parts: Seq<Seq<char>>, separator: Seq<char>)
    requires
        parts.len() >= 2,
    ensures
        join(parts, separator) == parts[0] + separator + join(parts.skip(1), separator),
    decreases parts.len(),
{
    let init = parts.drop_last();
    if parts.len() == 2 {
        assert(init[0] == parts[0]);
        assert(parts.skip(1)[0] == parts.last());
        assert(join(init, separator) == parts[0]);
        assert(join(parts.skip(1), separator) == parts.last());
    } else {
        lemma_join_first(init, separator);
        assert(init.skip(1) =~= parts.skip(1).drop_last());
        assert(parts.skip(1).last() == parts.last());
        let middle = join(init.skip(1), separator);
        assert(join(parts.skip(1), separator) == middle + separator + parts.last());
        assert(join(parts, separator) =~= parts[0] + separator + (middle + separator
            + parts.last()));
    }
}

/// Joining is done piece by piece.
pub proof fn lemma_join_concat(
    left: Seq<Seq<char>>,
    right: Seq<Seq<char>>,
    separator: Seq<char>,
)
    requires
        left.len() > 0,
        right.len() > 0,
    ensures
        join(left + right, separator) == join(left, separator) + separator + join(right, separator),
    decreases right.len(),
{
    let all = left + right;
    if right.len() == 1 {
        assert(all.drop_last() =~= left);
    } else {
        let init = right.drop_last();
        assert(all.drop_last() =~= left + init);
        lemma_join_concat(left, init, separator);
        assert(join(all, separator) =~= join(left, separator) + separator + (join(init, separator)
            + separator + right.last()));
    }
}

proof fn lemma_find_space(text: Seq<char>, rest: Seq<char>)
    requires
        !text.contains(' '),
    ensures
        find(text, " "@) is None,
        find(text + " "@ + rest, " "@) == Some(text.len()),
    decreases text.len(),
{
    reveal_strlit(" ");
    let space = " "@;
    assert(space =~= seq![' ']);
    let all = text + space + rest;
    if text.len() == 0 {
        assert(all.take(1) =~= space);
        assert(starts_with(all, space));
    } else {
        assert(text.contains(text[0]));
        assert(text.take(1)[0] == text[0]);
        assert(all.take(1)[0] == text[0]);
        assert(!starts_with(text, space));
        assert(!starts_with(all, space));
        assert forall|c: char| text.skip(1).contains(c) implies text.contains(c) by {
            let i = choose|i: int| 0 <= i < text.skip(1).len() && text.skip(1)[i] == c;
            assert(text[i + 1] == c);
        }
        lemma_find_space(text.skip(1), rest);
        assert(all.skip(1) =~= text.skip(1) + space + rest);
    }
}

/// Texts without spaces that are joined by spaces come apart again at them.
pub proof fn split_undoes_join(parts: Seq<Seq<char>>)
    requires
        parts.len() > 0,
        forall|i: int| 0 <= i < parts.len() ==> !(#[trigger] parts[i]).contains(' '),
    ensures
        split_on(join(parts, " "@), " "@) == parts,
    decreases parts.len(),
{
    reveal_strlit(" ");
    let space = " "@;
    assert(!parts[0].contains(' '));
    if parts.len() == 1 {
        lemma_find_space(parts[0], Seq::empty());
        assert(split_on(parts[0], space) =~= parts);
    } else {
        let rest = parts.skip(1);
        lemma_join_first(parts, space);
        lemma_find_space(parts[0], join(rest, space));
        assert forall|i: int| 0 <= i < rest.len() implies !(#[trigger] rest[i]).contains(' ') by {
            assert(rest[i] == parts[i + 1]);
        }
        split_undoes_join(rest);
        let text = join(parts, space);
        assert(text.take(parts[0].len() as int) =~= parts[0]);
        assert(text.skip((parts[0].len() + 1) as int) =~= join(rest, space));
        assert(seq![parts[0]] + rest =~= parts);
    }
}

/// Joining puts every part into the text, in order, with the separator between
/// each two and nothing else: one more part makes the text longer by the
/// separator and the part.
pub proof fn joining_adds_part_by_part(
    parts: Seq<Seq<char>>,
    part: Seq<char>,
    separator: Seq<char>,
)
    ensures
        join(Seq::empty(), separator).len() == 0,
        join(seq![part], separator) == part,
        parts.len() > 0 ==> join(parts.push(part), separator) == join(parts, separator) + separator
            + part,
{
    assert(parts.push(part).drop_last() =~= parts);
}

/// A text contains a pattern where the pattern stands somewhere in it, and only
/// there.
pub proof fn containing_is_standing_somewhere(text: Seq<char>, pattern: Seq<char>)
    ensures
        contains(text, pattern) <==> exists|at: int|
            0 <= at && at + pattern.len() <= text.len() && #[trigger] text.subrange(
                at,
                at + pattern.len(),
            ) == pattern,
{
    lemma_find(text, pattern);
    match find(text, pattern) {
        Some(at) => {
            assert(text.subrange(at as int, at as int + pattern.len()) == pattern);
        },
        None => {
            assert forall|at: int|
                0 <= at && at + pattern.len() <= text.len() && #[trigger] text.subrange(
                    at,
                    at + pattern.len(),
                ) == pattern implies false by {
                assert(!starts_with(text.skip(at), pattern));
                assert(text.skip(at).take(pattern.len() as int) =~= text.subrange(
                    at,
                    at + pattern.len(),
                ));
            }
        },
    }
}

/// Splitting a text and joining the pieces gives the text back, and no piece
/// holds the separator.
pub proof fn join_undoes_split(text: Seq<char>, separator: Seq<char>)
    requires
        separator.len() > 0,
    ensures
        split_on(text, separator).len() > 0,
        join(split_on(text, separator), separator) == text,
        forall|i: int|
            0 <= i < split_on(text, separator).len() ==> !contains(
                #[trigger] split_on(text, separator)[i],
                separator,
            ),
    decreases text.len(),
{
    let pieces = split_on(text, separator);
    lemma_find(text, separator);
    match find(text, separator) {
        Some(at) => {
            let at = at as int;
            let head = text.take(at);
            let rest = text.skip(at + separator.len());
            join_undoes_split(rest, separator);
            let later = split_on(rest, separator);
            assert(pieces == seq![head] + later);
            assert(pieces.skip(1) =~= later);
            lemma_join_first(pieces, separator);
            assert(text =~= head + text.subrange(at, at + separator.len()) + rest);
            lemma_nothing_before(text, separator, at);
            assert forall|i: int| 0 <= i < pieces.len() implies !contains(
                #[trigger] pieces[i],
                separator,
            ) by {
                if i > 0 {
                    assert(pieces[i] == later[i - 1]);
                } else {
                    assert(pieces[0] == head);
                }
            }
        },
        None => {
            assert(pieces == seq![text]);
        },
    }
}

/// What stands before the first occurrence of a pattern does not hold it.
pub proof fn lemma_nothing_before(text: Seq<char>, pattern: Seq<char>, at: int)
    requires
        pattern.len() > 0,
        0 <= at <= text.len(),
        forall|i: int| 0 <= i < at ==> !starts_with(#[trigger] text.skip(i), pattern),
    ensures
        !contains(text.take(at), pattern),
{
    let head = text.take(at);
    lemma_find(head, pattern);
    if let Some(place) = find(head, pattern) {
        let place = place as int;
        assert(!starts_with(text.skip(place), pattern));
        assert(text.skip(place).take(pattern.len() as int) =~= head.subrange(
            place,
            place + pattern.len(),
        ));
    }
}

/// A pattern is found where its first character stands for the first time, if it
/// stands there; and not at all where that character is missing.
pub proof fn found_at_the_first_character(
    before: Seq<char>,
    pattern: Seq<char>,
    rest: Seq<char>,
)
    requires
        pattern.len() > 0,
        !before.contains(pattern[0]),
    ensures
        find(before, pattern) is None,
        find(before + pattern + rest, pattern) == Some(before.len()),
    decreases before.len(),
{
    let all = before + pattern + rest;
    if before.len() == 0 {
        assert(all.take(pattern.len() as int) =~= pattern);
    } else {
        assert(before.contains(before[0]));
        if starts_with(all, pattern) {
            assert(all.take(pattern.len() as int)[0] == before[0]);
        }
        if starts_with(before, pattern) {
            assert(before.take(pattern.len() as int)[0] == before[0]);
        }
        assert(!before.skip(1).contains(pattern[0])) by {
            if before.skip(1).contains(pattern[0]) {
                let i = choose|i: int|
                    0 <= i < before.skip(1).len() && before.skip(1)[i] == pattern[0];
                assert(before[i + 1] == pattern[0]);
            }
        }
        found_at_the_first_character(before.skip(1), pattern, rest);
        assert(all.skip(1) =~= before.skip(1) + pattern + rest);
    }
}

/// Each part stands in the joined text.
pub proof fn lemma_joined_part(parts: Seq<Seq<char>>, separator: Seq<char>, index: int)
    requires
        0 <= index < parts.len(),
    ensures
        exists|at: int|
            0 <= at && at + parts[index].len() <= join(parts, separator).len()
                && #[trigger] join(parts, separator).subrange(at, at + parts[index].len())
                == parts[index],
    decreases parts.len(),
{
    let part = parts[index];
    let all = join(parts, separator);
    if parts.len() == 1 {
        assert(all.subrange(0, 0int + part.len()) =~= part);
    } else if index == parts.len() - 1 {
        let at = all.len() - part.len();
        assert(all.subrange(at, at + part.len()) =~= part);
    } else {
        let init = parts.drop_last();
        lemma_joined_part(init, separator, index);
        let head = join(init, separator);
        let at = choose|at: int|
            0 <= at && at + part.len() <= head.len() && #[trigger] head.subrange(
                at,
                at + part.len(),
            ) == part;
        assert(all.subrange(at, at + part.len()) =~= head.subrange(at, at + part.len()));
    }
}

} // verus!
