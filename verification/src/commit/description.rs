//! The description of a commit, which starts in lower case.

use vstd::prelude::*;
use vstd::utf8;
use crate::text::words;
use crate::text::chars;

use crate::text::chars::{chars_of, lowercase_of, same_text};
use crate::text::words::words;

verus! {

/// Whether a word is an acronym or a name in mixed case: one with an upper
/// case letter behind its first character.
pub open spec fn has_inner_capital(word: Seq<char>) -> bool {
    exists|i: int| 1 <= i < word.len() && chars::is_upper(#[trigger] word[i])
}

/// Whether lowering the first character changes a description: it has a word,
/// the first word is no acronym, and the character has a lowercase form.
pub open spec fn is_lowered(value: Seq<char>) -> bool {
    &&& value.len() > 0
    &&& words::words_of(value).len() > 0
    &&& !has_inner_capital(words::words_of(value)[0])
    &&& chars::lowercase_form(value[0]) != seq![value[0]]
}

/// The characters that start at a byte offset.
pub open spec fn from_byte(value: Seq<char>, offset: int) -> Seq<char> {
    let bytes = utf8::encode_utf8(value);
    utf8::decode_utf8(bytes.subrange(offset, bytes.len() as int))
}

/// How many bytes the lowercase form of the first character takes.
pub open spec fn lowered_bytes(value: Seq<char>) -> int {
    utf8::encode_utf8(chars::lowercase_form(value[0])).len() as int
}

/// Whether a character starts behind as many bytes as the lowercase form of
/// the first character takes.
pub open spec fn lowers_cleanly(value: Seq<char>) -> bool {
    is_lowered(value) ==> utf8::is_char_boundary(utf8::encode_utf8(value), lowered_bytes(value))
}

/// The description with its first character in lower case. The lowercase form
/// takes the place of as many bytes as it is long itself.
pub open spec fn lowered(value: Seq<char>) -> Seq<char> {
    if is_lowered(value) {
        chars::lowercase_form(value[0]) + from_byte(value, lowered_bytes(value))
    } else {
        value
    }
}

fn inner_capital(word: &str) -> (found: bool)
    ensures
        found == has_inner_capital(word@),
{
    let chars = chars_of(word);
    let mut i: usize = 1;
    while i < chars.len()
        invariant
            chars@ == word@,
            1 <= i,
            forall|k: int| 1 <= k < i && k < chars.len() ==> !chars::is_upper(#[trigger] word@[k]),
        decreases chars.len() - i,
    {
        if chars[i].is_uppercase() {
            assert(chars::is_upper(word@[i as int]));
            return true;
        }
        i = i + 1;
    }
    false
}

/// The lowercase form that replaces the first character, where one does.
fn replacement(value: &str) -> (lower: Option<String>)
    ensures
        match lower {
            Some(lower) => is_lowered(value@) && lower@ == chars::lowercase_form(value@[0]),
            None => !is_lowered(value@),
        },
{
    let chars = chars_of(value);
    if chars.len() == 0 {
        return None;
    }
    let words = words(value);
    assert(chars::texts(words@).len() == words@.len());
    if words.len() == 0 {
        return None;
    }
    assert(chars::texts(words@)[0] == words@[0]@);
    if inner_capital(words[0].as_str()) {
        return None;
    }
    let lower = lowercase_of(chars[0]);
    let mut first = String::new();
    first.push(chars[0]);
    assert(first@ =~= seq![value@[0]]);
    if same_text(lower.as_str(), first.as_str()) {
        None
    } else {
        Some(lower)
    }
}

/// Lowers the first character of a description, unless its first word is an
/// acronym.
pub fn lowercase_first_char(value: &str) -> (out: String)
    requires
        lowers_cleanly(value@),
    ensures
        out@ == lowered(value@),
{
    match replacement(value) {
        None => value.to_owned(),
        Some(lower) => {
            let len: usize = lower.as_str().as_bytes().len();
            let (_, tail) = value.split_at(len);
            proof {
                vstd::utf8::encode_utf8_decode_utf8(tail@);
            }
            let mut out = lower;
            out.append(tail);
            out
        },
    }
}

/// Lowers the first character of a description where its lowercase form ends
/// at the boundary of a character, and returns nothing elsewhere.
pub fn checked_lowercase_first_char(value: &str) -> (out: Option<String>)
    ensures
        match out {
            Some(out) => lowers_cleanly(value@) && out@ == lowered(value@),
            None => !lowers_cleanly(value@),
        },
{
    match replacement(value) {
        None => Some(value.to_owned()),
        Some(lower) => {
            let len: usize = lower.as_str().as_bytes().len();
            if value.is_char_boundary(len) {
                Some(lowercase_first_char(value))
            } else {
                None
            }
        },
    }
}

/// A description is left as it is where its first word is an acronym or a name
/// in mixed case, where it has no word, and where its first character has no
/// other lowercase form.
pub proof fn names_are_left_alone(value: Seq<char>)
    requires
        value.len() == 0 || words::words_of(value).len() == 0 || has_inner_capital(
            words::words_of(value)[0],
        ) || chars::lowercase_form(value[0]) == seq![value[0]],
    ensures
        lowered(value) == value,
{
}

/// A description that starts with white space of ASCII is left as it is.
pub proof fn leading_blanks_are_left_alone(value: Seq<char>)
    requires
        value.len() > 0,
        chars::is_space(value[0]),
        chars::is_ascii(value[0]),
    ensures
        lowered(value) == value,
{
}

/// Where the first character keeps its length in bytes, it alone is replaced,
/// by its lowercase form.
pub proof fn only_the_first_character_is_lowered(value: Seq<char>)
    requires
        value.len() > 0,
        words::words_of(value).len() > 0,
        !has_inner_capital(words::words_of(value)[0]),
        lowered_bytes(value) == utf8::encode_utf8(seq![value[0]]).len(),
    ensures
        lowers_cleanly(value),
        lowered(value) == chars::lowercase_form(value[0]) + value.skip(1),
{
    let first = seq![value[0]];
    let bytes = utf8::encode_utf8(value);
    utf8::encode_utf8_valid_utf8(value);
    utf8::encode_utf8_first_scalar(value);
    let none = Seq::<char>::empty();
    assert(first.drop_first() =~= none);
    assert(utf8::encode_utf8(none) =~= Seq::<u8>::empty());
    assert(utf8::encode_utf8(first) =~= utf8::encode_scalar(value[0] as u32));
    assert(value.drop_first() =~= value.skip(1));
    assert(bytes.subrange(lowered_bytes(value), bytes.len() as int) =~= utf8::encode_utf8(
        value.skip(1),
    ));
    utf8::encode_utf8_decode_utf8(value.skip(1));
    utf8::encode_utf8_valid_utf8(value.skip(1));
    assert(utf8::pop_first_scalar(bytes) =~= utf8::encode_utf8(value.skip(1)));
    assert(utf8::is_char_boundary(utf8::pop_first_scalar(bytes), 0));
    assert(first + value.skip(1) =~= value);
}

/// A description that starts with an upper case letter of ASCII, in a word that
/// is no acronym, starts with the lower case letter in its place.
pub proof fn an_ascii_capital_is_lowered(value: Seq<char>)
    requires
        value.len() > 0,
        chars::is_ascii_upper(value[0]),
        words::words_of(value).len() > 0,
        !has_inner_capital(words::words_of(value)[0]),
    ensures
        lowers_cleanly(value),
        lowered(value) == seq![chars::ascii_lower(value[0])] + value.skip(1),
{
    let first = seq![value[0]];
    let lower = seq![chars::ascii_lower(value[0])];
    let none = Seq::<char>::empty();
    assert(utf8::encode_utf8(none) =~= Seq::<u8>::empty());
    assert(first.drop_first() =~= none);
    assert(lower.drop_first() =~= none);
    assert(utf8::encode_utf8(first).len() == 1);
    assert(utf8::encode_utf8(lower).len() == 1);
    only_the_first_character_is_lowered(value);
}

/// Lowering a description twice is lowering it once. Beyond ASCII this takes a
/// first character whose lowercase form starts with a character that is its own
/// lowercase form.
pub proof fn lowering_twice_is_lowering_once(value: Seq<char>)
    requires
        value.len() > 0 && !chars::is_ascii(value[0]) ==> chars::lowercase_form(value[0]).len() > 0
            && chars::lowercase_form(chars::lowercase_form(value[0])[0]) == seq![
            chars::lowercase_form(value[0])[0],
        ],
    ensures
        lowered(lowered(value)) == lowered(value),
{
    if is_lowered(value) {
        assert(lowered(value)[0] == chars::lowercase_form(value[0])[0]);
    }
}

/// A capital behind the first letter of the first word marks a name, which keeps
/// its capitals; without one an ASCII capital at the start is lowered, alone.
pub proof fn inner_capitals_mark_names(value: Seq<char>, index: int)
    requires
        words::words_of(value).len() > 0,
    ensures
        1 <= index < words::words_of(value)[0].len() && chars::is_upper(
            words::words_of(value)[0][index],
        ) ==> lowered(value) == value,
        value.len() > 0 && chars::is_ascii_upper(value[0]) && (forall|i: int|
            1 <= i < words::words_of(value)[0].len() ==> !chars::is_upper(
                #[trigger] words::words_of(value)[0][i],
            )) ==> lowered(value) == seq![chars::ascii_lower(value[0])] + value.skip(1),
{
    let word = words::words_of(value)[0];
    if 1 <= index < word.len() && chars::is_upper(word[index]) {
        assert(has_inner_capital(word));
    }
    if value.len() > 0 && chars::is_ascii_upper(value[0]) && !has_inner_capital(word) {
        an_ascii_capital_is_lowered(value);
    }
}

} // verus!
