//! Characters and the conversions between strings and character vectors.

use vstd::prelude::*;

verus! {

/// Appends one character: `String::push` puts it at the end of the text.
pub assume_specification[ String::push ](text: &mut String, c: char)
    ensures
        final(text)@ == old(text)@.push(c),
;

/// Whether a character is one of ASCII.
pub open spec fn is_ascii(c: char) -> bool {
    (c as int) < 0x80
}

/// Whether a character is an upper case letter of ASCII.
pub open spec fn is_ascii_upper(c: char) -> bool {
    'A' as int <= c as int <= 'Z' as int
}

/// A character of ASCII in lower case.
pub open spec fn ascii_lower(c: char) -> char {
    if is_ascii_upper(c) {
        (c as int - 'A' as int + 'a' as int) as char
    } else {
        c
    }
}

/// What Unicode's `Uppercase` property says of a character beyond ASCII.
pub uninterp spec fn char_is_uppercase(c: char) -> bool;

/// Whether a character is in upper case.
pub open spec fn is_upper(c: char) -> bool {
    if is_ascii(c) {
        is_ascii_upper(c)
    } else {
        char_is_uppercase(c)
    }
}

/// `char::is_uppercase` is a function of the character alone. Of ASCII it holds
/// of `A` to `Z`; the property's table beyond is not written out.
pub assume_specification[ char::is_uppercase ](c: char) -> (upper: bool)
    ensures
        upper == (if is_ascii(c) {
            is_ascii_upper(c)
        } else {
            char_is_uppercase(c)
        }),
;

/// The lowercase form of a character beyond ASCII under Unicode's unconditional
/// mapping.
pub uninterp spec fn char_lowercase(c: char) -> Seq<char>;

/// The lowercase form of a character.
pub open spec fn lowercase_form(c: char) -> Seq<char> {
    if is_ascii(c) {
        seq![ascii_lower(c)]
    } else {
        char_lowercase(c)
    }
}

/// `char::to_lowercase` yields the characters that a character's lowercase
/// form consists of. Of ASCII it maps `A` to `Z` to `a` to `z` and leaves the
/// others; the mapping's table beyond is not written out.
#[verifier::external_body]
pub(crate) fn lowercase_of(c: char) -> (lower: String)
    ensures
        lower@ == (if is_ascii(c) {
            seq![ascii_lower(c)]
        } else {
            char_lowercase(c)
        }),
{
    c.to_lowercase().to_string()
}

/// Why bytes are not UTF-8.
pub uninterp spec fn utf8_error(bytes: Seq<u8>) -> Seq<char>;

/// Reads bytes that have to be UTF-8. `std::str::from_utf8` gives the text that
/// they encode, or an error where they encode none; what the error says is a
/// function of the bytes alone.
#[verifier::external_body]
pub(crate) fn utf8_text(bytes: &[u8]) -> (text: Result<String, String>)
    ensures
        match text {
            Ok(text) => vstd::utf8::valid_utf8(bytes@) && text@ == vstd::utf8::decode_utf8(bytes@),
            Err(error) => !vstd::utf8::valid_utf8(bytes@) && error@ == utf8_error(bytes@),
        },
{
    match std::str::from_utf8(bytes) {
        Ok(text) => Ok(text.to_owned()),
        Err(error) => Err(error.to_string()),
    }
}

/// The text that bytes are read as, whatever they hold.
pub uninterp spec fn lossy_text(bytes: Seq<u8>) -> Seq<char>;

/// Reads bytes as UTF-8. `String::from_utf8_lossy` puts replacement characters
/// in the place of what is not, and changes nothing of what is.
#[verifier::external_body]
pub(crate) fn text_of_bytes(bytes: &[u8]) -> (text: String)
    ensures
        text@ == lossy_text(bytes@),
        vstd::utf8::valid_utf8(bytes@) ==> text@ == vstd::utf8::decode_utf8(bytes@),
{
    String::from_utf8_lossy(bytes).into_owned()
}

/// The characters with Unicode's `White_Space` property.
pub open spec fn is_space(c: char) -> bool {
    let code = c as u32;
    ||| 0x09 <= code <= 0x0d
    ||| code == 0x20
    ||| code == 0x85
    ||| code == 0xa0
    ||| code == 0x1680
    ||| 0x2000 <= code <= 0x200a
    ||| code == 0x2028
    ||| code == 0x2029
    ||| code == 0x202f
    ||| code == 0x205f
    ||| code == 0x3000
}

/// Whether a character is white space.
pub fn char_is_space(c: char) -> (space: bool)
    ensures
        space == is_space(c),
{
    let code: u32 = c as u32;
    (0x09 <= code && code <= 0x0d) || code == 0x20 || code == 0x85 || code == 0xa0 || code == 0x1680
        || (0x2000 <= code && code <= 0x200a) || code == 0x2028 || code == 0x2029 || code == 0x202f
        || code == 0x205f || code == 0x3000
}

/// The texts of a sequence of strings.
pub open spec fn texts(strings: Seq<String>) -> Seq<Seq<char>> {
    Seq::new(strings.len(), |i: int| strings[i]@)
}

/// The text an optional string holds.
pub open spec fn optional_text(text: Option<String>) -> Option<Seq<char>> {
    match text {
        Some(text) => Some(text@),
        None => None,
    }
}

/// Pushing a string appends its text.
pub proof fn lemma_texts_push(strings: Seq<String>, string: String)
    ensures
        texts(strings.push(string)) == texts(strings).push(string@),
{
    assert(texts(strings.push(string)) =~= texts(strings).push(string@));
}

/// The characters of a string.
pub fn chars_of(text: &str) -> (chars: Vec<char>)
    ensures
        chars@ == text@,
{
    let mut chars: Vec<char> = Vec::new();
    for c in it: text.chars()
        invariant
            it.seq() == text@,
            chars@ == text@.take(it.index() as int),
    {
        chars.push(c);
        assert(text@.take(it.index() + 1) =~= text@.take(it.index() as int).push(c));
    }
    assert(text@.take(text@.len() as int) =~= text@);
    chars
}

/// The string of the characters from `from` up to, not including, `to`.
pub fn text_of(chars: &Vec<char>, from: usize, to: usize) -> (text: String)
    requires
        from <= to <= chars.len(),
    ensures
        text@ == chars@.subrange(from as int, to as int),
{
    let mut text = String::new();
    let mut i: usize = from;
    while i < to
        invariant
            from <= i <= to <= chars.len(),
            text@ == chars@.subrange(from as int, i as int),
        decreases to - i,
    {
        text.push(chars[i]);
        assert(chars@.subrange(from as int, i + 1) =~= chars@.subrange(from as int, i as int).push(
            chars@[i as int],
        ));
        i = i + 1;
    }
    text
}

/// Whether two strings hold the same text.
pub fn same_text(left: &str, right: &str) -> (same: bool)
    ensures
        same == (left@ == right@),
{
    left.to_owned() == right.to_owned()
}

/// How many characters a string has.
pub fn char_count(text: &str) -> (count: usize)
    ensures
        count == text@.len(),
{
    text.unicode_len()
}

/// Of ASCII, the letters from `A` to `Z` alone are in upper case, and lowering
/// changes them alone, each to its own small letter.
pub proof fn ascii_capitals_are_lowered(c: char)
    requires
        is_ascii(c),
    ensures
        is_upper(c) <==> 'A' <= c <= 'Z',
        lowercase_form(c).len() == 1,
        'A' <= c <= 'Z' ==> lowercase_form(c)[0] as int - 'a' as int == c as int - 'A' as int,
        !('A' <= c <= 'Z') ==> lowercase_form(c) == seq![c],
        is_ascii('~') && !is_ascii('\u{80}'),
{
}

/// Texts are viewed one by one, in order.
pub proof fn texts_keep_the_order(strings: Seq<String>, index: int)
    requires
        0 <= index < strings.len(),
    ensures
        texts(strings).len() == strings.len(),
        texts(strings)[index] == strings[index]@,
{
}

} // verus!
