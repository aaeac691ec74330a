//! The names of a line's members, one by one. What a document holds of members
//! that share a name is the last of them alone; which names were repeated shows
//! in the line itself.

use vstd::prelude::*;

use super::members;
use super::members::{missing, optional_text_of_member, text_of_member};
use crate::json;
use crate::json::{decode_text, DocumentView, FieldView};
use crate::text::chars;
use crate::text::chars::{chars_of, same_text};
use crate::text::search;

verus! {

/// What is known of a line after some of its characters.
#[verifier::ext_equal]
pub struct Reading {
    /// How many objects and lists are open.
    pub depth: nat,
    /// Whether a string is open, and whether its next character is escaped.
    pub quoted: bool,
    pub escaped: bool,
    /// Whether the outermost value is an object.
    pub object: bool,
    /// Whether a string in the outermost value is the name of a member.
    pub naming: bool,
    /// The string that is open, as far as it was read.
    pub token: Seq<char>,
    /// The names of the outermost object's members, as they are written.
    pub names: Seq<Seq<char>>,
}

/// What is known of a line before its first character.
pub open spec fn unread() -> Reading {
    Reading {
        depth: 0,
        quoted: false,
        escaped: false,
        object: false,
        naming: false,
        token: Seq::empty(),
        names: Seq::empty(),
    }
}

/// What is known after one more character of a string that is open.
pub open spec fn after_quoted(before: Reading, c: char) -> Reading {
    let token = before.token.push(c);
    if before.escaped {
        Reading { escaped: false, token, ..before }
    } else if c == '\\' {
        Reading { escaped: true, token, ..before }
    } else if c == '"' {
        Reading {
            quoted: false,
            token: Seq::empty(),
            names: if before.depth == 1 && before.naming {
                before.names.push(token)
            } else {
                before.names
            },
            ..before
        }
    } else {
        Reading { token, ..before }
    }
}

/// What is known after one more character.
pub open spec fn after(before: Reading, c: char) -> Reading {
    if before.quoted {
        after_quoted(before, c)
    } else if c == '"' {
        Reading { quoted: true, token: seq!['"'], ..before }
    } else if c == '{' || c == '[' {
        if before.depth == 0 {
            Reading { depth: 1, object: c == '{', naming: c == '{', ..before }
        } else {
            Reading { depth: before.depth + 1, ..before }
        }
    } else if c == '}' || c == ']' {
        Reading {
            depth: if before.depth > 0 {
                (before.depth - 1) as nat
            } else {
                0
            },
            ..before
        }
    } else if before.depth == 1 && c == ':' {
        Reading { naming: false, ..before }
    } else if before.depth == 1 && c == ',' {
        Reading { naming: before.object, ..before }
    } else {
        before
    }
}

/// What is known after some more characters.
pub open spec fn read_on(before: Reading, text: Seq<char>) -> Reading
    decreases text.len(),
{
    if text.len() == 0 {
        before
    } else {
        after(read_on(before, text.drop_last()), text.last())
    }
}

/// Whether a line holds an object.
pub open spec fn holds_object(line: Seq<char>) -> bool {
    read_on(unread(), line).object
}

/// The names of the members of the object that a line holds, as they are
/// written.
pub open spec fn names_in(line: Seq<char>) -> Seq<Seq<char>> {
    read_on(unread(), line).names
}

/// How many of some written names are a name.
pub open spec fn times_named(names: Seq<Seq<char>>, name: Seq<char>) -> nat
    decreases names.len(),
{
    if names.len() == 0 {
        0
    } else {
        times_named(names.drop_last(), name) + (if json::json_as_text(names.last()) == Ok::<
            Seq<char>,
            Seq<char>,
        >(name) {
            1nat
        } else {
            0nat
        })
    }
}

/// The reason why a name must not be repeated.
pub open spec fn duplicate_reason(name: Seq<char>) -> Seq<char> {
    "duplicate field `"@ + name + "`"@
}

/// What is wrong where one member, and no more, has to have a name.
pub open spec fn required_once(names: Seq<Seq<char>>, name: Seq<char>) -> Option<Seq<char>> {
    if times_named(names, name) == 0 {
        Some(members::missing_reason(name))
    } else {
        at_most_once(names, name)
    }
}

/// What is wrong where no two members may have a name.
pub open spec fn at_most_once(names: Seq<Seq<char>>, name: Seq<char>) -> Option<Seq<char>> {
    if times_named(names, name) > 1 {
        Some(duplicate_reason(name))
    } else {
        None
    }
}

/// The names of members as they are written.
pub open spec fn written_names(members: Seq<(Seq<char>, FieldView)>) -> Seq<Seq<char>> {
    Seq::new(members.len(), |i: int| json::quoted(members[i].0))
}

struct Reader {
    depth: usize,
    quoted: bool,
    escaped: bool,
    object: bool,
    naming: bool,
    token: String,
    names: Vec<String>,
}

impl View for Reader {
    type V = Reading;

    closed spec fn view(&self) -> Reading {
        Reading {
            depth: self.depth as nat,
            quoted: self.quoted,
            escaped: self.escaped,
            object: self.object,
            naming: self.naming,
            token: self.token@,
            names: chars::texts(self.names@),
        }
    }
}

impl Reader {
    fn new() -> (reader: Self)
        ensures
            reader@ == unread(),
    {
        let reader = Reader {
            depth: 0,
            quoted: false,
            escaped: false,
            object: false,
            naming: false,
            token: String::new(),
            names: Vec::new(),
        };
        assert(reader@ =~= unread());
        reader
    }

    fn take_quoted(&mut self, c: char)
        ensures
            final(self)@ == after_quoted(old(self)@, c),
            final(self).depth == old(self).depth,
    {
        self.token.push(c);
        if self.escaped {
            self.escaped = false;
        } else if c == '\\' {
            self.escaped = true;
        } else if c == '"' {
            self.quoted = false;
            let ghost names = self.names@;
            if self.depth == 1 && self.naming {
                let name = self.token.clone();
                proof {
                    chars::lemma_texts_push(names, name);
                }
                self.names.push(name);
            }
            self.token = String::new();
            assert(self.token@ =~= Seq::<char>::empty());
        }
    }

    fn take(&mut self, c: char)
        requires
            old(self).depth < usize::MAX,
        ensures
            final(self)@ == after(old(self)@, c),
            final(self).depth <= old(self).depth + 1,
    {
        if self.quoted {
            self.take_quoted(c);
        } else if c == '"' {
            self.quoted = true;
            self.token = String::new();
            self.token.push('"');
            assert(self.token@ =~= seq!['"']);
        } else if c == '{' || c == '[' {
            if self.depth == 0 {
                self.object = c == '{';
                self.naming = c == '{';
            }
            self.depth = self.depth + 1;
        } else if c == '}' || c == ']' {
            if self.depth > 0 {
                self.depth = self.depth - 1;
            }
        } else if self.depth == 1 && c == ':' {
            self.naming = false;
        } else if self.depth == 1 && c == ',' {
            self.naming = self.object;
        }
    }
}

/// Finds the names of the members of the object that a line holds, as they are
/// written. A line that holds no object has none.
pub fn member_names(line: &str) -> (names: Option<Vec<String>>)
    ensures
        match names {
            Some(names) => holds_object(line@) && chars::texts(names@) == names_in(line@),
            None => !holds_object(line@),
        },
{
    let all = chars_of(line);
    let mut reader = Reader::new();
    let mut i: usize = 0;
    assert(line@.take(0) =~= Seq::<char>::empty());
    while i < all.len()
        invariant
            all@ == line@,
            i <= all@.len(),
            reader.depth <= i,
            reader@ == read_on(unread(), line@.take(i as int)),
        decreases all@.len() - i,
    {
        assert(line@.take(i + 1).drop_last() =~= line@.take(i as int));
        assert(line@.take(i + 1).last() == line@[i as int]);
        reader.take(all[i]);
        i = i + 1;
    }
    assert(line@.take(line@.len() as int) =~= line@);
    if reader.object {
        Some(reader.names)
    } else {
        None
    }
}

fn times(names: &Vec<String>, name: &str) -> (count: usize)
    ensures
        count == times_named(chars::texts(names@), name@),
        forall|k: int, value: Seq<char>|
            0 <= k < names@.len() && #[trigger] json::quoted(value) == (#[trigger] names@[k])@
                ==> json::json_as_text(names@[k]@) == Ok::<Seq<char>, Seq<char>>(value),
{
    let ghost all = chars::texts(names@);
    let mut count: usize = 0;
    let mut i: usize = 0;
    assert(all.take(0) =~= Seq::<Seq<char>>::empty());
    while i < names.len()
        invariant
            all == chars::texts(names@),
            i <= names@.len(),
            count <= i,
            count == times_named(all.take(i as int), name@),
            forall|k: int, value: Seq<char>|
                0 <= k < i && #[trigger] json::quoted(value) == (#[trigger] names@[k])@
                    ==> json::json_as_text(names@[k]@) == Ok::<Seq<char>, Seq<char>>(value),
        decreases names@.len() - i,
    {
        assert(all.take(i + 1).drop_last() =~= all.take(i as int));
        assert(all.take(i + 1).last() == names@[i as int]@);
        if let Ok(text) = decode_text(names[i].as_str()) {
            if same_text(text.as_str(), name) {
                count = count + 1;
            }
        }
        i = i + 1;
    }
    assert(all.take(all.len() as int) =~= all);
    count
}

fn duplicate(name: &str) -> (reason: String)
    ensures
        reason@ == duplicate_reason(name@),
{
    let mut reason = "duplicate field `".to_owned();
    reason.append(name);
    reason.append("`");
    reason
}

/// Whether names are those that some members, no two of one name, were written
/// with.
pub open spec fn are_written(
    names: Seq<Seq<char>>,
    members: Seq<(Seq<char>, FieldView)>,
) -> bool {
    json::distinct_names(members) && names == written_names(members)
}

fn check_required(names: &Vec<String>, name: &str) -> (error: Option<String>)
    ensures
        chars::optional_text(error) == required_once(chars::texts(names@), name@),
        forall|members: Seq<(Seq<char>, FieldView)>, index: int|
            #[trigger] are_written(chars::texts(names@), members) && 0 <= index < members.len()
                && (#[trigger] members[index]).0 == name@ ==> error is None,
{
    let count: usize = times(names, name);
    proof {
        assert forall|members: Seq<(Seq<char>, FieldView)>, index: int|
            #[trigger] are_written(chars::texts(names@), members) && 0 <= index < members.len()
                && (#[trigger] members[index]).0 == name@ implies count == 1 by {
            lemma_written_once(names@, members, name@);
            lemma_named(chars::texts(names@), name@, index);
        }
    }
    if count == 0 {
        Some(missing(name))
    } else if count > 1 {
        Some(duplicate(name))
    } else {
        None
    }
}

fn check_single(names: &Vec<String>, name: &str) -> (error: Option<String>)
    ensures
        chars::optional_text(error) == at_most_once(chars::texts(names@), name@),
        forall|members: Seq<(Seq<char>, FieldView)>|
            #[trigger] are_written(chars::texts(names@), members) ==> error is None,
{
    let count: usize = times(names, name);
    proof {
        assert forall|members: Seq<(Seq<char>, FieldView)>| #[trigger]
            are_written(chars::texts(names@), members) implies count <= 1 by {
            lemma_written_once(names@, members, name@);
        }
    }
    if count > 1 {
        Some(duplicate(name))
    } else {
        None
    }
}

/// The text in the one member with a name.
pub open spec fn text_once(
    names: Seq<Seq<char>>,
    members: Seq<(Seq<char>, Seq<char>)>,
    name: Seq<char>,
) -> Result<Seq<char>, Seq<char>> {
    match required_once(names, name) {
        Some(error) => Err(error),
        None => members::required_text(members, name),
    }
}

/// Reads the text in the one member with a name. What was written there is
/// read back as it was.
pub fn text_of_one(names: &Vec<String>, members: &Vec<(String, String)>, name: &str) -> (text:
    Result<String, String>)
    ensures
        match text {
            Ok(text) => text_once(chars::texts(names@), json::raw_members(members@), name@) == Ok::<
                Seq<char>,
                Seq<char>,
            >(text@),
            Err(error) => text_once(chars::texts(names@), json::raw_members(members@), name@)
                == Err::<Seq<char>, Seq<char>>(error@),
        },
        forall|all: Seq<(Seq<char>, FieldView)>, index: int|
            #[trigger] are_written(chars::texts(names@), all) && json::raw_members(members@)
                == json::written(all) && 0 <= index < all.len() && (#[trigger] all[index]).0
                == name@ && all[index].1 is Text ==> text is Ok && text->Ok_0@
                == all[index].1->Text_0,
{
    proof {
        assert forall|all: Seq<(Seq<char>, FieldView)>, index: int|
            #[trigger] are_written(chars::texts(names@), all) && json::raw_members(members@)
                == json::written(all) && 0 <= index < all.len() && (#[trigger] all[index]).0
                == name@ && all[index].1 is Text implies json::lookup(
            json::raw_members(members@),
            name@,
        ) == Some(json::quoted(all[index].1->Text_0)) by {
            json::lemma_lookup_written(all, index);
        }
    }
    match check_required(names, name) {
        Some(error) => Err(error),
        None => text_of_member(members, name),
    }
}

/// The text in a member that may be absent or `null`, but not repeated.
pub open spec fn optional_text_once(
    names: Seq<Seq<char>>,
    members: Seq<(Seq<char>, Seq<char>)>,
    name: Seq<char>,
) -> Result<Option<Seq<char>>, Seq<char>> {
    match at_most_once(names, name) {
        Some(error) => Err(error),
        None => members::optional_text_in(members, name),
    }
}

/// Reads the text in a member that may be absent or `null`, but not repeated.
pub fn optional_text_of_one(
    names: &Vec<String>,
    members: &Vec<(String, String)>,
    name: &str,
) -> (text: Result<Option<String>, String>)
    ensures
        match text {
            Ok(text) => optional_text_once(
                chars::texts(names@),
                json::raw_members(members@),
                name@,
            ) == Ok::<Option<Seq<char>>, Seq<char>>(chars::optional_text(text)),
            Err(error) => optional_text_once(
                chars::texts(names@),
                json::raw_members(members@),
                name@,
            ) == Err::<Option<Seq<char>>, Seq<char>>(error@),
        },
        forall|all: Seq<(Seq<char>, FieldView)>, index: int|
            #[trigger] are_written(chars::texts(names@), all) && json::raw_members(members@)
                == json::written(all) && 0 <= index < all.len() && (#[trigger] all[index]).0
                == name@ && all[index].1 is Text ==> text is Ok && chars::optional_text(text->Ok_0)
                == Some(all[index].1->Text_0),
        forall|all: Seq<(Seq<char>, FieldView)>|
            #[trigger] are_written(chars::texts(names@), all) && json::raw_members(members@)
                == json::written(all) && (forall|index: int|
                0 <= index < all.len() ==> (#[trigger] all[index]).0 != name@) ==> text is Ok
                && text->Ok_0 is None,
{
    proof {
        assert forall|all: Seq<(Seq<char>, FieldView)>, index: int|
            #[trigger] are_written(chars::texts(names@), all) && json::raw_members(members@)
                == json::written(all) && 0 <= index < all.len() && (#[trigger] all[index]).0
                == name@ && all[index].1 is Text implies json::lookup(
            json::raw_members(members@),
            name@,
        ) == Some(json::quoted(all[index].1->Text_0)) by {
            json::lemma_lookup_written(all, index);
        }
        assert forall|all: Seq<(Seq<char>, FieldView)>|
            #[trigger] are_written(chars::texts(names@), all) && json::raw_members(members@)
                == json::written(all) && (forall|index: int|
                0 <= index < all.len() ==> (#[trigger] all[index]).0 != name@) implies json::lookup(
            json::raw_members(members@),
            name@,
        ) is None by {
            let raw = json::written(all);
            assert forall|i: int| 0 <= i < raw.len() implies (#[trigger] raw[i]).0 != name@ by {
                assert(all[i].0 != name@);
            }
            json::the_first_with_a_name_is_found(raw, name@, raw.len() as int);
        }
    }
    match check_single(names, name) {
        Some(error) => Err(error),
        None => optional_text_of_member(members, name),
    }
}

/// The members of a document, where it is an object.
pub open spec fn members_in(document: DocumentView) -> Seq<(Seq<char>, Seq<char>)> {
    match document {
        DocumentView::Object(members) => members,
        _ => Seq::empty(),
    }
}

proof fn lemma_named(names: Seq<Seq<char>>, name: Seq<char>, index: int)
    requires
        0 <= index < names.len(),
        json::json_as_text(names[index]) == Ok::<Seq<char>, Seq<char>>(name),
    ensures
        times_named(names, name) > 0,
    decreases names.len(),
{
    if index < names.len() - 1 {
        lemma_named(names.drop_last(), name, index);
    }
}

proof fn lemma_at_most_once(names: Seq<Seq<char>>, name: Seq<char>)
    requires
        forall|i: int, j: int|
            0 <= i < j < names.len() && json::json_as_text(#[trigger] names[i]) == Ok::<
                Seq<char>,
                Seq<char>,
            >(name) ==> json::json_as_text(#[trigger] names[j]) != Ok::<Seq<char>, Seq<char>>(name),
    ensures
        times_named(names, name) <= 1,
    decreases names.len(),
{
    if names.len() > 0 {
        let before = names.drop_last();
        lemma_at_most_once(before, name);
        if json::json_as_text(names.last()) == Ok::<Seq<char>, Seq<char>>(name) {
            lemma_never(before, name);
        }
    }
}

proof fn lemma_never(names: Seq<Seq<char>>, name: Seq<char>)
    requires
        forall|i: int|
            0 <= i < names.len() ==> json::json_as_text(#[trigger] names[i]) != Ok::<
                Seq<char>,
                Seq<char>,
            >(name),
    ensures
        times_named(names, name) == 0,
    decreases names.len(),
{
    if names.len() > 0 {
        lemma_never(names.drop_last(), name);
    }
}

proof fn lemma_written_once(
    names: Seq<String>,
    members: Seq<(Seq<char>, FieldView)>,
    name: Seq<char>,
)
    requires
        are_written(chars::texts(names), members),
        forall|k: int, value: Seq<char>|
            0 <= k < names.len() && #[trigger] json::quoted(value) == (#[trigger] names[k])@
                ==> json::json_as_text(names[k]@) == Ok::<Seq<char>, Seq<char>>(value),
    ensures
        times_named(chars::texts(names), name) <= 1,
        forall|i: int|
            0 <= i < members.len() ==> json::json_as_text(#[trigger] chars::texts(names)[i]) == Ok::<
                Seq<char>,
                Seq<char>,
            >(members[i].0),
{
    let all = chars::texts(names);
    assert(all.len() == names.len());
    assert(all.len() == members.len());
    assert forall|i: int| 0 <= i < members.len() implies json::json_as_text(#[trigger] all[i])
        == Ok::<Seq<char>, Seq<char>>(members[i].0) by {
        assert(all[i] == written_names(members)[i]);
        assert(names[i]@ == json::quoted(members[i].0));
    }
    assert forall|i: int, j: int|
        0 <= i < j < all.len() && json::json_as_text(#[trigger] all[i]) == Ok::<
            Seq<char>,
            Seq<char>,
        >(name) implies json::json_as_text(#[trigger] all[j]) != Ok::<Seq<char>, Seq<char>>(
        name,
    ) by {
        assert(members[i].0 != members[j].0);
    }
    lemma_at_most_once(all, name);
}

proof fn lemma_read_on(before: Reading, left: Seq<char>, right: Seq<char>)
    ensures
        read_on(before, left + right) == read_on(read_on(before, left), right),
    decreases right.len(),
{
    if right.len() == 0 {
        assert(left + right =~= left);
    } else {
        lemma_read_on(before, left, right.drop_last());
        assert((left + right).drop_last() =~= left + right.drop_last());
        assert((left + right).last() == right.last());
    }
}

proof fn lemma_read_one(before: Reading, c: char)
    ensures
        read_on(before, seq![c]) == after(before, c),
{
    assert(seq![c].drop_last() =~= Seq::<char>::empty());
    assert(read_on(before, Seq::<char>::empty()) == before);
}

proof fn lemma_read_two(before: Reading, c: char, d: char)
    ensures
        read_on(before, seq![c, d]) == after(after(before, c), d),
{
    lemma_read_on(before, seq![c], seq![d]);
    lemma_read_one(before, c);
    lemma_read_one(after(before, c), d);
    assert(seq![c] + seq![d] =~= seq![c, d]);
}

/// A character inside a string is read as it is escaped, and ends nothing.
proof fn lemma_read_escaped(before: Reading, c: char)
    requires
        before.quoted,
        !before.escaped,
    ensures
        read_on(before, json::escaped(c)) == (Reading {
            token: before.token + json::escaped(c),
            ..before
        }),
{
    let all = json::escaped(c);
    let code = c as int;
    if all.len() == 1 {
        lemma_read_one(before, c);
        assert(before.token.push(c) =~= before.token + all);
    } else if all.len() == 2 {
        lemma_read_two(before, '\\', all[1]);
        assert(all =~= seq!['\\', all[1]]);
        assert(before.token.push('\\').push(all[1]) =~= before.token + all);
    } else {
        let high = json::hex_digit(code / 16);
        let low = json::hex_digit(code % 16);
        assert(code < 0x20);
        assert(high as int >= '0' as int && high != '\\');
        assert(low as int >= '0' as int && low != '\\');
        let first = after(after(before, '\\'), 'u');
        let second = after(after(first, '0'), '0');
        lemma_read_two(before, '\\', 'u');
        lemma_read_two(first, '0', '0');
        lemma_read_two(second, high, low);
        lemma_read_on(before, seq!['\\', 'u'], seq!['0', '0']);
        lemma_read_on(before, seq!['\\', 'u'] + seq!['0', '0'], seq![high, low]);
        assert(seq!['\\', 'u'] + seq!['0', '0'] + seq![high, low] =~= all);
        assert(before.token.push('\\').push('u').push('0').push('0').push(high).push(low)
            =~= before.token + all);
    }
}

proof fn lemma_read_escaped_text(before: Reading, text: Seq<char>)
    requires
        before.quoted,
        !before.escaped,
    ensures
        read_on(before, json::escaped_text(text)) == (Reading {
            token: before.token + json::escaped_text(text),
            ..before
        }),
    decreases text.len(),
{
    if text.len() == 0 {
        assert(before.token + json::escaped_text(text) =~= before.token);
    } else {
        let rest = json::escaped_text(text.drop_last());
        lemma_read_escaped_text(before, text.drop_last());
        lemma_read_on(before, rest, json::escaped(text.last()));
        lemma_read_escaped(read_on(before, rest), text.last());
        assert(before.token + rest + json::escaped(text.last()) =~= before.token
            + json::escaped_text(text));
    }
}

proof fn lemma_read_quoted(before: Reading, text: Seq<char>)
    requires
        !before.quoted,
        !before.escaped,
        before.token.len() == 0,
    ensures
        read_on(before, json::quoted(text)) == (Reading {
            names: if before.depth == 1 && before.naming {
                before.names.push(json::quoted(text))
            } else {
                before.names
            },
            ..before
        }),
{
    let open = after(before, '"');
    let inner = json::escaped_text(text);
    lemma_read_one(before, '"');
    lemma_read_escaped_text(open, text);
    lemma_read_on(before, seq!['"'], inner);
    lemma_read_on(before, seq!['"'] + inner, seq!['"']);
    lemma_read_one(read_on(open, inner), '"');
    assert((seq!['"'] + inner).push('"') =~= json::quoted(text));
    assert(before.token =~= Seq::<char>::empty());
}

proof fn lemma_read_field(before: Reading, field: FieldView)
    requires
        !before.quoted,
        !before.escaped,
        before.token.len() == 0,
        before.depth == 1,
        !before.naming,
    ensures
        read_on(before, json::field_text(field)) == before,
{
    match field {
        FieldView::Text(text) => {
            lemma_read_quoted(before, text);
        },
        FieldView::Null => {
            reveal_strlit("null");
            lemma_read_plain(before, "null"@);
        },
        FieldView::Flag(flag) => {
            reveal_strlit("true");
            reveal_strlit("false");
            lemma_read_plain(before, json::field_text(field));
        },
    }
}

proof fn lemma_read_plain(before: Reading, text: Seq<char>)
    requires
        !before.quoted,
        forall|i: int|
            0 <= i < text.len() ==> 'a' as int <= #[trigger] text[i] as int <= 'z' as int,
    ensures
        read_on(before, text) == before,
    decreases text.len(),
{
    if text.len() > 0 {
        let rest = text.drop_last();
        assert forall|i: int| 0 <= i < rest.len() implies 'a' as int <= #[trigger] rest[i] as int
            <= 'z' as int by {
            assert(rest[i] == text[i]);
        }
        lemma_read_plain(before, rest);
        let c = text.last();
        assert(text[text.len() - 1] == c);
    }
}

/// What is known of an object behind some of its members.
spec fn within(members: Seq<(Seq<char>, FieldView)>) -> Reading {
    Reading {
        depth: 1,
        object: true,
        naming: members.len() == 0,
        names: written_names(members),
        ..unread()
    }
}

proof fn lemma_read_member(before: Reading, member: (Seq<char>, FieldView))
    requires
        !before.quoted,
        !before.escaped,
        before.token.len() == 0,
        before.depth == 1,
        before.naming,
    ensures
        read_on(before, json::member_text(member)) == (Reading {
            naming: false,
            names: before.names.push(json::quoted(member.0)),
            ..before
        }),
{
    let name = json::quoted(member.0);
    reveal_strlit(":");
    assert(":"@ =~= seq![':']);
    lemma_read_quoted(before, member.0);
    lemma_read_on(before, name, ":"@);
    lemma_read_one(read_on(before, name), ':');
    lemma_read_on(before, name + ":"@, json::field_text(member.1));
    lemma_read_field(read_on(before, name + ":"@), member.1);
}

proof fn lemma_read_members(members: Seq<(Seq<char>, FieldView)>)
    ensures
        read_on(within(Seq::empty()), search::join(json::member_texts(members), ","@)) == within(
            members,
        ),
    decreases members.len(),
{
    let start = within(Seq::empty());
    let texts = json::member_texts(members);
    reveal_strlit(",");
    assert(","@ =~= seq![',']);
    if members.len() == 0 {
        assert(search::join(texts, ","@) =~= Seq::<char>::empty());
        assert(written_names(members) =~= written_names(Seq::empty()));
    } else {
        let before = members.drop_last();
        let last = members.last();
        lemma_read_members(before);
        assert(texts.drop_last() =~= json::member_texts(before));
        assert(texts.last() == json::member_text(last));
        assert(written_names(members) =~= written_names(before).push(json::quoted(last.0)));
        if members.len() == 1 {
            assert(search::join(texts, ","@) == json::member_text(last));
            assert(before =~= Seq::empty());
            lemma_read_member(start, last);
        } else {
            let joined = search::join(json::member_texts(before), ","@);
            lemma_read_on(start, joined, ","@);
            lemma_read_one(within(before), ',');
            lemma_read_on(start, joined + ","@, texts.last());
            lemma_read_member(after(within(before), ','), last);
        }
    }
}

/// An object that was written holds the names that it was written with, in
/// order.
pub proof fn written_names_are_read(members: Seq<(Seq<char>, FieldView)>)
    ensures
        holds_object(json::object_text(members)),
        names_in(json::object_text(members)) == written_names(members),
{
    let texts = json::member_texts(members);
    let inner = search::join(texts, ","@);
    reveal_strlit("{");
    reveal_strlit("}");
    assert("{"@ =~= seq!['{']);
    assert("}"@ =~= seq!['}']);
    lemma_read_one(unread(), '{');
    assert(after(unread(), '{') =~= within(Seq::empty()));
    lemma_read_members(members);
    lemma_read_on(unread(), "{"@, inner);
    lemma_read_on(unread(), "{"@ + inner, "}"@);
    lemma_read_one(within(members), '}');
}

/// A member that is given twice is refused by name, and so is a required one that
/// is not given.
pub proof fn repeated_and_missing_names_are_refused(
    names: Seq<Seq<char>>,
    members: Seq<(Seq<char>, Seq<char>)>,
    name: Seq<char>,
)
    ensures
        times_named(names, name) > 1 ==> {
            &&& text_once(names, members, name) matches Err(reason) && search::contains(reason, name)
            &&& optional_text_once(names, members, name) matches Err(reason) && search::contains(
                reason,
                name,
            )
        },
        times_named(names, name) == 0 ==> (text_once(names, members, name) matches Err(reason)
            && search::contains(reason, name)),
        times_named(names, name) == 1 ==> text_once(names, members, name) == members::required_text(
            members,
            name,
        ),
        times_named(names, name) <= 1 ==> optional_text_once(names, members, name)
            == members::optional_text_in(members, name),
{
    let twice = duplicate_reason(name);
    let at = "duplicate field `"@.len() as int;
    assert(twice.subrange(at, at + name.len()) =~= name);
    search::containing_is_standing_somewhere(twice, name);
    let missing = members::missing_reason(name);
    let from = "missing field `"@.len() as int;
    assert(missing.subrange(from, from + name.len()) =~= name);
    search::containing_is_standing_somewhere(missing, name);
}

} // verus!
