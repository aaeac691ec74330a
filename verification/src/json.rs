//! JSON texts: objects written member by member, and documents read one level
//! deep, each value of an object or a list kept as its own JSON text.

use vstd::prelude::*;
use vstd::utf8;

use crate::text::chars;
use crate::text::search;
use crate::text::search::join_texts;

verus! {

/// A hexadecimal digit.
pub open spec fn hex_digit(n: int) -> char {
    if 0 <= n < 10 {
        (n + '0' as int) as char
    } else {
        (n - 10 + 'a' as int) as char
    }
}

/// How a character is written inside a JSON string.
pub open spec fn escaped(c: char) -> Seq<char> {
    let code = c as int;
    if c == '"' {
        seq!['\\', '"']
    } else if c == '\\' {
        seq!['\\', '\\']
    } else if code == 0x08 {
        seq!['\\', 'b']
    } else if code == 0x09 {
        seq!['\\', 't']
    } else if code == 0x0a {
        seq!['\\', 'n']
    } else if code == 0x0c {
        seq!['\\', 'f']
    } else if code == 0x0d {
        seq!['\\', 'r']
    } else if code < 0x20 {
        seq!['\\', 'u', '0', '0', hex_digit(code / 16), hex_digit(code % 16)]
    } else {
        seq![c]
    }
}

/// A text as it is written inside a JSON string.
pub open spec fn escaped_text(text: Seq<char>) -> Seq<char>
    decreases text.len(),
{
    if text.len() == 0 {
        Seq::empty()
    } else {
        escaped_text(text.drop_last()) + escaped(text.last())
    }
}

/// A text as a JSON string.
pub open spec fn quoted(text: Seq<char>) -> Seq<char> {
    seq!['"'] + escaped_text(text) + seq!['"']
}

/// Writes a text as a JSON string. `serde_json::to_string` of a `str` puts it
/// between quotation marks, escapes quotation marks, backslashes and control
/// characters, and leaves every other character as it is; it never fails.
#[verifier::external_body]
pub(crate) fn quote(text: &str) -> (json: String)
    ensures
        json@ == quoted(text@),
{
    serde_json::to_string(text).expect("a string has a JSON form")
}

/// A value to write.
pub enum Field {
    Null,
    Flag(bool),
    Text(String),
}

/// A value to write, as text.
pub enum FieldView {
    Null,
    Flag(bool),
    Text(Seq<char>),
}

impl View for Field {
    type V = FieldView;

    open spec fn view(&self) -> FieldView {
        match *self {
            Field::Null => FieldView::Null,
            Field::Flag(flag) => FieldView::Flag(flag),
            Field::Text(text) => FieldView::Text(text@),
        }
    }
}

/// The value of an optional text.
pub open spec fn optional_field(text: Option<Seq<char>>) -> FieldView {
    match text {
        Some(text) => FieldView::Text(text),
        None => FieldView::Null,
    }
}

/// A value as JSON.
pub open spec fn field_text(field: FieldView) -> Seq<char> {
    match field {
        FieldView::Null => "null"@,
        FieldView::Flag(true) => "true"@,
        FieldView::Flag(false) => "false"@,
        FieldView::Text(text) => quoted(text),
    }
}

/// A member of an object as JSON.
pub open spec fn member_text(member: (Seq<char>, FieldView)) -> Seq<char> {
    quoted(member.0) + ":"@ + field_text(member.1)
}

/// The members of an object as JSON, without the braces.
pub open spec fn member_texts(members: Seq<(Seq<char>, FieldView)>) -> Seq<Seq<char>> {
    Seq::new(members.len(), |i: int| member_text(members[i]))
}

/// An object as JSON, on one line and without blanks.
pub open spec fn object_text(members: Seq<(Seq<char>, FieldView)>) -> Seq<char> {
    "{"@ + search::join(member_texts(members), ","@) + "}"@
}

/// Whether no two members share a name.
pub open spec fn distinct_names(members: Seq<(Seq<char>, FieldView)>) -> bool {
    forall|i: int, j: int|
        0 <= i < j < members.len() ==> (#[trigger] members[i]).0 != (#[trigger] members[j]).0
}

/// The members of an object, each value as JSON.
pub open spec fn written(members: Seq<(Seq<char>, FieldView)>) -> Seq<(Seq<char>, Seq<char>)> {
    Seq::new(members.len(), |i: int| (members[i].0, field_text(members[i].1)))
}

/// The members to write, as texts.
pub open spec fn member_views(members: Seq<(&str, Field)>) -> Seq<(Seq<char>, FieldView)> {
    Seq::new(members.len(), |i: int| (members[i].0@, members[i].1@))
}

fn field_json(field: &Field) -> (json: String)
    ensures
        json@ == field_text(field@),
{
    match field {
        Field::Null => "null".to_owned(),
        Field::Flag(flag) => if *flag {
            "true".to_owned()
        } else {
            "false".to_owned()
        },
        Field::Text(text) => quote(text.as_str()),
    }
}

/// Writes an object on one line.
pub fn object_line(members: &Vec<(&str, Field)>) -> (line: String)
    ensures
        line@ == object_text(member_views(members@)),
{
    let ghost all = member_texts(member_views(members@));
    let mut texts: Vec<String> = Vec::new();
    let mut i: usize = 0;
    while i < members.len()
        invariant
            all == member_texts(member_views(members@)),
            i <= members.len(),
            texts@.len() == i,
            forall|k: int| 0 <= k < i ==> (#[trigger] texts@[k])@ == all[k],
        decreases members.len() - i,
    {
        let mut member = quote(members[i].0);
        member.append(":");
        member.append(field_json(&members[i].1).as_str());
        texts.push(member);
        i = i + 1;
    }
    assert(chars::texts(texts@) =~= all);
    let mut line = "{".to_owned();
    line.append(join_texts(&texts, ",").as_str());
    line.append("}");
    line
}

/// Whether a text holds no control character, a line feed among them.
pub open spec fn is_printable(text: Seq<char>) -> bool {
    forall|i: int| 0 <= i < text.len() ==> #[trigger] text[i] as int >= 0x20
}

proof fn lemma_printable_concat(left: Seq<char>, right: Seq<char>)
    requires
        is_printable(left),
        is_printable(right),
    ensures
        is_printable(left + right),
{
    let all = left + right;
    assert forall|i: int| 0 <= i < all.len() implies #[trigger] all[i] as int >= 0x20 by {
        if i < left.len() {
            assert(all[i] == left[i]);
        } else {
            assert(all[i] == right[i - left.len()]);
        }
    }
}

proof fn lemma_escape_printable(c: char)
    ensures
        is_printable(escaped(c)),
{
    let code = c as int;
    let all = escaped(c);
    if code < 0x20 {
        assert(hex_digit(code / 16) as int >= 0x20);
        assert(hex_digit(code % 16) as int >= 0x20);
    }
    assert forall|i: int| 0 <= i < all.len() implies #[trigger] all[i] as int >= 0x20 by {
        assert(i == 0 || i == 1 || i == 2 || i == 3 || i == 4 || i == 5);
    }
}

proof fn lemma_escaped_printable(text: Seq<char>)
    ensures
        is_printable(escaped_text(text)),
    decreases text.len(),
{
    if text.len() > 0 {
        lemma_escaped_printable(text.drop_last());
        lemma_escape_printable(text.last());
        lemma_printable_concat(escaped_text(text.drop_last()), escaped(text.last()));
    }
}

/// A JSON string holds no control character.
pub proof fn quoted_is_printable(text: Seq<char>)
    ensures
        is_printable(quoted(text)),
{
    lemma_escaped_printable(text);
    lemma_printable_concat(seq!['"'], escaped_text(text));
    lemma_printable_concat(seq!['"'] + escaped_text(text), seq!['"']);
}

proof fn lemma_join_printable(parts: Seq<Seq<char>>, separator: Seq<char>)
    requires
        is_printable(separator),
        forall|i: int| 0 <= i < parts.len() ==> is_printable(#[trigger] parts[i]),
    ensures
        is_printable(search::join(parts, separator)),
    decreases parts.len(),
{
    if parts.len() > 1 {
        let before = parts.drop_last();
        assert forall|i: int| 0 <= i < before.len() implies is_printable(#[trigger] before[i]) by {
            assert(before[i] == parts[i]);
        }
        lemma_join_printable(before, separator);
        lemma_printable_concat(search::join(before, separator), separator);
        lemma_printable_concat(search::join(before, separator) + separator, parts.last());
    }
}

/// An object is written on a single line.
pub proof fn object_is_one_line(members: Seq<(Seq<char>, FieldView)>)
    ensures
        is_printable(object_text(members)),
        !object_text(members).contains('\n'),
{
    let texts = member_texts(members);
    reveal_strlit("null");
    reveal_strlit("true");
    reveal_strlit("false");
    reveal_strlit(":");
    reveal_strlit(",");
    reveal_strlit("{");
    reveal_strlit("}");
    assert forall|i: int| 0 <= i < texts.len() implies is_printable(#[trigger] texts[i]) by {
        let member = members[i];
        quoted_is_printable(member.0);
        match member.1 {
            FieldView::Text(text) => quoted_is_printable(text),
            _ => {},
        }
        lemma_printable_concat(quoted(member.0), ":"@);
        lemma_printable_concat(quoted(member.0) + ":"@, field_text(member.1));
    }
    lemma_join_printable(texts, ","@);
    let inner = search::join(texts, ","@);
    lemma_printable_concat("{"@, inner);
    lemma_printable_concat("{"@ + inner, "}"@);
}

/// A document that was read.
#[derive(Debug)]
pub enum Document {
    /// The members of an object: names, and values as JSON.
    Object(Vec<(String, String)>),
    /// The items of a list, as JSON.
    List(Vec<String>),
    /// Any other value, as JSON.
    Scalar(String),
}

/// A document as texts.
#[verifier::ext_equal]
pub enum DocumentView {
    Object(Seq<(Seq<char>, Seq<char>)>),
    List(Seq<Seq<char>>),
    Scalar(Seq<char>),
}

/// Members as texts.
pub open spec fn raw_members(members: Seq<(String, String)>) -> Seq<(Seq<char>, Seq<char>)> {
    Seq::new(members.len(), |i: int| (members[i].0@, members[i].1@))
}

impl View for Document {
    type V = DocumentView;

    open spec fn view(&self) -> DocumentView {
        match *self {
            Document::Object(members) => DocumentView::Object(raw_members(members@)),
            Document::List(items) => DocumentView::List(chars::texts(items@)),
            Document::Scalar(json) => DocumentView::Scalar(json@),
        }
    }
}

/// Whether the first member of an object does not have the name by which
/// `serde_json` tells a raw value from an object.
pub open spec fn is_plain(members: Seq<(Seq<char>, FieldView)>) -> bool {
    members.len() > 0 ==> members[0].0 != "$serde_json::private::RawValue"@
}

/// A short name marks no raw value.
pub proof fn lemma_short_name(name: Seq<char>)
    requires
        name.len() < 30,
    ensures
        name != "$serde_json::private::RawValue"@,
{
    reveal_strlit("$serde_json::private::RawValue");
}

/// The document that bytes hold, or what is wrong with them.
pub uninterp spec fn json_document(message: Seq<u8>) -> Result<DocumentView, Seq<char>>;

/// Reads a document. What `serde_json::from_slice` makes of the bytes is a
/// function of them alone. An object that was written on one line, its names
/// distinct, is read back member by member, in order, with or without a line
/// feed behind it. That is not so of an object whose first name is the one that
/// the crate marks raw values with.
#[verifier::external_body]
pub(crate) fn parse_document(message: &[u8]) -> (document: Result<Document, String>)
    ensures
        match document {
            Ok(document) => json_document(message@) == Ok::<DocumentView, Seq<char>>(document@),
            Err(reason) => json_document(message@) == Err::<DocumentView, Seq<char>>(reason@),
        },
        forall|members: Seq<(Seq<char>, FieldView)>|
            distinct_names(members) && is_plain(members) && (message@ == utf8::encode_utf8(
                #[trigger] object_text(members),
            ) || message@ == utf8::encode_utf8(object_text(members).push('\n'))) ==> document is Ok
                && document->Ok_0@ == DocumentView::Object(written(members)),
{
    match serde_json::from_slice::<serde_json::Value>(message).map_err(|err| err.to_string())? {
        serde_json::Value::Object(members) => Ok(
            Document::Object(
                members.into_iter().map(|(name, value)| (name, value.to_string())).collect(),
            ),
        ),
        serde_json::Value::Array(items) => Ok(
            Document::List(items.into_iter().map(|item| item.to_string()).collect()),
        ),
        value => Ok(Document::Scalar(value.to_string())),
    }
}

/// The text that a JSON value is, or what is wrong with it.
pub uninterp spec fn json_as_text(json: Seq<char>) -> Result<Seq<char>, Seq<char>>;

/// Reads a value as a text, which `serde_json::from_value::<String>` does of
/// strings alone.
#[verifier::external_body]
pub(crate) fn decode_text(json: &str) -> (text: Result<String, String>)
    ensures
        match text {
            Ok(text) => json_as_text(json@) == Ok::<Seq<char>, Seq<char>>(text@),
            Err(reason) => json_as_text(json@) == Err::<Seq<char>, Seq<char>>(reason@),
        },
        forall|value: Seq<char>|
            #[trigger] quoted(value) == json@ ==> text is Ok && text->Ok_0@ == value,
{
    serde_json::from_str::<serde_json::Value>(json).and_then(
        serde_json::from_value::<String>,
    ).map_err(|err| err.to_string())
}

/// The flag that a JSON value is, or what is wrong with it.
pub uninterp spec fn json_as_flag(json: Seq<char>) -> Result<bool, Seq<char>>;

/// Reads a value as a flag, which `serde_json::from_value::<bool>` does of
/// `true` and `false` alone.
#[verifier::external_body]
pub(crate) fn decode_flag(json: &str) -> (flag: Result<bool, String>)
    ensures
        match flag {
            Ok(flag) => json_as_flag(json@) == Ok::<bool, Seq<char>>(flag),
            Err(reason) => json_as_flag(json@) == Err::<bool, Seq<char>>(reason@),
        },
        json@ == "true"@ ==> flag is Ok && flag->Ok_0,
        json@ == "false"@ ==> flag is Ok && !flag->Ok_0,
{
    serde_json::from_str::<serde_json::Value>(json).and_then(
        serde_json::from_value::<bool>,
    ).map_err(|err| err.to_string())
}

/// The optional text that a JSON value is, or what is wrong with it.
pub uninterp spec fn json_as_optional_text(json: Seq<char>) -> Result<
    Option<Seq<char>>,
    Seq<char>,
>;

/// Reads a value as an optional text, which
/// `serde_json::from_value::<Option<String>>` does of strings and `null`.
#[verifier::external_body]
pub(crate) fn decode_optional_text(json: &str) -> (text: Result<Option<String>, String>)
    ensures
        match text {
            Ok(text) => json_as_optional_text(json@) == Ok::<Option<Seq<char>>, Seq<char>>(
                chars::optional_text(text),
            ),
            Err(reason) => json_as_optional_text(json@) == Err::<Option<Seq<char>>, Seq<char>>(
                reason@,
            ),
        },
        json@ == "null"@ ==> text is Ok && text->Ok_0 is None,
        forall|value: Seq<char>|
            #[trigger] quoted(value) == json@ ==> text is Ok && chars::optional_text(text->Ok_0)
                == Some(value),
{
    serde_json::from_str::<serde_json::Value>(json).and_then(
        serde_json::from_value::<Option<String>>,
    ).map_err(|err| err.to_string())
}

/// The optional path that a JSON value is, or what is wrong with it.
pub uninterp spec fn json_as_optional_path(json: Seq<char>) -> Result<
    Option<Seq<char>>,
    Seq<char>,
>;

/// Reads a value as an optional path, which
/// `serde_json::from_value::<Option<PathBuf>>` does of strings and `null`.
#[verifier::external_body]
pub(crate) fn decode_optional_path(json: &str) -> (path: Result<Option<String>, String>)
    ensures
        match path {
            Ok(path) => json_as_optional_path(json@) == Ok::<Option<Seq<char>>, Seq<char>>(
                chars::optional_text(path),
            ),
            Err(reason) => json_as_optional_path(json@) == Err::<Option<Seq<char>>, Seq<char>>(
                reason@,
            ),
        },
        json@ == "null"@ ==> path is Ok && path->Ok_0 is None,
        forall|value: Seq<char>|
            #[trigger] quoted(value) == json@ ==> path is Ok && chars::optional_text(path->Ok_0)
                == Some(value),
{
    serde_json::from_str::<serde_json::Value>(json).and_then(
        serde_json::from_value::<Option<std::path::PathBuf>>,
    ).map(|path| path.map(|path| path.to_string_lossy().into_owned())).map_err(
        |err| err.to_string(),
    )
}

/// The value of the first member with a name.
pub open spec fn lookup(members: Seq<(Seq<char>, Seq<char>)>, name: Seq<char>) -> Option<Seq<char>>
    decreases members.len(),
{
    if members.len() == 0 {
        None
    } else if members[0].0 == name {
        Some(members[0].1)
    } else {
        lookup(members.skip(1), name)
    }
}

/// The value of the first member with a name, of an object.
pub open spec fn member_of(document: DocumentView, name: Seq<char>) -> Option<Seq<char>> {
    match document {
        DocumentView::Object(members) => lookup(members, name),
        _ => None,
    }
}

/// Finds the value of a member, as JSON.
pub fn find_member<'a>(members: &'a Vec<(String, String)>, name: &str) -> (json: Option<&'a String>)
    ensures
        match json {
            Some(json) => lookup(raw_members(members@), name@) == Some(json@),
            None => lookup(raw_members(members@), name@) is None,
        },
{
    let ghost all = raw_members(members@);
    let mut i: usize = 0;
    assert(all.skip(0) =~= all);
    while i < members.len()
        invariant
            all == raw_members(members@),
            i <= members.len(),
            lookup(all, name@) == lookup(all.skip(i as int), name@),
        decreases members.len() - i,
    {
        assert(all.skip(i as int).skip(1) =~= all.skip(i + 1));
        assert(all.skip(i as int)[0] == (members@[i as int].0@, members@[i as int].1@));
        if chars::same_text(members[i].0.as_str(), name) {
            return Some(&members[i].1);
        }
        i = i + 1;
    }
    None
}

impl Document {
    /// Finds the value of a member, as JSON.
    pub fn member(&self, name: &str) -> (json: Option<&String>)
        ensures
            match json {
                Some(json) => member_of(self@, name@) == Some(json@),
                None => member_of(self@, name@) is None,
            },
    {
        match self {
            Document::Object(members) => find_member(members, name),
            _ => None,
        }
    }
}

/// A member that is found under its name among distinct ones.
pub proof fn lemma_lookup_written(members: Seq<(Seq<char>, FieldView)>, index: int)
    requires
        distinct_names(members),
        0 <= index < members.len(),
    ensures
        lookup(written(members), members[index].0) == Some(field_text(members[index].1)),
    decreases members.len(),
{
    let raw = written(members);
    let rest = members.skip(1);
    assert(raw[0].0 == members[0].0);
    assert(raw.skip(1) =~= written(rest));
    if index > 0 {
        assert(members[0].0 != members[index].0);
        assert(rest[index - 1] == members[index]);
        assert forall|i: int, j: int| 0 <= i < j < rest.len() implies (#[trigger] rest[i]).0 != (
        #[trigger] rest[j]).0 by {
            assert(rest[i] == members[i + 1]);
            assert(rest[j] == members[j + 1]);
        }
        lemma_lookup_written(rest, index - 1);
    }
}

/// The text of a member of a document, where it has one that is a string.
pub open spec fn text_member(document: DocumentView, name: Seq<char>) -> Option<Seq<char>> {
    match member_of(document, name) {
        Some(json) => match json_as_text(json) {
            Ok(text) => Some(text),
            Err(_) => None,
        },
        None => None,
    }
}

impl Document {
    /// The text of a member, where there is one that is a string.
    pub fn text(&self, name: &str) -> (text: Option<String>)
        ensures
            chars::optional_text(text) == text_member(self@, name@),
    {
        match self.member(name) {
            Some(json) => match decode_text(json.as_str()) {
                Ok(text) => Some(text),
                Err(_) => None,
            },
            None => None,
        }
    }
}

/// Why a line could not be read.
#[derive(Debug, PartialEq, Eq)]
pub struct LineError {
    /// What is wrong with the line.
    pub reason: String,
}

/// A member is found by its name, the first of those that share one; and where
/// none has the name, none is found.
pub proof fn the_first_with_a_name_is_found(
    members: Seq<(Seq<char>, Seq<char>)>,
    name: Seq<char>,
    index: int,
)
    requires
        0 <= index <= members.len(),
        forall|i: int| 0 <= i < index ==> (#[trigger] members[i]).0 != name,
    ensures
        index < members.len() && members[index].0 == name ==> lookup(members, name) == Some(
            members[index].1,
        ),
        index == members.len() ==> lookup(members, name) is None,
    decreases index,
{
    if index > 0 {
        let rest = members.skip(1);
        assert forall|i: int| 0 <= i < index - 1 implies (#[trigger] rest[i]).0 != name by {
            assert(rest[i] == members[i + 1]);
        }
        if index < members.len() {
            assert(rest[index - 1] == members[index]);
        }
        assert(members[0].0 != name);
        the_first_with_a_name_is_found(rest, name, index - 1);
    }
}

/// A text is escaped character by character. Quotation marks and backslashes get
/// a backslash before them, control characters are written without themselves,
/// and every other character stays as it is.
pub proof fn characters_are_escaped_one_by_one(left: Seq<char>, c: char, right: Seq<char>)
    ensures
        escaped_text(left + right) == escaped_text(left) + escaped_text(right),
        escaped_text(seq![c]) == escaped(c),
        c as int >= 0x20 && c != '"' && c != '\\' ==> escaped(c) == seq![c],
        c == '"' || c == '\\' ==> escaped(c) == seq!['\\', c],
        c == '\n' ==> escaped(c) == seq!['\\', 'n'],
        (c as int) < 0x20 ==> escaped(c)[0] == '\\' && !escaped(c).contains(c),
    decreases right.len(),
{
    let none = Seq::<char>::empty();
    assert(seq![c].drop_last() =~= none);
    assert(escaped_text(none) =~= none);
    assert(escaped_text(seq![c]) =~= escaped(c));
    if c as int <= 0x1f {
        lemma_escape_printable(c);
        let text = escaped(c);
        if text.contains(c) {
            let i = choose|i: int| 0 <= i < text.len() && text[i] == c;
            assert(text[i] as int >= 0x20);
        }
    }
    if right.len() == 0 {
        assert(left + right =~= left);
        assert(escaped_text(right) =~= none);
        assert(escaped_text(left) + none =~= escaped_text(left));
    } else {
        let head = right.drop_last();
        characters_are_escaped_one_by_one(left, c, head);
        assert((left + right).drop_last() =~= left + head);
        assert((left + right).last() == right.last());
        assert(escaped_text(left) + escaped_text(head) + escaped(right.last()) =~= escaped_text(left)
            + (escaped_text(head) + escaped(right.last())));
    }
}

/// An object is written member by member, each name before its value.
pub proof fn objects_are_written_member_by_member(
    members: Seq<(Seq<char>, FieldView)>,
    member: (Seq<char>, FieldView),
)
    ensures
        object_text(Seq::empty()) == seq!['{', '}'],
        object_text(seq![member]) == seq!['{'] + quoted(member.0) + seq![':'] + field_text(member.1)
            + seq!['}'],
        members.len() > 0 ==> object_text(members.push(member)) == object_text(members).drop_last()
            + seq![','] + quoted(member.0) + seq![':'] + field_text(member.1) + seq!['}'],
        field_text(FieldView::Null) == "null"@,
        field_text(FieldView::Flag(true)) == "true"@,
        field_text(FieldView::Flag(false)) == "false"@,
{
    reveal_strlit("{");
    reveal_strlit("}");
    reveal_strlit(":");
    reveal_strlit(",");
    let none = Seq::<(Seq<char>, FieldView)>::empty();
    assert(member_texts(none) =~= Seq::empty());
    assert(object_text(none) =~= seq!['{', '}']);
    let one = member_text(member);
    assert(member_texts(seq![member]) =~= seq![one]);
    assert(search::join(seq![one], ","@) == one);
    assert(object_text(seq![member]) =~= seq!['{'] + quoted(member.0) + seq![':'] + field_text(
        member.1,
    ) + seq!['}']);
    if members.len() > 0 {
        let texts = member_texts(members);
        assert(member_texts(members.push(member)) =~= texts.push(one));
        search::joining_adds_part_by_part(texts, one, ","@);
        assert(object_text(members).drop_last() =~= seq!['{'] + search::join(texts, ","@));
        assert(object_text(members.push(member)) =~= object_text(members).drop_last() + seq![',']
            + quoted(member.0) + seq![':'] + field_text(member.1) + seq!['}']);
    }
}

/// An optional text is written as the text, and as nothing where there is none.
pub proof fn absent_texts_are_null(text: Seq<char>)
    ensures
        optional_field(Some(text)) == FieldView::Text(text),
        optional_field(None) == FieldView::Null,
        field_text(optional_field(Some(text))) == quoted(text),
        quoted(text).len() >= text.len() + 2,
    decreases text.len(),
{
    if text.len() > 0 {
        absent_texts_are_null(text.drop_last());
    }
}

} // verus!
