//! Reading the members of a message, each with the type its place asks for.

use vstd::prelude::*;
use vstd::utf8;

use super::close_action::CloseAction;
use crate::json;
use crate::json::{decode_flag, decode_optional_path, decode_optional_text, decode_text, find_member, parse_document, Document, DocumentView};
use crate::text::chars;
use crate::text::chars::same_text;
use crate::text::number;
use crate::text::number::decimal_text;
use crate::text::search;
use crate::text::search::text_ends_with;

verus! {

/// The messages whose members are read.
#[derive(Debug, Clone, Copy, PartialEq, Eq, Structural)]
pub enum Schema {
    CommitFix,
    CommitFixDone,
    CloseAction,
    CloseActionOutcome,
}

/// What the value of a member has to be.
#[derive(Debug, Clone, Copy, PartialEq, Eq, Structural)]
pub enum Kind {
    Text,
    Flag,
    OptionalText,
    OptionalPath,
    Action,
    /// Members that a message does not know are passed over.
    Any,
}

/// What the value of a member has to be, by its name.
pub open spec fn kind_of(schema: Schema, name: Seq<char>) -> Kind {
    match schema {
        Schema::CommitFix => if name == "instructions"@ || name == "tldr"@ || name == "why"@ || name
            == "what"@ {
            Kind::Text
        } else if name == "amend"@ {
            Kind::Flag
        } else if name == "cwd"@ {
            Kind::OptionalPath
        } else {
            Kind::Any
        },
        Schema::CommitFixDone => if name == "commit_message"@ {
            Kind::Text
        } else {
            Kind::Any
        },
        Schema::CloseAction => if name == "action"@ {
            Kind::Action
        } else {
            Kind::Any
        },
        Schema::CloseActionOutcome => if name == "action"@ {
            Kind::Action
        } else if name == "success"@ {
            Kind::Flag
        } else if name == "reason"@ {
            Kind::OptionalText
        } else {
            Kind::Any
        },
    }
}

fn kind(schema: Schema, name: &str) -> (kind: Kind)
    ensures
        kind == kind_of(schema, name@),
{
    match schema {
        Schema::CommitFix => if same_text(name, "instructions") || same_text(name, "tldr")
            || same_text(name, "why") || same_text(name, "what") {
            Kind::Text
        } else if same_text(name, "amend") {
            Kind::Flag
        } else if same_text(name, "cwd") {
            Kind::OptionalPath
        } else {
            Kind::Any
        },
        Schema::CommitFixDone => if same_text(name, "commit_message") {
            Kind::Text
        } else {
            Kind::Any
        },
        Schema::CloseAction => if same_text(name, "action") {
            Kind::Action
        } else {
            Kind::Any
        },
        Schema::CloseActionOutcome => if same_text(name, "action") {
            Kind::Action
        } else if same_text(name, "success") {
            Kind::Flag
        } else if same_text(name, "reason") {
            Kind::OptionalText
        } else {
            Kind::Any
        },
    }
}

/// What is wrong with a value that has to be `null`.
pub uninterp spec fn json_unit_error(json: Seq<char>) -> Option<Seq<char>>;

/// Reads a value as nothing, which `serde_json::from_value::<()>` does of
/// `null` alone.
#[verifier::external_body]
fn decode_unit(json: &str) -> (error: Option<String>)
    ensures
        chars::optional_text(error) == json_unit_error(json@),
        json@ == "null"@ ==> error is None,
{
    serde_json::from_str::<serde_json::Value>(json).and_then(
        serde_json::from_value::<()>,
    ).err().map(|err| err.to_string())
}

/// The action with a name.
pub open spec fn named_action(name: Seq<char>) -> Result<CloseAction, Seq<char>> {
    if name == "add"@ {
        Ok(CloseAction::Add)
    } else if name == "commit"@ {
        Ok(CloseAction::Commit)
    } else {
        Err("unknown variant `"@ + name + "`, expected `add` or `commit`"@)
    }
}

/// The reason why a value is no action, from the reason why it is no text.
pub open spec fn no_action_reason(no_text: Seq<char>) -> Seq<char> {
    if search::ends_with(no_text, "a string"@) {
        no_text.take(no_text.len() - 8) + "string or map"@
    } else {
        no_text
    }
}

/// The action that a JSON value is: a name, or an object whose one member has
/// that name and the value `null`.
pub open spec fn json_as_action(json: Seq<char>) -> Result<CloseAction, Seq<char>> {
    match json::json_as_text(json) {
        Ok(name) => named_action(name),
        Err(no_text) => match json::json_document(utf8::encode_utf8(json)) {
            Ok(DocumentView::Object(members)) => if members.len() == 1 {
                match named_action(members[0].0) {
                    Ok(action) => match json_unit_error(members[0].1) {
                        None => Ok(action),
                        Some(error) => Err(error),
                    },
                    Err(error) => Err(error),
                }
            } else {
                Err("invalid value: map, expected map with a single key"@)
            },
            _ => Err(no_action_reason(no_text)),
        },
    }
}

fn action_named(name: &str) -> (action: Result<CloseAction, String>)
    ensures
        match action {
            Ok(action) => named_action(name@) == Ok::<CloseAction, Seq<char>>(action),
            Err(reason) => named_action(name@) == Err::<CloseAction, Seq<char>>(reason@),
        },
{
    if same_text(name, "add") {
        Ok(CloseAction::Add)
    } else if same_text(name, "commit") {
        Ok(CloseAction::Commit)
    } else {
        let mut reason = "unknown variant `".to_owned();
        reason.append(name);
        reason.append("`, expected `add` or `commit`");
        Err(reason)
    }
}

fn decode_action(json: &str) -> (action: Result<CloseAction, String>)
    ensures
        match action {
            Ok(action) => json_as_action(json@) == Ok::<CloseAction, Seq<char>>(action),
            Err(reason) => json_as_action(json@) == Err::<CloseAction, Seq<char>>(reason@),
        },
        is_sound(Kind::Action, json@),
{
    match decode_text(json) {
        Ok(name) => action_named(name.as_str()),
        Err(no_text) => match parse_document(json.as_bytes()) {
            Ok(Document::Object(members)) => {
                assert(json::raw_members(members@).len() == members@.len());
                if members.len() == 1 {
                    match action_named(members[0].0.as_str()) {
                        Ok(action) => match decode_unit(members[0].1.as_str()) {
                            None => Ok(action),
                            Some(error) => Err(error),
                        },
                        Err(error) => Err(error),
                    }
                } else {
                    Err("invalid value: map, expected map with a single key".to_owned())
                }
            },
            _ => {
                if text_ends_with(no_text.as_str(), "a string") {
                    proof {
                        reveal_strlit("a string");
                    }
                    let chars = chars::chars_of(no_text.as_str());
                    let mut reason = chars::text_of(&chars, 0, chars.len() - 8);
                    assert(reason@ =~= no_text@.take(no_text@.len() - 8));
                    reason.append("string or map");
                    Err(reason)
                } else {
                    Err(no_text)
                }
            },
        },
    }
}

/// What is wrong with a value in the place of a kind.
pub open spec fn kind_error(kind: Kind, json: Seq<char>) -> Option<Seq<char>> {
    match kind {
        Kind::Text => match json::json_as_text(json) {
            Ok(_) => None,
            Err(reason) => Some(reason),
        },
        Kind::Flag => match json::json_as_flag(json) {
            Ok(_) => None,
            Err(reason) => Some(reason),
        },
        Kind::OptionalText => match json::json_as_optional_text(json) {
            Ok(_) => None,
            Err(reason) => Some(reason),
        },
        Kind::OptionalPath => match json::json_as_optional_path(json) {
            Ok(_) => None,
            Err(reason) => Some(reason),
        },
        Kind::Action => match json_as_action(json) {
            Ok(_) => None,
            Err(reason) => Some(reason),
        },
        Kind::Any => None,
    }
}

/// Whether a value that was written is read back as what it was.
pub open spec fn is_sound(kind: Kind, json: Seq<char>) -> bool {
    match kind {
        Kind::Text => forall|text: Seq<char>|
            #[trigger] json::quoted(text) == json ==> json::json_as_text(json) == Ok::<
                Seq<char>,
                Seq<char>,
            >(text),
        Kind::Flag => {
            &&& json == "true"@ ==> json::json_as_flag(json) == Ok::<bool, Seq<char>>(true)
            &&& json == "false"@ ==> json::json_as_flag(json) == Ok::<bool, Seq<char>>(false)
        },
        Kind::OptionalText => {
            &&& json == "null"@ ==> json::json_as_optional_text(json) == Ok::<
                Option<Seq<char>>,
                Seq<char>,
            >(None)
            &&& forall|text: Seq<char>|
                #[trigger] json::quoted(text) == json ==> json::json_as_optional_text(json) == Ok::<
                    Option<Seq<char>>,
                    Seq<char>,
                >(Some(text))
        },
        Kind::OptionalPath => {
            &&& json == "null"@ ==> json::json_as_optional_path(json) == Ok::<
                Option<Seq<char>>,
                Seq<char>,
            >(None)
            &&& forall|text: Seq<char>|
                #[trigger] json::quoted(text) == json ==> json::json_as_optional_path(json) == Ok::<
                    Option<Seq<char>>,
                    Seq<char>,
                >(Some(text))
        },
        Kind::Action => forall|text: Seq<char>|
            #[trigger] json::quoted(text) == json ==> json_as_action(json) == named_action(text),
        Kind::Any => true,
    }
}

fn value_error(kind: Kind, json: &str) -> (error: Option<String>)
    ensures
        chars::optional_text(error) == kind_error(kind, json@),
        is_sound(kind, json@),
{
    match kind {
        Kind::Text => match decode_text(json) {
            Ok(_) => None,
            Err(reason) => Some(reason),
        },
        Kind::Flag => match decode_flag(json) {
            Ok(_) => None,
            Err(reason) => Some(reason),
        },
        Kind::OptionalText => match decode_optional_text(json) {
            Ok(_) => None,
            Err(reason) => Some(reason),
        },
        Kind::OptionalPath => match decode_optional_path(json) {
            Ok(_) => None,
            Err(reason) => Some(reason),
        },
        Kind::Action => match decode_action(json) {
            Ok(_) => None,
            Err(reason) => Some(reason),
        },
        Kind::Any => None,
    }
}

/// What is wrong with the first member whose value is not what its place asks
/// for.
pub open spec fn first_error(schema: Schema, members: Seq<(Seq<char>, Seq<char>)>) -> Option<
    Seq<char>,
>
    decreases members.len(),
{
    if members.len() == 0 {
        None
    } else {
        match kind_error(kind_of(schema, members[0].0), members[0].1) {
            Some(reason) => Some(reason),
            None => first_error(schema, members.skip(1)),
        }
    }
}

/// Whether what was written in a member is read back as it was.
pub open spec fn member_is_sound(schema: Schema, member: (Seq<char>, Seq<char>)) -> bool {
    is_sound(kind_of(schema, member.0), member.1)
}

/// Checks the values of all members, from the first on.
pub fn check_members(schema: Schema, members: &Vec<(String, String)>) -> (error: Option<String>)
    ensures
        chars::optional_text(error) == first_error(
            schema,
            json::raw_members(members@),
        ),
        error is None ==> forall|i: int|
            0 <= i < members@.len() ==> member_is_sound(
                schema,
                #[trigger] json::raw_members(members@)[i],
            ),
        error is Some ==> exists|i: int|
            0 <= i < members@.len() && member_is_sound(
                schema,
                #[trigger] json::raw_members(members@)[i],
            ) && kind_error(
                kind_of(schema, json::raw_members(members@)[i].0),
                json::raw_members(members@)[i].1,
            ) is Some,
{
    let ghost all = json::raw_members(members@);
    let mut i: usize = 0;
    assert(all.skip(0) =~= all);
    while i < members.len()
        invariant
            all == json::raw_members(members@),
            i <= members.len(),
            first_error(schema, all) == first_error(schema, all.skip(i as int)),
            forall|k: int| 0 <= k < i ==> member_is_sound(schema, #[trigger] all[k]),
        decreases members.len() - i,
    {
        assert(all.skip(i as int).skip(1) =~= all.skip(i + 1));
        assert(all.skip(i as int)[0] == all[i as int]);
        assert(all[i as int] == (members@[i as int].0@, members@[i as int].1@));
        let error = value_error(
            kind(schema, members[i].0.as_str()),
            members[i].1.as_str(),
        );
        assert(member_is_sound(schema, all[i as int]));
        if error.is_some() {
            return error;
        }
        i = i + 1;
    }
    None
}

/// A text that was read, or the reason why it was not.
pub open spec fn text_result(text: Result<String, String>) -> Result<Seq<char>, Seq<char>> {
    match text {
        Ok(text) => Ok(text@),
        Err(reason) => Err(reason@),
    }
}

/// The reason why a message lacks a member.
pub open spec fn missing_reason(name: Seq<char>) -> Seq<char> {
    "missing field `"@ + name + "`"@
}

pub(crate) fn missing(name: &str) -> (reason: String)
    ensures
        reason@ == missing_reason(name@),
{
    let mut reason = "missing field `".to_owned();
    reason.append(name);
    reason.append("`");
    reason
}

/// The reason why a list is too long of which a number of items is read.
pub open spec fn surplus_reason(found: nat, read: nat) -> Seq<char> {
    "invalid length "@ + number::decimal(found) + ", expected "@ + number::decimal(read) + (if read
        == 1 {
        " element in sequence"@
    } else {
        " elements in sequence"@
    })
}

/// Says why a list is too long of which a number of items is read.
pub(crate) fn surplus(found: usize, read: usize) -> (reason: String)
    ensures
        reason@ == surplus_reason(found as nat, read as nat),
{
    let mut reason = "invalid length ".to_owned();
    reason.append(decimal_text(found as u64).as_str());
    reason.append(", expected ");
    reason.append(decimal_text(read as u64).as_str());
    if read == 1 {
        reason.append(" element in sequence");
    } else {
        reason.append(" elements in sequence");
    }
    reason
}

/// The text in the second and last item of a list.
pub open spec fn listed_text(items: Seq<Seq<char>>) -> Result<Seq<char>, Seq<char>> {
    if items.len() < 2 {
        Err("invalid length 0, expected struct variant with 1 element"@)
    } else {
        match json::json_as_text(items[1]) {
            Ok(text) => if items.len() == 2 {
                Ok(text)
            } else {
                Err(surplus_reason((items.len() - 1) as nat, 1))
            },
            Err(reason) => Err(reason),
        }
    }
}

/// Reads the text in the second and last item of a list.
pub fn text_in_list(items: &Vec<String>) -> (text: Result<String, String>)
    ensures
        text_result(text) == listed_text(chars::texts(items@)),
{
    assert(chars::texts(items@).len() == items@.len());
    if items.len() < 2 {
        return Err("invalid length 0, expected struct variant with 1 element".to_owned());
    }
    assert(chars::texts(items@)[1] == items@[1]@);
    match decode_text(items[1].as_str()) {
        Ok(text) => {
            if items.len() == 2 {
                Ok(text)
            } else {
                Err(surplus(items.len() - 1, 1))
            }
        },
        Err(reason) => Err(reason),
    }
}

/// The reason why a value is not what is expected, from the reason why it is no
/// flag.
pub open spec fn unexpected_reason(json: Seq<char>, expected: Seq<char>) -> Seq<char> {
    match json::json_as_flag(json) {
        Ok(true) => "invalid type: boolean `true`, expected "@ + expected,
        Ok(false) => "invalid type: boolean `false`, expected "@ + expected,
        Err(no_flag) => if search::ends_with(no_flag, "a boolean"@) {
            no_flag.take(no_flag.len() - 9) + expected
        } else {
            no_flag
        },
    }
}

/// Says why a value is not what is expected.
pub(crate) fn unexpected(json: &str, expected: &str) -> (reason: String)
    ensures
        reason@ == unexpected_reason(json@, expected@),
{
    match decode_flag(json) {
        Ok(flag) => {
            let mut reason = if flag {
                "invalid type: boolean `true`, expected ".to_owned()
            } else {
                "invalid type: boolean `false`, expected ".to_owned()
            };
            reason.append(expected);
            reason
        },
        Err(no_flag) => {
            if text_ends_with(no_flag.as_str(), "a boolean") {
                proof {
                    reveal_strlit("a boolean");
                }
                let all = chars::chars_of(no_flag.as_str());
                let mut reason = chars::text_of(&all, 0, all.len() - 9);
                assert(reason@ =~= no_flag@.take(no_flag@.len() - 9));
                reason.append(expected);
                reason
            } else {
                no_flag
            }
        },
    }
}

/// The text in a member that has to be there.
pub open spec fn required_text(members: Seq<(Seq<char>, Seq<char>)>, name: Seq<char>) -> Result<
    Seq<char>,
    Seq<char>,
> {
    match json::lookup(members, name) {
        Some(value) => json::json_as_text(value),
        None => Err(missing_reason(name)),
    }
}

/// Reads the text in a member that has to be there.
pub fn text_of_member(members: &Vec<(String, String)>, name: &str) -> (text: Result<String, String>)
    ensures
        match text {
            Ok(text) => required_text(json::raw_members(members@), name@) == Ok::<
                Seq<char>,
                Seq<char>,
            >(text@),
            Err(reason) => required_text(json::raw_members(members@), name@) == Err::<
                Seq<char>,
                Seq<char>,
            >(reason@),
        },
        json::lookup(json::raw_members(members@), name@) matches Some(value) ==> is_sound(
            Kind::Text,
            value,
        ),
{
    match find_member(members, name) {
        Some(value) => decode_text(value.as_str()),
        None => Err(missing(name)),
    }
}

/// The flag in a member that has to be there.
pub open spec fn required_flag(members: Seq<(Seq<char>, Seq<char>)>, name: Seq<char>) -> Result<
    bool,
    Seq<char>,
> {
    match json::lookup(members, name) {
        Some(value) => json::json_as_flag(value),
        None => Err(missing_reason(name)),
    }
}

/// Reads the flag in a member that has to be there.
pub fn flag_of_member(members: &Vec<(String, String)>, name: &str) -> (flag: Result<bool, String>)
    ensures
        match flag {
            Ok(flag) => required_flag(json::raw_members(members@), name@) == Ok::<bool, Seq<char>>(
                flag,
            ),
            Err(reason) => required_flag(json::raw_members(members@), name@) == Err::<
                bool,
                Seq<char>,
            >(reason@),
        },
{
    match find_member(members, name) {
        Some(value) => decode_flag(value.as_str()),
        None => Err(missing(name)),
    }
}

/// The action in a member that has to be there.
pub open spec fn required_action(members: Seq<(Seq<char>, Seq<char>)>, name: Seq<char>) -> Result<
    CloseAction,
    Seq<char>,
> {
    match json::lookup(members, name) {
        Some(value) => json_as_action(value),
        None => Err(missing_reason(name)),
    }
}

/// Reads the action in a member that has to be there.
pub fn action_of_member(members: &Vec<(String, String)>, name: &str) -> (action: Result<
    CloseAction,
    String,
>)
    ensures
        match action {
            Ok(action) => required_action(json::raw_members(members@), name@) == Ok::<
                CloseAction,
                Seq<char>,
            >(action),
            Err(reason) => required_action(json::raw_members(members@), name@) == Err::<
                CloseAction,
                Seq<char>,
            >(reason@),
        },
{
    match find_member(members, name) {
        Some(value) => decode_action(value.as_str()),
        None => Err(missing(name)),
    }
}

/// The text in a member that may be absent or `null`.
pub open spec fn optional_text_in(members: Seq<(Seq<char>, Seq<char>)>, name: Seq<char>) -> Result<
    Option<Seq<char>>,
    Seq<char>,
> {
    match json::lookup(members, name) {
        Some(value) => json::json_as_optional_text(value),
        None => Ok(None),
    }
}

/// Reads the text in a member that may be absent or `null`.
pub fn optional_text_of_member(members: &Vec<(String, String)>, name: &str) -> (text: Result<
    Option<String>,
    String,
>)
    ensures
        match text {
            Ok(text) => optional_text_in(json::raw_members(members@), name@) == Ok::<
                Option<Seq<char>>,
                Seq<char>,
            >(chars::optional_text(text)),
            Err(reason) => optional_text_in(json::raw_members(members@), name@) == Err::<
                Option<Seq<char>>,
                Seq<char>,
            >(reason@),
        },
        json::lookup(json::raw_members(members@), name@) matches Some(value) ==> is_sound(
            Kind::OptionalText,
            value,
        ),
{
    match find_member(members, name) {
        Some(value) => decode_optional_text(value.as_str()),
        None => Ok(None),
    }
}

/// The path in a member that may be absent or `null`.
pub open spec fn optional_path_in(members: Seq<(Seq<char>, Seq<char>)>, name: Seq<char>) -> Result<
    Option<Seq<char>>,
    Seq<char>,
> {
    match json::lookup(members, name) {
        Some(value) => json::json_as_optional_path(value),
        None => Ok(None),
    }
}

/// Reads the path in a member that may be absent or `null`.
pub fn optional_path_of_member(members: &Vec<(String, String)>, name: &str) -> (path: Result<
    Option<String>,
    String,
>)
    ensures
        match path {
            Ok(path) => optional_path_in(json::raw_members(members@), name@) == Ok::<
                Option<Seq<char>>,
                Seq<char>,
            >(chars::optional_text(path)),
            Err(reason) => optional_path_in(json::raw_members(members@), name@) == Err::<
                Option<Seq<char>>,
                Seq<char>,
            >(reason@),
        },
{
    match find_member(members, name) {
        Some(value) => decode_optional_path(value.as_str()),
        None => Ok(None),
    }
}

/// A member is looked up by its name, a required one has to be there, and one
/// that may be absent is nothing where it is.
pub proof fn members_are_found_by_name(
    members: Seq<(Seq<char>, Seq<char>)>,
    name: Seq<char>,
    value: Seq<char>,
)
    ensures
        json::lookup(members, name) == Some(value) ==> {
            &&& required_text(members, name) == json::json_as_text(value)
            &&& required_flag(members, name) == json::json_as_flag(value)
            &&& required_action(members, name) == json_as_action(value)
            &&& optional_text_in(members, name) == json::json_as_optional_text(value)
            &&& optional_path_in(members, name) == json::json_as_optional_path(value)
        },
        json::lookup(members, name) is None ==> {
            &&& required_text(members, name) matches Err(reason) && search::contains(reason, name)
            &&& required_flag(members, name) is Err
            &&& required_action(members, name) is Err
            &&& optional_text_in(members, name) == Ok::<Option<Seq<char>>, Seq<char>>(None)
            &&& optional_path_in(members, name) == Ok::<Option<Seq<char>>, Seq<char>>(None)
        },
{
    let reason = missing_reason(name);
    let at = "missing field `"@.len() as int;
    assert(reason.subrange(at, at + name.len()) =~= name);
    search::containing_is_standing_somewhere(reason, name);
}

/// The actions go by their names, and nothing else is one.
pub proof fn actions_go_by_their_names(name: Seq<char>)
    ensures
        named_action("add"@) == Ok::<CloseAction, Seq<char>>(CloseAction::Add),
        named_action("commit"@) == Ok::<CloseAction, Seq<char>>(CloseAction::Commit),
        name != "add"@ && name != "commit"@ ==> named_action(name) is Err,
{
    reveal_strlit("add");
    reveal_strlit("commit");
    assert("add"@.len() != "commit"@.len());
}

/// The first value that is not what its place asks for is what is wrong; where
/// there is none, nothing is.
pub proof fn the_first_wrong_value_counts(
    schema: Schema,
    members: Seq<(Seq<char>, Seq<char>)>,
    index: int,
)
    requires
        0 <= index < members.len(),
        forall|i: int|
            0 <= i < index ==> kind_error(
                kind_of(schema, (#[trigger] members[i]).0),
                members[i].1,
            ) is None,
    ensures
        kind_error(kind_of(schema, members[index].0), members[index].1) is Some ==> first_error(
            schema,
            members,
        ) == kind_error(kind_of(schema, members[index].0), members[index].1),
    decreases index,
{
    if index > 0 {
        let rest = members.skip(1);
        assert forall|i: int| 0 <= i < index - 1 implies kind_error(
            kind_of(schema, (#[trigger] rest[i]).0),
            rest[i].1,
        ) is None by {
            assert(rest[i] == members[i + 1]);
        }
        assert(rest[index - 1] == members[index]);
        the_first_wrong_value_counts(schema, rest, index - 1);
        assert(kind_error(kind_of(schema, members[0].0), members[0].1) is None);
    }
}

/// Every field is of the kind that its event gives it, and a field that an event
/// does not know may hold anything.
pub proof fn fields_have_their_kinds(schema: Schema, name: Seq<char>)
    ensures
        kind_of(Schema::CommitFix, "instructions"@) is Text,
        kind_of(Schema::CommitFix, "tldr"@) is Text,
        kind_of(Schema::CommitFix, "why"@) is Text,
        kind_of(Schema::CommitFix, "what"@) is Text,
        kind_of(Schema::CommitFix, "amend"@) is Flag,
        kind_of(Schema::CommitFix, "cwd"@) is OptionalPath,
        kind_of(Schema::CommitFixDone, "commit_message"@) is Text,
        kind_of(Schema::CloseAction, "action"@) is Action,
        kind_of(Schema::CloseActionOutcome, "action"@) is Action,
        kind_of(Schema::CloseActionOutcome, "success"@) is Flag,
        kind_of(Schema::CloseActionOutcome, "reason"@) is OptionalText,
        name.len() > 14 ==> kind_of(schema, name) is Any,
{
    reveal_strlit("instructions");
    reveal_strlit("tldr");
    reveal_strlit("why");
    reveal_strlit("what");
    reveal_strlit("amend");
    reveal_strlit("cwd");
    reveal_strlit("commit_message");
    reveal_strlit("action");
    reveal_strlit("success");
    reveal_strlit("reason");
    assert("amend"@.len() == 5 && "cwd"@.len() == 3 && "why"@.len() == 3 && "tldr"@.len() == 4
        && "what"@.len() == 4);
    assert("cwd"@[0] != "why"@[0]);
    assert("action"@[0] != "reason"@[0]);
    assert("action"@.len() == 6 && "success"@.len() == 7 && "reason"@.len() == 6);
    assert("instructions"@.len() == 12 && "commit_message"@.len() == 14);
}

} // verus!
