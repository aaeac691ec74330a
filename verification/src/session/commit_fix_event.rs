//! The validation of commit-fix events: every field the fix session needs must
//! be present and of the right type, so that a partial request is rejected
//! instead of silently starting a session with empty values.

use vstd::prelude::*;

use crate::json;
use crate::json::{decode_flag, decode_optional_path, Document, DocumentView};
use crate::text::chars;
use crate::text::search;
use crate::wire::commit_fix::{CommitFixRequest, RequestView};

verus! {

/// The reason why a field is not the text it has to be.
pub open spec fn no_text_reason(field: Seq<char>) -> Seq<char> {
    "missing or non-string field '"@ + field + "'"@
}

/// The text in a field that has to be there.
pub open spec fn text_field(value: DocumentView, field: Seq<char>) -> Result<Seq<char>, Seq<char>> {
    match json::text_member(value, field) {
        Some(text) => Ok(text),
        None => Err(no_text_reason(field)),
    }
}

/// The flag in a field that has to be there.
pub open spec fn amend_field(value: DocumentView) -> Result<bool, Seq<char>> {
    match json::member_of(value, "amend"@) {
        Some(json) => match json::json_as_flag(json) {
            Ok(flag) => Ok(flag),
            Err(_) => Err("missing or non-boolean field 'amend'"@),
        },
        None => Err("missing or non-boolean field 'amend'"@),
    }
}

/// The working directory, which may be absent or `null`.
pub open spec fn cwd_field(value: DocumentView) -> Result<Option<Seq<char>>, Seq<char>> {
    match json::member_of(value, "cwd"@) {
        Some(json) => match json::json_as_optional_path(json) {
            Ok(path) => Ok(path),
            Err(_) => Err("field 'cwd' must be a string or null"@),
        },
        None => Ok(None),
    }
}

/// The validated fields of an event, or the reason to reject it with.
pub open spec fn validated(value: DocumentView) -> Result<RequestView, Seq<char>> {
    match text_field(value, "instructions"@) {
        Err(reason) => Err(reason),
        Ok(instructions) => match amend_field(value) {
            Err(reason) => Err(reason),
            Ok(amend) => match text_field(value, "tldr"@) {
                Err(reason) => Err(reason),
                Ok(tldr) => match text_field(value, "why"@) {
                    Err(reason) => Err(reason),
                    Ok(why) => match text_field(value, "what"@) {
                        Err(reason) => Err(reason),
                        Ok(what) => match cwd_field(value) {
                            Err(reason) => Err(reason),
                            Ok(cwd) => Ok(
                                RequestView { instructions, amend, tldr, why, what, cwd },
                            ),
                        },
                    },
                },
            },
        },
    }
}

fn commit_fix_string_field(value: &Document, field: &str) -> (text: Result<String, String>)
    ensures
        match text {
            Ok(text) => text_field(value@, field@) == Ok::<Seq<char>, Seq<char>>(text@),
            Err(reason) => text_field(value@, field@) == Err::<Seq<char>, Seq<char>>(reason@),
        },
{
    match value.text(field) {
        Some(text) => Ok(text),
        None => {
            let mut reason = "missing or non-string field '".to_owned();
            reason.append(field);
            reason.append("'");
            Err(reason)
        },
    }
}

/// Validates a `commit-fix` workflow event.
pub fn parse_commit_fix_event(value: &Document) -> (fields: Result<CommitFixRequest, String>)
    ensures
        match fields {
            Ok(fields) => validated(value@) == Ok::<RequestView, Seq<char>>(fields@),
            Err(reason) => validated(value@) == Err::<RequestView, Seq<char>>(reason@),
        },
{
    let instructions = match commit_fix_string_field(value, "instructions") {
        Ok(text) => text,
        Err(reason) => return Err(reason),
    };
    let amend = match value.member("amend") {
        Some(json) => match decode_flag(json.as_str()) {
            Ok(flag) => flag,
            Err(_) => return Err("missing or non-boolean field 'amend'".to_owned()),
        },
        None => return Err("missing or non-boolean field 'amend'".to_owned()),
    };
    let tldr = match commit_fix_string_field(value, "tldr") {
        Ok(text) => text,
        Err(reason) => return Err(reason),
    };
    let why = match commit_fix_string_field(value, "why") {
        Ok(text) => text,
        Err(reason) => return Err(reason),
    };
    let what = match commit_fix_string_field(value, "what") {
        Ok(text) => text,
        Err(reason) => return Err(reason),
    };
    let cwd = match value.member("cwd") {
        Some(json) => match decode_optional_path(json.as_str()) {
            Ok(path) => path,
            Err(_) => return Err("field 'cwd' must be a string or null".to_owned()),
        },
        None => None,
    };
    Ok(CommitFixRequest { instructions, amend, tldr, why, what, cwd })
}

/// A request is accepted exactly where it holds every text that a fix session
/// needs, the amend decision as a flag, and a directory that is a path or none;
/// and it is taken over field by field.
pub proof fn complete_requests_are_taken_over(value: DocumentView)
    ensures
        validated(value) is Ok <==> {
            &&& json::text_member(value, "instructions"@) is Some
            &&& json::text_member(value, "tldr"@) is Some
            &&& json::text_member(value, "why"@) is Some
            &&& json::text_member(value, "what"@) is Some
            &&& json::member_of(value, "amend"@) matches Some(flag) && json::json_as_flag(
                flag,
            ) is Ok
            &&& json::member_of(value, "cwd"@) matches Some(path) ==> json::json_as_optional_path(
                path,
            ) is Ok
        },
        validated(value) matches Ok(request) ==> {
            &&& json::text_member(value, "instructions"@) == Some(request.instructions)
            &&& json::text_member(value, "tldr"@) == Some(request.tldr)
            &&& json::text_member(value, "why"@) == Some(request.why)
            &&& json::text_member(value, "what"@) == Some(request.what)
            &&& json::json_as_flag(json::member_of(value, "amend"@)->0) == Ok::<bool, Seq<char>>(
                request.amend,
            )
            &&& json::member_of(value, "cwd"@) is None ==> request.cwd is None
            &&& json::member_of(value, "cwd"@) matches Some(path) ==> json::json_as_optional_path(
                path,
            ) == Ok::<Option<Seq<char>>, Seq<char>>(request.cwd)
        },
{
}

/// A rejection names the first field that is missing.
pub proof fn rejections_name_the_missing_field(value: DocumentView)
    ensures
        json::text_member(value, "instructions"@) is None ==> (validated(value) matches Err(reason)
            && search::contains(reason, "instructions"@)),
        json::text_member(value, "instructions"@) is Some && json::member_of(value, "amend"@)
            is None ==> (validated(value) matches Err(reason) && search::contains(
            reason,
            "amend"@,
        )),
        json::text_member(value, "what"@) is None && json::text_member(value, "instructions"@)
            is Some && json::text_member(value, "tldr"@) is Some && json::text_member(value, "why"@)
            is Some && amend_field(value) is Ok ==> (validated(value) matches Err(reason)
            && search::contains(reason, "what"@)),
{
    lemma_reason_names_the_field("instructions"@);
    lemma_reason_names_the_field("what"@);
    reveal_strlit("amend");
    reveal_strlit("missing or non-boolean field 'amend'");
    let reason = "missing or non-boolean field 'amend'"@;
    assert(reason.subrange(30, 30int + "amend"@.len()) =~= "amend"@);
    search::containing_is_standing_somewhere(reason, "amend"@);
}

proof fn lemma_reason_names_the_field(field: Seq<char>)
    ensures
        search::contains(no_text_reason(field), field),
{
    reveal_strlit("missing or non-string field '");
    let reason = no_text_reason(field);
    let at = "missing or non-string field '"@.len() as int;
    assert(reason.subrange(at, at + field.len()) =~= field);
    search::containing_is_standing_somewhere(reason, field);
}

} // verus!
