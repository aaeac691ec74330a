//! The texts of the prompt, the banner and the popups.

use vstd::prelude::*;

use crate::bridge;
use crate::bridge::PermissionOption;
use crate::chat_log::{CallView, Status, ToolCallEntry};
use crate::text::chars;
use crate::text::number;
use crate::text::number::decimal_text;
use crate::text::search;
use crate::ui::style;
use crate::ui::style::{status_style, USER_ICON};

verus! {

/// What shows in an empty prompt.
pub const PROMPT_PLACEHOLDER: &'static str = "Type a message, or :q / :quit to exit";

/// What shows below the log while the view does not follow new messages.
pub const BANNER: &'static str = "\u{2193} New messages \u{b7} End to jump to latest";

/// The title of the permission popup.
pub const PERMISSION_TITLE: &'static str = "Permission requested (Esc to cancel)";

/// The title of the log popup.
pub const LOG_TITLE: &'static str = " Logs (Esc or Ctrl+L to close) ";

/// What the log popup shows while there is nothing to show.
pub const NO_LOG_OUTPUT: &'static str = "No log output yet.";

/// The title of the prompt of a session.
pub open spec fn title_of_prompt(workflow_name: Option<Seq<char>>) -> Seq<char> {
    match workflow_name {
        Some(name) => " "@ + USER_ICON@ + " Prompt \u{2192} "@ + name + " "@,
        None => " "@ + USER_ICON@ + " Prompt "@,
    }
}

/// Title shows `workflow_name` when set, so it's clear at a glance which
/// session Enter routes the prompt to.
pub fn prompt_title(workflow_name: Option<&str>) -> (title: String)
    ensures
        title@ == title_of_prompt(
            match workflow_name {
                Some(name) => Some(name@),
                None => None,
            },
        ),
{
    let mut title = " ".to_owned();
    title.append(USER_ICON);
    match workflow_name {
        Some(name) => {
            title.append(" Prompt \u{2192} ");
            title.append(name);
            title.append(" ");
        },
        None => {
            title.append(" Prompt ");
        },
    }
    title
}

/// The lines of the permission popup: each option behind the digit that
/// chooses it.
pub open spec fn permission_line(options: Seq<(Seq<char>, Seq<char>)>, index: int) -> Seq<char> {
    number::decimal((index + 1) as nat) + ". "@ + options[index].1
}

/// The lines of the permission popup.
pub fn permission_lines(options: &Vec<PermissionOption>) -> (lines: Vec<String>)
    ensures
        lines@.len() == options@.len(),
        forall|i: int|
            0 <= i < lines@.len() ==> (#[trigger] lines@[i])@ == permission_line(
                bridge::option_texts(options@),
                i,
            ),
{
    let mut lines: Vec<String> = Vec::new();
    let mut i: usize = 0;
    while i < options.len()
        invariant
            i <= options@.len(),
            lines@.len() == i,
            forall|k: int|
                0 <= k < i ==> (#[trigger] lines@[k])@ == permission_line(
                    bridge::option_texts(options@),
                    k,
                ),
        decreases options@.len() - i,
    {
        let mut line = decimal_text((i + 1) as u64);
        line.append(". ");
        line.append(options[i].label.as_str());
        assert(bridge::option_texts(options@)[i as int].1 == options@[i as int].label@);
        lines.push(line);
        i = i + 1;
    }
    lines
}

/// A text, or another in its place where there is none.
pub open spec fn or_else(text: Option<Seq<char>>, other: Seq<char>) -> Seq<char> {
    match text {
        Some(text) => text,
        None => other,
    }
}

/// The audit details of a tool call.
pub open spec fn details_of(call: CallView) -> Seq<char> {
    "Status: "@ + style::status_icon(call.status) + " "@ + style::status_name(call.status)
        + "\n\nParameters\n"@ + or_else(call.parameters, "No parameters supplied."@) + "\n\n"@ + (
    if call.status is Failed {
        "Result (failed)"@
    } else {
        "Result"@
    }) + "\n"@ + or_else(call.result, "Not available yet."@)
}

/// The audit details of a tool call.
pub fn tool_call_details(entry: &ToolCallEntry) -> (text: String)
    ensures
        text@ == details_of(entry@),
{
    let (icon, _, name) = status_style(entry.status);
    let mut text = "Status: ".to_owned();
    text.append(icon);
    text.append(" ");
    text.append(name);
    text.append("\n\nParameters\n");
    match &entry.parameters {
        Some(parameters) => {
            text.append(parameters.as_str());
        },
        None => {
            text.append("No parameters supplied.");
        },
    }
    text.append("\n\n");
    if entry.status == Status::Failed {
        text.append("Result (failed)");
    } else {
        text.append("Result");
    }
    text.append("\n");
    match &entry.result {
        Some(result) => {
            text.append(result.as_str());
        },
        None => {
            text.append("Not available yet.");
        },
    }
    text
}

/// The title of the audit details of a tool call.
pub fn tool_call_title(name: &str) -> (title: String)
    ensures
        title@ == " Tool Call: "@ + name@ + " "@,
{
    let mut title = " Tool Call: ".to_owned();
    title.append(name);
    title.append(" ");
    title
}

/// The audit details of a tool call tell its status, what it was called with and
/// what it came to, in that order and in full.
pub proof fn details_tell_the_call(call: CallView)
    ensures
        search::contains(details_of(call), style::status_name(call.status)),
        call.parameters matches Some(parameters) ==> search::contains(
            details_of(call),
            "\n\nParameters\n"@ + parameters + "\n\nResult"@,
        ),
        call.result matches Some(result) ==> search::ends_with(
            details_of(call),
            seq!['\n'] + result,
        ),
        call.parameters is None ==> search::contains(
            details_of(call),
            "No parameters supplied."@,
        ),
        call.result is None ==> search::ends_with(details_of(call), "Not available yet."@),
        call.status is Failed ==> search::contains(details_of(call), "Result (failed)"@),
{
    reveal_strlit("\n");
    reveal_strlit("\n\n");
    reveal_strlit("Result");
    reveal_strlit("Result (failed)");
    reveal_strlit("\n\nResult");
    let details = details_of(call);
    let name = style::status_name(call.status);
    let before = "Status: "@ + style::status_icon(call.status) + " "@;
    lemma_stands_behind(details, before, name);
    let head = before + name;
    let parameters = or_else(call.parameters, "No parameters supplied."@);
    let middle = "\n\nParameters\n"@ + parameters + "\n\nResult"@;
    assert(details.subrange(head.len() as int, (head.len() + middle.len()) as int) =~= middle);
    lemma_stands_behind(details, head, middle);
    lemma_stands_behind(details, head + "\n\nParameters\n"@, parameters);
    let titled = head + "\n\nParameters\n"@ + parameters + "\n\n"@;
    if call.status is Failed {
        lemma_stands_behind(details, titled, "Result (failed)"@);
    }
    let result = or_else(call.result, "Not available yet."@);
    assert(details.skip(details.len() - (1 + result.len())) =~= seq!['\n'] + result);
    assert(details.skip(details.len() - result.len()) =~= result);
}

proof fn lemma_stands_behind(text: Seq<char>, before: Seq<char>, part: Seq<char>)
    requires
        before.len() + part.len() <= text.len(),
        text.subrange(before.len() as int, (before.len() + part.len()) as int) =~= part,
    ensures
        search::contains(text, part),
{
    search::containing_is_standing_somewhere(text, part);
    let at = before.len() as int;
    assert(text.subrange(at, at + part.len()) == part);
}

/// The title of a prompt names the workflow that it goes to, where it is told.
pub proof fn prompt_titles_name_the_workflow(name: Seq<char>)
    ensures
        search::contains(title_of_prompt(Some(name)), name),
        search::contains(title_of_prompt(Some(name)), " Prompt "@),
        search::contains(title_of_prompt(None), " Prompt "@),
{
    reveal_strlit(" ");
    reveal_strlit(" Prompt ");
    reveal_strlit(" Prompt \u{2192} ");
    let start = " "@ + USER_ICON@;
    lemma_stands_behind(title_of_prompt(None), start, " Prompt "@);
    lemma_stands_behind(title_of_prompt(Some(name)), start, " Prompt "@);
    lemma_stands_behind(title_of_prompt(Some(name)), start + " Prompt \u{2192} "@, name);
}

/// Each option of a permission request is shown by its label, behind the number
/// that chooses it.
pub proof fn options_are_numbered_from_one(options: Seq<(Seq<char>, Seq<char>)>, index: int)
    requires
        0 <= index < options.len(),
    ensures
        search::starts_with(
            permission_line(options, index),
            number::decimal((index + 1) as nat) + seq!['.', ' '],
        ),
        search::ends_with(permission_line(options, index), options[index].1),
        permission_line(options, index).len() == number::decimal((index + 1) as nat).len() + 2
            + options[index].1.len(),
{
    reveal_strlit(". ");
    let line = permission_line(options, index);
    let start = number::decimal((index + 1) as nat) + seq!['.', ' '];
    assert(line.take(start.len() as int) =~= start);
    assert(line.skip(line.len() - options[index].1.len()) =~= options[index].1);
}

} // verus!
