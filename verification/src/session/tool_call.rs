//! How tool calls are shown: titles, targets and results.

use vstd::prelude::*;
use vstd::utf8;

use crate::acp;
use crate::acp::{ConfigCategory, ConfigOption, ContentBlock, ToolCallContent, ToolCallStatus, ToolKind};
use crate::json;
use crate::json::{parse_document, Document, DocumentView};
use crate::prompt::PromptRunner;
use crate::text::chars;
use crate::text::lines;
use crate::text::lines::lines;
use crate::text::number;
use crate::text::number::decimal_text;
use crate::text::search;
use crate::text::search::{join_texts, text_contains};

verus! {

/// The last of some pieces that is a component of its own, unless it names the
/// directory above. Empty pieces and the directory itself are no components.
pub open spec fn last_name(pieces: Seq<Seq<char>>) -> Option<Seq<char>>
    decreases pieces.len(),
{
    if pieces.len() == 0 {
        None
    } else if pieces.last().len() == 0 || pieces.last() == "."@ {
        last_name(pieces.drop_last())
    } else if pieces.last() == ".."@ {
        None
    } else {
        Some(pieces.last())
    }
}

/// The last component of a path, where it has one that is a name.
pub open spec fn path_file_name(path: Seq<char>) -> Option<Seq<char>> {
    last_name(search::split_on(path, "/"@))
}

/// The last component of a path, as `std::path::Path::file_name` finds it on a
/// Unix system: components stand between slashes, repeated and trailing slashes
/// and the component `.` are passed over, and a path that ends in `..` has no
/// such name.
#[verifier::external_body]
fn file_name(path: &str) -> (name: Option<String>)
    ensures
        chars::optional_text(name) == path_file_name(path@),
{
    std::path::Path::new(path).file_name().and_then(|name| name.to_str()).map(str::to_owned)
}

/// The title of a tool call, its command labelled as such.
pub open spec fn labelled(kind: ToolKind, title: Seq<char>) -> Seq<char> {
    if kind is Execute {
        "Shell command: "@ + title
    } else {
        title
    }
}

/// Whether a title names the file at a path: in full, or by its last
/// component.
pub open spec fn names_file(title: Seq<char>, path: Seq<char>, file_name: Option<Seq<char>>) -> bool {
    search::contains(title, path) || (file_name matches Some(name) && search::contains(title, name))
}

/// The title of a tool call with the file it operates on, where the title does
/// not name it yet.
pub open spec fn full_title(kind: ToolKind, title: Seq<char>, target: Option<Seq<char>>) -> Seq<
    char,
> {
    let title = labelled(kind, title);
    match target {
        Some(path) => if names_file(title, path, path_file_name(path)) {
            title
        } else {
            title + " ("@ + path + ")"@
        },
        None => title,
    }
}

/// Labels command executions while preserving the command in the title, and
/// appends the target file when a file operation's title doesn't name the file
/// it operates on.
pub fn tool_call_title(kind: ToolKind, title: String, target: Option<&String>) -> (full: String)
    ensures
        full@ == full_title(
            kind,
            title@,
            match target {
                Some(path) => Some(path@),
                None => None,
            },
        ),
{
    let title = if kind == ToolKind::Execute {
        let mut label = "Shell command: ".to_owned();
        label.append(title.as_str());
        label
    } else {
        title
    };
    match target {
        Some(path) => with_target(title, path.as_str(), file_name(path.as_str())),
        None => title,
    }
}

/// Appends a path to a title that does not name it, `file_name` being the last
/// component of the path.
pub fn with_target(title: String, path: &str, file_name: Option<String>) -> (full: String)
    ensures
        full@ == (if names_file(title@, path@, chars::optional_text(file_name)) {
            title@
        } else {
            title@ + " ("@ + path@ + ")"@
        }),
{
    let named = text_contains(title.as_str(), path) || match &file_name {
        Some(name) => text_contains(title.as_str(), name.as_str()),
        None => false,
    };
    if named {
        return title;
    }
    let mut full = title;
    full.append(" (");
    full.append(path);
    full.append(")");
    full
}

/// Whether a tool call operates on a file.
pub open spec fn is_file_operation(kind: ToolKind) -> bool {
    kind is Read || kind is Edit || kind is Delete || kind is Move || kind is Search
}

/// The file that the input of a tool call names.
pub open spec fn input_path(input: DocumentView) -> Option<Seq<char>> {
    match json::text_member(input, "path"@) {
        Some(path) => Some(path),
        None => json::text_member(input, "file_path"@),
    }
}

/// The file that a file operation operates on: the first location, else the
/// one that its input, a JSON text, names.
pub open spec fn target_of(
    kind: ToolKind,
    locations: Seq<Seq<char>>,
    raw_input: Option<Seq<char>>,
) -> Option<Seq<char>> {
    if !is_file_operation(kind) {
        None
    } else if locations.len() > 0 {
        Some(locations[0])
    } else {
        match raw_input {
            Some(input) => match json::json_document(utf8::encode_utf8(input)) {
                Ok(document) => input_path(document),
                Err(_) => None,
            },
            None => None,
        }
    }
}

/// The file that the input of a tool call names.
pub fn path_in_input(input: &Document) -> (path: Option<String>)
    ensures
        chars::optional_text(path) == input_path(input@),
{
    match input.text("path") {
        Some(path) => Some(path),
        None => input.text("file_path"),
    }
}

/// The file a file operation operates on: the first location, else the
/// `path`/`file_path` field of the raw input. `None` for other tool kinds.
pub fn tool_call_target(kind: ToolKind, locations: &Vec<String>, raw_input: Option<&String>) -> (target:
    Option<String>)
    ensures
        chars::optional_text(target) == target_of(
            kind,
            chars::texts(locations@),
            match raw_input {
                Some(input) => Some(input@),
                None => None,
            },
        ),
{
    let file_operation = match kind {
        ToolKind::Read => true,
        ToolKind::Edit => true,
        ToolKind::Delete => true,
        ToolKind::Move => true,
        ToolKind::Search => true,
        _ => false,
    };
    if !file_operation {
        return None;
    }
    assert(chars::texts(locations@).len() == locations@.len());
    if locations.len() > 0 {
        assert(chars::texts(locations@)[0] == locations@[0]@);
        return Some(locations[0].clone());
    }
    match raw_input {
        Some(input) => match parse_document(input.as_str().as_bytes()) {
            Ok(document) => path_in_input(&document),
            Err(_) => None,
        },
        None => None,
    }
}

/// Extracts the display title and raw input parameters of the tool call a
/// permission request refers to.
pub fn permission_request_details(title: Option<String>, raw_input: Option<String>) -> (details: (
    String,
    Option<String>,
))
    ensures
        details.0@ == (match title {
            Some(title) => title@,
            None => "Tool call"@,
        }),
        details.1 == raw_input,
{
    let title = match title {
        Some(title) => title,
        None => "Tool call".to_owned(),
    };
    (title, raw_input)
}

/// Whether an option is a selector of the model.
pub open spec fn selects_model(option: ConfigOption) -> bool {
    option.category == Some(ConfigCategory::Model) && option.current_value is Some
}

/// The value of the first selector of a model, where there is one.
pub open spec fn selected_model(options: Seq<ConfigOption>) -> Option<Seq<char>>
    decreases options.len(),
{
    if options.len() == 0 {
        None
    } else if selects_model(options[0]) {
        Some(options[0].current_value->0@)
    } else {
        selected_model(options.skip(1))
    }
}

/// Extracts the current value of the model selector, if the agent reports one.
pub fn model_from_config_options(options: &Vec<ConfigOption>) -> (model: Option<String>)
    ensures
        chars::optional_text(model) == selected_model(options@),
{
    let mut i: usize = 0;
    assert(options@.skip(0) =~= options@);
    while i < options.len()
        invariant
            i <= options.len(),
            selected_model(options@) == selected_model(options@.skip(i as int)),
        decreases options.len() - i,
    {
        assert(options@.skip(i as int).skip(1) =~= options@.skip(i + 1));
        assert(options@.skip(i as int)[0] == options@[i as int]);
        let option = &options[i];
        if let Some(ConfigCategory::Model) = option.category {
            if let Some(value) = &option.current_value {
                return Some(value.clone());
            }
        }
        i = i + 1;
    }
    None
}

/// A JSON text with line breaks and indentation, where it is JSON.
pub uninterp spec fn json_pretty(json: Seq<char>) -> Option<Seq<char>>;

/// Lays out a JSON text, as `serde_json::to_string_pretty` does with the value
/// that the text is read as.
#[verifier::external_body]
fn pretty(json: &str) -> (text: Option<String>)
    ensures
        chars::optional_text(text) == json_pretty(json@),
{
    serde_json::from_str::<serde_json::Value>(json).and_then(
        |value| serde_json::to_string_pretty(&value),
    ).ok()
}

/// An output as it is shown: laid out where it is JSON, and as it is elsewhere.
pub open spec fn shown_output(output: Seq<char>, laid_out: Option<Seq<char>>) -> Seq<char> {
    match laid_out {
        Some(text) => text,
        None => output,
    }
}

/// A piece of a result as text.
pub open spec fn content_text(content: ToolCallContent) -> Seq<char> {
    match content {
        ToolCallContent::Content(block) => acp::block_text(block),
        ToolCallContent::Diff(path) => "[diff: "@ + path@ + "]"@,
        ToolCallContent::Terminal(terminal_id) => "[terminal: "@ + terminal_id@ + "]"@,
        ToolCallContent::Unknown => "[unsupported content type]"@,
    }
}

/// The pieces of a result as texts.
pub open spec fn content_texts(content: Seq<ToolCallContent>) -> Seq<Seq<char>> {
    Seq::new(content.len(), |i: int| content_text(content[i]))
}

/// Whether a result is that of a file read that succeeded, and nothing but
/// content.
pub open spec fn is_file_content(
    kind: Option<ToolKind>,
    status: Option<ToolCallStatus>,
    content: Seq<ToolCallContent>,
) -> bool {
    &&& kind == Some(ToolKind::Read)
    &&& status == Some(ToolCallStatus::Completed)
    &&& content.len() > 0
    &&& forall|i: int| 0 <= i < content.len() ==> #[trigger] content[i] is Content
}

/// A number of lines in words.
pub open spec fn line_count_text(count: nat) -> Seq<char> {
    if count == 1 {
        "1 line"@
    } else {
        number::decimal(count) + " lines"@
    }
}

/// The result of a tool call as it is shown. A successful file read is reduced
/// to its line count; any other result is shown as it is, or else its raw
/// output is laid out.
pub open spec fn result_of(
    kind: Option<ToolKind>,
    status: Option<ToolCallStatus>,
    content: Seq<ToolCallContent>,
    raw_output: Option<Seq<char>>,
) -> Option<Seq<char>> {
    let text = search::join(content_texts(content), "\n"@);
    if is_file_content(kind, status, content) {
        Some(line_count_text(lines::lines_of(text).len()))
    } else if content.len() > 0 {
        Some(text)
    } else {
        match raw_output {
            Some(output) => Some(shown_output(output, json_pretty(output))),
            None => None,
        }
    }
}

fn rendered(content: &ToolCallContent) -> (text: String)
    ensures
        text@ == content_text(*content),
{
    match content {
        ToolCallContent::Content(block) => PromptRunner::content_block_to_string(block),
        ToolCallContent::Diff(path) => {
            let mut text = "[diff: ".to_owned();
            text.append(path.as_str());
            text.append("]");
            text
        },
        ToolCallContent::Terminal(terminal_id) => {
            let mut text = "[terminal: ".to_owned();
            text.append(terminal_id.as_str());
            text.append("]");
            text
        },
        ToolCallContent::Unknown => "[unsupported content type]".to_owned(),
    }
}

fn joined(content: &Vec<ToolCallContent>) -> (text: String)
    ensures
        text@ == search::join(content_texts(content@), "\n"@),
{
    let mut texts: Vec<String> = Vec::new();
    let mut i: usize = 0;
    while i < content.len()
        invariant
            i <= content.len(),
            texts@.len() == i,
            forall|k: int| 0 <= k < i ==> (#[trigger] texts@[k])@ == content_text(content@[k]),
        decreases content.len() - i,
    {
        texts.push(rendered(&content[i]));
        i = i + 1;
    }
    assert(chars::texts(texts@) =~= content_texts(content@));
    join_texts(&texts, "\n")
}

fn file_content(
    kind: Option<ToolKind>,
    status: Option<ToolCallStatus>,
    content: &Vec<ToolCallContent>,
) -> (is: bool)
    ensures
        is == is_file_content(kind, status, content@),
{
    let read = match kind {
        Some(ToolKind::Read) => true,
        _ => false,
    };
    let completed = match status {
        Some(ToolCallStatus::Completed) => true,
        _ => false,
    };
    if !read || !completed || content.len() == 0 {
        return false;
    }
    let mut i: usize = 0;
    while i < content.len()
        invariant
            i <= content.len(),
            forall|k: int| 0 <= k < i ==> #[trigger] content@[k] is Content,
        decreases content.len() - i,
    {
        match &content[i] {
            ToolCallContent::Content(_) => {},
            _ => {
                assert(!(content@[i as int] is Content));
                return false;
            },
        }
        i = i + 1;
    }
    true
}

/// Renders a tool call's result content into a display string, joining
/// standard content blocks, summarizing diffs and terminal embeds, and falling
/// back to pretty-printed `raw_output` when no content blocks were provided.
/// Returns `None` when the tool call carries no result yet. A successful file
/// read is reduced to its line count so file contents don't dump into the
/// chat; other results are shown verbatim.
pub fn tool_call_result(
    kind: Option<ToolKind>,
    status: Option<ToolCallStatus>,
    content: &Vec<ToolCallContent>,
    raw_output: Option<&String>,
) -> (result: Option<String>)
    ensures
        chars::optional_text(result) == result_of(
            kind,
            status,
            content@,
            match raw_output {
                Some(output) => Some(output@),
                None => None,
            },
        ),
{
    if content.len() > 0 {
        let text = joined(content);
        if file_content(kind, status, content) {
            let found = lines(text.as_str());
            assert(chars::texts(found@).len() == found@.len());
            let count: usize = found.len();
            if count == 1 {
                return Some("1 line".to_owned());
            }
            let mut summary = decimal_text(count as u64);
            summary.append(" lines");
            return Some(summary);
        }
        return Some(text);
    }
    match raw_output {
        Some(output) => match pretty(output.as_str()) {
            Some(text) => Some(text),
            None => Some(output.clone()),
        },
        None => None,
    }
}

/// What a tool call with content came to, other than a completed file read, is
/// the texts of all its blocks, in order, a line break between each two: one more
/// block makes the text longer by a line break and the text of the block.
pub proof fn every_block_is_shown(
    kind: Option<ToolKind>,
    status: Option<ToolCallStatus>,
    content: Seq<ToolCallContent>,
    block: ToolCallContent,
    raw_output: Option<Seq<char>>,
)
    requires
        !(kind == Some(ToolKind::Read) && status == Some(ToolCallStatus::Completed)),
    ensures
        result_of(kind, status, seq![block], raw_output) == Some(content_text(block)),
        content.len() > 0 ==> (result_of(kind, status, content, raw_output) matches Some(text)
            && result_of(kind, status, content.push(block), raw_output) == Some(
            text + seq!['\n'] + content_text(block),
        )),
{
    reveal_strlit("\n");
    assert("\n"@ =~= seq!['\n']);
    let texts = content_texts(content);
    assert(content_texts(seq![block]) =~= seq![content_text(block)]);
    search::joining_adds_part_by_part(texts, content_text(block), "\n"@);
    if content.len() > 0 {
        assert(content_texts(content.push(block)) =~= texts.push(content_text(block)));
    }
}

/// A completed file read shows how many lines came back, and none of them, as
/// long as it came back as content alone.
pub proof fn file_reads_show_their_length(
    content: Seq<ToolCallContent>,
    raw_output: Option<Seq<char>>,
)
    requires
        content.len() > 0,
    ensures
        ({
            let shown = result_of(
                Some(ToolKind::Read),
                Some(ToolCallStatus::Completed),
                content,
                raw_output,
            );
            let whole = result_of(
                Some(ToolKind::Read),
                Some(ToolCallStatus::Failed),
                content,
                raw_output,
            );
            &&& whole is Some
            &&& (forall|i: int| 0 <= i < content.len() ==> #[trigger] content[i] is Content)
                ==> shown == Some(line_count_text(lines::lines_of(whole->0).len()))
            &&& (exists|i: int| 0 <= i < content.len() && !(#[trigger] content[i] is Content))
                ==> shown == whole
        }),
{
}

/// A tool call without content shows its raw output, where it has any, and
/// nothing else; content always comes before it.
pub proof fn raw_output_stands_in_for_content(
    kind: Option<ToolKind>,
    status: Option<ToolCallStatus>,
    content: Seq<ToolCallContent>,
    output: Seq<char>,
)
    ensures
        content.len() == 0 ==> {
            &&& result_of(kind, status, content, None) is None
            &&& result_of(kind, status, content, Some(output)) == Some(
                match json_pretty(output) {
                    Some(text) => text,
                    None => output,
                },
            )
        },
        content.len() > 0 ==> {
            &&& result_of(kind, status, content, None) is Some
            &&& result_of(kind, status, content, Some(output)) == result_of(
                kind,
                status,
                content,
                None,
            )
        },
{
}

/// A title that is shown holds the title of the tool call, names the file where
/// there is one, by its path or its last component, and says of a command that
/// it is one. A title that needs neither is left as it is.
pub proof fn titles_keep_the_title(kind: ToolKind, title: Seq<char>, target: Option<Seq<char>>)
    ensures
        search::contains(full_title(kind, title, target), title),
        kind is Execute ==> search::starts_with(
            full_title(kind, title, target),
            "Shell command: "@ + title,
        ),
        !(kind is Execute) ==> search::starts_with(full_title(kind, title, target), title),
        !(kind is Execute) && target is None ==> full_title(kind, title, target) == title,
        target matches Some(path) ==> search::contains(full_title(kind, title, target), path) || (
        path_file_name(path) matches Some(name) && search::contains(
            full_title(kind, title, target),
            name,
        )),
        target matches Some(path) ==> !(kind is Execute) && search::contains(title, path)
            ==> full_title(kind, title, target) == title,
{
    reveal_strlit("Shell command: ");
    reveal_strlit(" (");
    let full = full_title(kind, title, target);
    let start = labelled(kind, title);
    assert(full.take(start.len() as int) =~= start);
    let from: int = if kind is Execute {
        15
    } else {
        0
    };
    assert(full.subrange(from, from + title.len()) =~= title);
    search::containing_is_standing_somewhere(full, title);
    if let Some(path) = target {
        if !names_file(start, path, path_file_name(path)) {
            let at: int = start.len() + 2int;
            assert(full.subrange(at, at + path.len()) =~= path);
            search::containing_is_standing_somewhere(full, path);
        }
    }
}

/// The file a tool call operates on is its first location, whatever its input
/// says; and a tool that is no file operation has none.
pub proof fn locations_come_first(
    kind: ToolKind,
    locations: Seq<Seq<char>>,
    input: Option<Seq<char>>,
)
    ensures
        kind is Execute || kind is Think || kind is Fetch || kind is SwitchMode || kind is Other
            ==> target_of(kind, locations, input) is None,
        (kind is Read || kind is Edit || kind is Delete || kind is Move || kind is Search)
            && locations.len() > 0 ==> target_of(kind, locations, input) == Some(locations[0]),
        locations.len() == 0 && input is None ==> target_of(kind, locations, input) is None,
        (kind is Read || kind is Edit || kind is Delete || kind is Move || kind is Search)
            && locations.len() == 0 ==> (input matches Some(text) ==> (json::json_document(
            utf8::encode_utf8(text),
        ) matches Ok(document) ==> target_of(kind, locations, input) == (match json::text_member(
            document,
            "path"@,
        ) {
            Some(path) => Some(path),
            None => json::text_member(document, "file_path"@),
        }))),
{
}

/// The model is the value of the first option that selects one: options before
/// it that do not are passed over, and later ones do not count.
pub proof fn the_first_selector_counts(options: Seq<ConfigOption>, index: int)
    requires
        0 <= index < options.len(),
        options[index].category == Some(ConfigCategory::Model),
        options[index].current_value is Some,
        forall|i: int|
            0 <= i < index ==> (#[trigger] options[i]).category != Some(ConfigCategory::Model)
                || options[i].current_value is None,
    ensures
        selected_model(options) == Some(options[index].current_value->0@),
    decreases options.len(),
{
    if index > 0 {
        let rest = options.skip(1);
        assert(!selects_model(options[0]));
        assert forall|i: int| 0 <= i < index - 1 implies (#[trigger] rest[i]).category != Some(
            ConfigCategory::Model,
        ) || rest[i].current_value is None by {
            assert(rest[i] == options[i + 1]);
        }
        assert(rest[index - 1] == options[index]);
        the_first_selector_counts(rest, index - 1);
    }
}

/// Where no option selects a model there is none.
pub proof fn without_a_selector_there_is_no_model(options: Seq<ConfigOption>)
    requires
        forall|i: int|
            0 <= i < options.len() ==> (#[trigger] options[i]).category != Some(
                ConfigCategory::Model,
            ) || options[i].current_value is None,
    ensures
        selected_model(options) is None,
    decreases options.len(),
{
    if options.len() > 0 {
        let rest = options.skip(1);
        assert(!selects_model(options[0]));
        assert forall|i: int| 0 <= i < rest.len() implies (#[trigger] rest[i]).category != Some(
            ConfigCategory::Model,
        ) || rest[i].current_value is None by {
            assert(rest[i] == options[i + 1]);
        }
        without_a_selector_there_is_no_model(rest);
    }
}

/// The last component of a path is what stands behind its last slash, where that
/// is a name; a path that ends in a slash has the one before it.
pub proof fn file_names_stand_behind_the_last_slash(before: Seq<Seq<char>>, name: Seq<char>)
    ensures
        name.len() > 0 && name != "."@ && name != ".."@ ==> last_name(before.push(name)) == Some(
            name,
        ),
        name == ".."@ ==> last_name(before.push(name)) is None,
        name.len() == 0 || name == "."@ ==> last_name(before.push(name)) == last_name(before),
        last_name(Seq::empty()) is None,
{
    reveal_strlit(".");
    reveal_strlit("..");
    assert(".."@.len() == 2);
    assert("."@.len() == 1);
    assert(before.push(name).drop_last() =~= before);
}

/// Diffs and terminals are named in brackets, and other content is shown as its
/// block is.
pub proof fn pieces_are_named(block: ContentBlock, name: String)
    ensures
        content_text(ToolCallContent::Content(block)) == acp::block_text(block),
        search::starts_with(content_text(ToolCallContent::Diff(name)), "[diff: "@ + name@),
        content_text(ToolCallContent::Diff(name)).last() == ']',
        content_text(ToolCallContent::Diff(name)).len() == name@.len() + 8,
        search::starts_with(content_text(ToolCallContent::Terminal(name)), "[terminal: "@ + name@),
        content_text(ToolCallContent::Terminal(name)).last() == ']',
        content_text(ToolCallContent::Terminal(name)).len() == name@.len() + 12,
{
    reveal_strlit("[diff: ");
    reveal_strlit("[terminal: ");
    reveal_strlit("]");
    let diff = "[diff: "@ + name@;
    let terminal = "[terminal: "@ + name@;
    assert(content_text(ToolCallContent::Diff(name)).take(diff.len() as int) =~= diff);
    assert(content_text(ToolCallContent::Terminal(name)).take(terminal.len() as int) =~= terminal);
}

/// Lines are counted in words, a single one in the singular.
pub proof fn lines_are_counted_in_words(count: nat)
    ensures
        line_count_text(1) == "1 line"@,
        count != 1 ==> line_count_text(count) == number::decimal(count) + " lines"@,
{
}

} // verus!
