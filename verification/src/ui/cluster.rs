//! A tool cluster as lines of text.

use vstd::prelude::*;

use crate::chat_log;
use crate::chat_log::{CallView, ClusterView, Step, StepView, ToolCallEntry, ToolCluster};
use crate::text::chars;
use crate::text::lines;
use crate::text::lines::lines;
use crate::text::number;
use crate::text::number::decimal_text;
use crate::text::search;
use crate::text::search::strip_text_prefix;
use crate::text::words;
use crate::text::words::trimmed_start;
use crate::ui::style;
use crate::ui::style::{
    animated_status_icon, status_style, Color, LineView, StyledLine, TextStyle,
};

verus! {

/// A text wrapped to a width, the first line behind one indent and the others
/// behind another.
pub uninterp spec fn filled(
    text: Seq<char>,
    width: nat,
    initial: Seq<char>,
    subsequent: Seq<char>,
) -> Seq<char>;

/// Wraps a text. What `textwrap::fill` makes of it is a function of the text,
/// the width and the two indents alone.
#[verifier::external_body]
fn fill(text: &str, width: usize, initial: &str, subsequent: &str) -> (wrapped: String)
    ensures
        wrapped@ == filled(text@, width as nat, initial@, subsequent@),
{
    let options = textwrap::Options::new(width).initial_indent(initial).subsequent_indent(
        subsequent,
    );
    textwrap::fill(text, options)
}

/// A comment without the name in front of it.
pub open spec fn without_name(comment: Seq<char>, name: Seq<char>) -> Seq<char> {
    if search::starts_with(comment, name) {
        let rest = words::trim_start(comment.skip(name.len() as int));
        if rest.len() > 0 && rest[0] == ':' {
            words::trim_start(rest.skip(1))
        } else {
            words::trim_start(rest)
        }
    } else {
        comment
    }
}

/// Strips a leading `name` from `comment`, along with an optional `:`
/// and surrounding whitespace, so a self-labeled tool result like
/// `"run_tests: ok"` doesn't repeat the name already shown next to it.
pub fn strip_redundant_name(comment: &str, name: &str) -> (stripped: String)
    ensures
        stripped@ == without_name(comment@, name@),
{
    match strip_text_prefix(comment, name) {
        Some(rest) => {
            let rest = trimmed_start(rest.as_str());
            proof {
                reveal_strlit(":");
                assert(":"@ =~= seq![':']);
                if rest@.len() > 0 {
                    assert(rest@.take(1)[0] == rest@[0]);
                    assert(rest@[0] == ':' ==> rest@.take(1) =~= seq![':']);
                }
            }
            match strip_text_prefix(rest.as_str(), ":") {
                Some(rest) => trimmed_start(rest.as_str()),
                None => trimmed_start(rest.as_str()),
            }
        },
        None => comment.to_owned(),
    }
}

/// What a cluster is doing, from the number of its tool calls.
pub open spec fn cluster_label(count: nat) -> Seq<char> {
    if count == 0 {
        "Thinking.."@
    } else if count == 1 {
        "Calling 1 Tool.."@
    } else {
        "Calling "@ + number::decimal(count) + " Tools.."@
    }
}

/// The summary line of a cluster. One that has the focus is marked.
pub open spec fn summary_line(cluster: ClusterView, is_focused: bool, phase: nat) -> LineView {
    let status = chat_log::aggregate_status(cluster.steps);
    let marker = if is_focused {
        "\u{25b8}"@
    } else {
        style::live_icon(status, phase)
    };
    LineView {
        text: marker + " "@ + cluster_label(chat_log::call_count(cluster.steps)),
        style: if is_focused {
            TextStyle { color: Color::White, bold: true }
        } else {
            TextStyle { color: style::status_color(status), bold: false }
        },
    }
}

fn summary(cluster: &ToolCluster, is_focused: bool, spinner_phase: usize) -> (line: StyledLine)
    ensures
        line@ == summary_line(cluster@, is_focused, spinner_phase as nat),
{
    let status = cluster.status();
    let (icon, color, _) = status_style(status);
    let icon = animated_status_icon(status, spinner_phase, icon);
    let count: usize = cluster.tool_call_count();
    let label = match count {
        0 => "Thinking..".to_owned(),
        1 => "Calling 1 Tool..".to_owned(),
        _ => {
            let mut label = "Calling ".to_owned();
            label.append(decimal_text(count as u64).as_str());
            label.append(" Tools..");
            label
        },
    };
    let mut text = if is_focused {
        "\u{25b8}".to_owned()
    } else {
        icon.to_owned()
    };
    text.append(" ");
    text.append(label.as_str());
    let style = if is_focused {
        TextStyle { color: Color::White, bold: true }
    } else {
        TextStyle { color, bold: false }
    };
    StyledLine { text, style }
}

/// What is said of a result next to the name of its tool: its first line,
/// without the name.
pub open spec fn comment_of(call: CallView) -> Seq<char> {
    match call.result {
        Some(result) => if lines::lines_of(result).len() > 0 {
            without_name(lines::lines_of(result)[0], call.name)
        } else {
            Seq::empty()
        },
        None => Seq::empty(),
    }
}

/// A step on one line.
pub open spec fn step_line(step: StepView, phase: nat) -> Seq<char> {
    match step {
        StepView::Thought(text) => "\u{1f914} "@ + text,
        StepView::ToolCall(call) => {
            let named = "\u{1f527} "@ + call.name + " "@ + style::live_icon(call.status, phase);
            if comment_of(call).len() == 0 {
                named
            } else {
                named + " \u{2014} "@ + comment_of(call)
            }
        },
    }
}

fn call_comment(entry: &ToolCallEntry) -> (comment: String)
    ensures
        comment@ == comment_of(entry@),
{
    match &entry.result {
        Some(result) => {
            let found = lines(result.as_str());
            assert(chars::texts(found@).len() == found@.len());
            if found.len() > 0 {
                assert(chars::texts(found@)[0] == found@[0]@);
                strip_redundant_name(found[0].as_str(), entry.name.as_str())
            } else {
                let none = String::new();
                assert(none@ =~= Seq::<char>::empty());
                none
            }
        },
        None => {
            let none = String::new();
            assert(none@ =~= Seq::<char>::empty());
            none
        },
    }
}

/// A step on one line, before it is wrapped.
pub fn step_text(step: &Step, spinner_phase: usize) -> (text: String)
    ensures
        text@ == step_line(step@, spinner_phase as nat),
{
    match step {
        Step::Thought(thought) => {
            let mut text = "\u{1f914} ".to_owned();
            text.append(thought.as_str());
            text
        },
        Step::ToolCall(entry) => {
            let (icon, _, _) = status_style(entry.status);
            let icon = animated_status_icon(entry.status, spinner_phase, icon);
            let comment = call_comment(entry);
            let mut text = "\u{1f527} ".to_owned();
            text.append(entry.name.as_str());
            text.append(" ");
            text.append(icon);
            if comment.as_str().unicode_len() > 0 {
                text.append(" \u{2014} ");
                text.append(comment.as_str());
            }
            text
        },
    }
}

/// The style of a step.
pub open spec fn step_style(selected: bool) -> TextStyle {
    if selected {
        TextStyle { color: Color::Yellow, bold: true }
    } else {
        TextStyle { color: Color::White, bold: false }
    }
}

/// A wrapped text as styled lines.
pub open spec fn styled_lines(text: Seq<char>, style: TextStyle) -> Seq<LineView> {
    Seq::new(lines::lines_of(text).len(), |i: int| LineView { text: lines::lines_of(text)[i], style })
}

/// A wrapped text as styled lines.
pub fn style_lines(text: &str, style: TextStyle) -> (styled: Vec<StyledLine>)
    ensures
        style::line_views(styled@) == styled_lines(text@, style),
{
    let found = lines(text);
    let ghost all = chars::texts(found@);
    let mut styled: Vec<StyledLine> = Vec::new();
    let mut i: usize = 0;
    while i < found.len()
        invariant
            all == chars::texts(found@),
            all == lines::lines_of(text@),
            i <= found@.len(),
            styled@.len() == i,
            forall|k: int|
                0 <= k < i ==> (#[trigger] styled@[k])@ == (LineView { text: all[k], style }),
        decreases found@.len() - i,
    {
        assert(all[i as int] == found@[i as int]@);
        styled.push(StyledLine { text: found[i].clone(), style });
        i = i + 1;
    }
    assert(all.len() == found@.len());
    assert(style::line_views(styled@) =~= styled_lines(text@, style));
    styled
}

/// What stands in front of a step: a branch, or the last one.
pub open spec fn branch(is_last: bool) -> Seq<char> {
    if is_last {
        "\u{2570}\u{2500}\u{2500} "@
    } else {
        "\u{251c}\u{2500}\u{2500} "@
    }
}

/// The lines of a step in a cluster of some width.
pub open spec fn step_lines(
    step: StepView,
    is_last: bool,
    selected: bool,
    phase: nat,
    width: nat,
) -> Seq<LineView> {
    let columns = if width == 0 {
        1
    } else {
        width
    };
    styled_lines(
        filled(step_line(step, phase), columns, branch(is_last), "│  "@),
        step_style(selected),
    )
}

/// The lines of the first steps that show.
pub open spec fn shown_lines(
    shown: Seq<StepView>,
    count: nat,
    hidden: nat,
    selected: Option<usize>,
    phase: nat,
    width: nat,
) -> Seq<LineView>
    decreases count,
{
    if count == 0 {
        Seq::empty()
    } else {
        let index = (count - 1) as nat;
        shown_lines(shown, index, hidden, selected, phase, width) + step_lines(
            shown[index as int],
            count == shown.len(),
            selected matches Some(selected) && selected == hidden + index,
            phase,
            width,
        )
    }
}

/// The marker of hidden steps.
pub open spec fn hidden_line() -> LineView {
    LineView { text: "\u{22ee}"@, style: TextStyle { color: Color::White, bold: false } }
}

/// The lines of a cluster: its summary, a marker where steps are hidden, and
/// the steps that show.
pub open spec fn cluster_lines(
    cluster: ClusterView,
    is_focused: bool,
    keep_live: bool,
    selected: Option<usize>,
    phase: nat,
    width: nat,
) -> Seq<LineView> {
    let shown = chat_log::shown_steps(cluster, keep_live);
    let hidden = (cluster.steps.len() - shown.len()) as nat;
    let summary = seq![summary_line(cluster, is_focused, phase)];
    if shown.len() == 0 {
        summary
    } else {
        (if hidden > 0 {
            summary.push(hidden_line())
        } else {
            summary
        }) + shown_lines(shown, shown.len(), hidden, selected, phase, width)
    }
}

fn wrapped_step(step: &Step, is_last: bool, selected: bool, phase: usize, width: u16) -> (styled: Vec<
    StyledLine,
>)
    ensures
        style::line_views(styled@) == step_lines(
            step@,
            is_last,
            selected,
            phase as nat,
            width as nat,
        ),
{
    let columns: usize = if width == 0 {
        1
    } else {
        width as usize
    };
    let corner = if is_last {
        "\u{2570}\u{2500}\u{2500} "
    } else {
        "\u{251c}\u{2500}\u{2500} "
    };
    let text = step_text(step, phase);
    let wrapped = fill(text.as_str(), columns, corner, "│  ");
    let style = if selected {
        TextStyle { color: Color::Yellow, bold: true }
    } else {
        TextStyle { color: Color::White, bold: false }
    };
    style_lines(wrapped.as_str(), style)
}

/// Renders a tool cluster as a summary line followed by its visible steps.
/// `keep_live` defers the collapse of a just-settled cluster while it is
/// still the last message.
pub fn render_tool_cluster(
    cluster: &ToolCluster,
    is_focused: bool,
    keep_live: bool,
    selected_step: Option<usize>,
    spinner_phase: usize,
    width: u16,
) -> (lines: Vec<StyledLine>)
    ensures
        style::line_views(lines@) == cluster_lines(
            cluster@,
            is_focused,
            keep_live,
            selected_step,
            spinner_phase as nat,
            width as nat,
        ),
{
    let mut lines: Vec<StyledLine> = Vec::new();
    lines.push(summary(cluster, is_focused, spinner_phase));
    let ghost first = seq![summary_line(cluster@, is_focused, spinner_phase as nat)];
    assert(style::line_views(lines@) =~= first);
    let steps = cluster.steps();
    let shown = cluster.visible_steps(keep_live);
    let ghost all = chat_log::shown_steps(cluster@, keep_live);
    assert(chat_log::step_views(shown@).len() == shown@.len());
    assert(chat_log::step_views(steps@).len() == steps@.len());
    if shown.len() == 0 {
        return lines;
    }
    let hidden: usize = steps.len() - shown.len();
    if hidden > 0 {
        let marker = StyledLine {
            text: "\u{22ee}".to_owned(),
            style: TextStyle { color: Color::White, bold: false },
        };
        lines.push(marker);
        assert(style::line_views(lines@) =~= first.push(hidden_line()));
    }
    let ghost head = style::line_views(lines@);
    let ghost phase = spinner_phase as nat;
    let ghost columns = width as nat;
    let mut i: usize = 0;
    assert(head + shown_lines(all, 0, hidden as nat, selected_step, phase, columns) =~= head);
    while i < shown.len()
        invariant
            all == chat_log::step_views(shown@),
            phase == spinner_phase,
            columns == width,
            i <= shown@.len(),
            hidden + shown@.len() <= usize::MAX,
            style::line_views(lines@) == head + shown_lines(
                all,
                i as nat,
                hidden as nat,
                selected_step,
                phase,
                columns,
            ),
        decreases shown@.len() - i,
    {
        let is_last = i + 1 == shown.len();
        let selected = match selected_step {
            Some(selected) => selected == hidden + i,
            None => false,
        };
        assert(all[i as int] == shown@[i as int]@);
        let mut wrapped = wrapped_step(&shown[i], is_last, selected, spinner_phase, width);
        proof {
            let before = lines@;
            let added = wrapped@;
            assert(style::line_views(before + added) =~= style::line_views(before)
                + style::line_views(added));
            let done = shown_lines(all, i as nat, hidden as nat, selected_step, phase, columns);
            assert(shown_lines(
                all,
                (i + 1) as nat,
                hidden as nat,
                selected_step,
                phase,
                columns,
            ) == done + style::line_views(added));
            assert(head + (done + style::line_views(added)) =~= head + done + style::line_views(
                added,
            ));
        }
        lines.append(&mut wrapped);
        i = i + 1;
    }
    lines
}

/// A settled cluster that is collapsed is its summary line alone.
pub proof fn collapsed_cluster_is_its_summary(
    cluster: ClusterView,
    is_focused: bool,
    selected: Option<usize>,
    phase: nat,
    width: nat,
)
    requires
        !cluster.expanded,
        !chat_log::shows_live(cluster, false),
    ensures
        cluster_lines(cluster, is_focused, false, selected, phase, width) == seq![
            summary_line(cluster, is_focused, phase),
        ],
{
}

/// A comment loses the name in front of it, with a colon and blanks behind the
/// name, and nothing else; a comment that does not start with the name is left as
/// it is.
pub proof fn only_the_name_is_taken_off(name: Seq<char>, rest: Seq<char>)
    requires
        rest.len() > 0,
        !chars::is_space(rest[0]),
    ensures
        without_name(name + seq![':', ' '] + rest, name) == rest,
        without_name(name + seq![':'] + rest, name) == rest,
        rest[0] != ':' ==> without_name(name + rest, name) == rest,
        rest[0] != ':' ==> without_name(name + seq![' '] + rest, name) == rest,
        !search::starts_with(rest, name) ==> without_name(rest, name) == rest,
{
    let colon = name + seq![':', ' '] + rest;
    assert(colon.take(name.len() as int) =~= name);
    assert(colon.skip(name.len() as int) =~= seq![':', ' '] + rest);
    assert((seq![':', ' '] + rest).skip(1) =~= seq![' '] + rest);
    assert((seq![' '] + rest).skip(1) =~= rest);
    assert(words::trim_start(seq![' '] + rest) == words::trim_start(rest));
    let tight = name + seq![':'] + rest;
    assert(tight.take(name.len() as int) =~= name);
    assert(tight.skip(name.len() as int) =~= seq![':'] + rest);
    assert((seq![':'] + rest).skip(1) =~= rest);
    let bare = name + rest;
    assert(bare.take(name.len() as int) =~= name);
    assert(bare.skip(name.len() as int) =~= rest);
    let spaced = name + seq![' '] + rest;
    assert(spaced.take(name.len() as int) =~= name);
    assert(spaced.skip(name.len() as int) =~= seq![' '] + rest);
    assert(words::trim_start(rest) == rest);
}

/// The label of a cluster tells how many tool calls it holds, and of one without
/// any that it is thinking.
pub proof fn labels_tell_the_number_of_calls(count: nat)
    ensures
        count > 0 ==> search::starts_with(
            cluster_label(count),
            "Calling "@ + number::decimal(count) + " Tool"@,
        ),
        count == 0 ==> search::starts_with(cluster_label(count), "Thinking"@),
{
    reveal_strlit("Calling ");
    reveal_strlit(" Tool");
    reveal_strlit(" Tools..");
    reveal_strlit("Calling 1 Tool..");
    reveal_strlit("Thinking..");
    reveal_strlit("Thinking");
    let label = cluster_label(count);
    if count == 0 {
        assert(label.take("Thinking"@.len() as int) =~= "Thinking"@);
    } else {
        let start = "Calling "@ + number::decimal(count) + " Tool"@;
        if count == 1 {
            assert(number::decimal(1) =~= seq!['1']);
        }
        assert(label.take(start.len() as int) =~= start);
    }
}

/// The summary line tells the number of the tool calls in the cluster, behind its
/// status or, where it has the focus, a marker.
pub proof fn summaries_tell_status_and_number(cluster: ClusterView, phase: nat, is_focused: bool)
    ensures
        search::ends_with(
            summary_line(cluster, is_focused, phase).text,
            cluster_label(chat_log::call_count(cluster.steps)),
        ),
        !is_focused ==> search::starts_with(
            summary_line(cluster, is_focused, phase).text,
            style::live_icon(chat_log::aggregate_status(cluster.steps), phase),
        ),
        !is_focused ==> summary_line(cluster, is_focused, phase).style.color
            == style::status_color(chat_log::aggregate_status(cluster.steps)),
        is_focused ==> summary_line(cluster, is_focused, phase).style.bold,
        !is_focused ==> !summary_line(cluster, is_focused, phase).style.bold,
{
    let text = summary_line(cluster, is_focused, phase).text;
    let label = cluster_label(chat_log::call_count(cluster.steps));
    assert(text.skip(text.len() - label.len()) =~= label);
    let icon = style::live_icon(chat_log::aggregate_status(cluster.steps), phase);
    if !is_focused {
        assert(text.take(icon.len() as int) =~= icon);
    }
}

/// A step is shown with all it has to say on one line: a thought in full, and a
/// tool call by its name, its status and the first line of its result.
pub proof fn steps_tell_what_they_are(step: StepView, phase: nat)
    ensures
        step matches StepView::Thought(text) ==> search::ends_with(step_line(step, phase), text),
        step matches StepView::ToolCall(call) ==> {
            &&& search::contains(
                step_line(step, phase),
                call.name + seq![' '] + style::live_icon(call.status, phase),
            )
            &&& call.result is None ==> search::ends_with(
                step_line(step, phase),
                style::live_icon(call.status, phase),
            )
            &&& search::ends_with(step_line(step, phase), comment_of(call))
        },
        step matches StepView::ToolCall(call) ==> (call.result matches Some(result) ==> (
        lines::lines_of(result).len() > 0 && !search::starts_with(
            lines::lines_of(result)[0],
            call.name,
        ) ==> comment_of(call) == lines::lines_of(result)[0])),
{
    reveal_strlit(" ");
    assert(" "@ =~= seq![' ']);
    let line = step_line(step, phase);
    match step {
        StepView::Thought(text) => {
            assert(line.skip(line.len() - text.len()) =~= text);
        },
        StepView::ToolCall(call) => {
            let icon = style::live_icon(call.status, phase);
            let named = call.name + seq![' '] + icon;
            let at = "\u{1f527} "@.len() as int;
            assert(line.subrange(at, at + named.len()) =~= named);
            search::containing_is_standing_somewhere(line, named);
            let comment = comment_of(call);
            assert(line.skip(line.len() - comment.len()) =~= comment);
            if comment.len() == 0 {
                assert(line.skip(line.len() - icon.len()) =~= icon);
            }
        },
    }
}

/// Lines are styled one by one: each is drawn as it is, in the one style.
pub proof fn styling_keeps_the_lines(text: Seq<char>, style: TextStyle, index: int)
    requires
        0 <= index < lines::lines_of(text).len(),
    ensures
        styled_lines(text, style).len() == lines::lines_of(text).len(),
        styled_lines(text, style)[index].text == lines::lines_of(text)[index],
        styled_lines(text, style)[index].style == style,
{
}

proof fn lemma_shown_lines(
    shown: Seq<StepView>,
    count: nat,
    hidden: nat,
    selected: Option<usize>,
    phase: nat,
    width: nat,
    index: int,
) -> (from: int)
    requires
        0 <= index < count <= shown.len(),
    ensures
        0 <= from,
        ({
            let own = step_lines(
                shown[index],
                index + 1 == shown.len(),
                selected matches Some(selected) && selected == hidden + index,
                phase,
                width,
            );
            let all = shown_lines(shown, count, hidden, selected, phase, width);
            from + own.len() <= all.len() && all.subrange(from, from + own.len()) == own
        }),
    decreases count,
{
    let all = shown_lines(shown, count, hidden, selected, phase, width);
    let before = shown_lines(shown, (count - 1) as nat, hidden, selected, phase, width);
    let own = step_lines(
        shown[index],
        index + 1 == shown.len(),
        selected matches Some(selected) && selected == hidden + index,
        phase,
        width,
    );
    if index == count - 1 {
        assert(all.subrange(before.len() as int, (before.len() + own.len()) as int) =~= own);
        before.len() as int
    } else {
        let from = lemma_shown_lines(
            shown,
            (count - 1) as nat,
            hidden,
            selected,
            phase,
            width,
            index,
        );
        assert(all.subrange(from, from + own.len()) =~= before.subrange(from, from + own.len()));
        from
    }
}

/// Every step that shows has its lines in the drawing of its cluster, behind the
/// summary: the last of them behind the last branch, and the one that is selected,
/// counted among all steps of the cluster, in the style of the selection.
pub proof fn every_shown_step_has_its_lines(
    cluster: ClusterView,
    is_focused: bool,
    keep_live: bool,
    selected: Option<usize>,
    phase: nat,
    width: nat,
    index: int,
) -> (from: int)
    requires
        0 <= index < chat_log::shown_steps(cluster, keep_live).len(),
    ensures
        1 <= from,
        ({
            let shown = chat_log::shown_steps(cluster, keep_live);
            let own = step_lines(
                shown[index],
                index + 1 == shown.len(),
                selected matches Some(place) && place == cluster.steps.len() - shown.len() + index,
                phase,
                width,
            );
            let all = cluster_lines(cluster, is_focused, keep_live, selected, phase, width);
            &&& all[0] == summary_line(cluster, is_focused, phase)
            &&& from + own.len() <= all.len()
            &&& all.subrange(from, from + own.len()) == own
            &&& shown.len() < cluster.steps.len() ==> all[1] == hidden_line() && from >= 2
        }),
{
    let shown = chat_log::shown_steps(cluster, keep_live);
    let hidden = (cluster.steps.len() - shown.len()) as nat;
    let at = lemma_shown_lines(shown, shown.len(), hidden, selected, phase, width, index);
    let below = shown_lines(shown, shown.len(), hidden, selected, phase, width);
    let all = cluster_lines(cluster, is_focused, keep_live, selected, phase, width);
    let head: int = if hidden > 0 {
        2
    } else {
        1
    };
    let own = step_lines(
        shown[index],
        index + 1 == shown.len(),
        selected matches Some(place) && place == cluster.steps.len() - shown.len() + index,
        phase,
        width,
    );
    assert(all.skip(head) =~= below);
    assert(all.subrange(head + at, head + at + own.len()) =~= below.subrange(at, at + own.len()));
    head + at
}

/// The last step stands behind a corner and every other behind a branch.
pub proof fn the_last_branch_is_a_corner(is_last: bool)
    ensures
        branch(is_last).len() == 4,
        branch(is_last)[0] == (if is_last {
            '\u{2570}'
        } else {
            '\u{251c}'
        }),
{
    reveal_strlit("\u{2570}\u{2500}\u{2500} ");
    reveal_strlit("\u{251c}\u{2500}\u{2500} ");
}

/// The selected step is told from the others.
pub proof fn the_selected_step_stands_out()
    ensures
        step_style(true).bold && !step_style(false).bold,
        step_style(true).color == Color::Yellow && step_style(false).color == Color::White,
{
}

/// Hidden steps are marked by a plain line of dots, and a cluster without columns
/// is drawn as one with a single column.
pub proof fn hidden_steps_are_marked(
    step: StepView,
    is_last: bool,
    selected: bool,
    phase: nat,
    width: nat,
)
    ensures
        hidden_line().text == seq!['\u{22ee}'],
        !hidden_line().style.bold,
        step_lines(step, is_last, selected, phase, 0) == step_lines(
            step,
            is_last,
            selected,
            phase,
            1,
        ),
        width > 0 ==> step_lines(step, is_last, selected, phase, width) == styled_lines(
            filled(step_line(step, phase), width, branch(is_last), "│  "@),
            step_style(selected),
        ),
{
    reveal_strlit("\u{22ee}");
    assert(hidden_line().text =~= seq!['\u{22ee}']);
}

/// A call with a comment shows it behind a dash.
pub proof fn comments_stand_behind_a_dash(call: CallView, phase: nat)
    ensures
        comment_of(call).len() > 0 ==> search::ends_with(
            step_line(StepView::ToolCall(call), phase),
            style::live_icon(call.status, phase) + seq![' ', '\u{2014}', ' '] + comment_of(call),
        ),
{
    reveal_strlit(" \u{2014} ");
    assert(" \u{2014} "@ =~= seq![' ', '\u{2014}', ' ']);
    let line = step_line(StepView::ToolCall(call), phase);
    let tail = style::live_icon(call.status, phase) + seq![' ', '\u{2014}', ' '] + comment_of(call);
    if comment_of(call).len() > 0 {
        assert(line.skip(line.len() - tail.len()) =~= tail);
    }
}

} // verus!
