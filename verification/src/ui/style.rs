//! Colors, icons and styled lines of the terminal view.

use vstd::prelude::*;

use crate::chat_log::Status;

verus! {

/// A color of the terminal.
#[derive(Debug, Clone, Copy, PartialEq, Eq, Structural)]
pub enum Color {
    Black,
    Red,
    Green,
    Yellow,
    Magenta,
    Cyan,
    DarkGray,
    White,
    Rgb(u8, u8, u8),
}

/// How a text is drawn.
#[derive(Debug, Clone, Copy, PartialEq, Eq, Structural)]
pub struct TextStyle {
    pub color: Color,
    pub bold: bool,
}

/// A line of text in one style.
#[derive(Debug, PartialEq, Eq)]
pub struct StyledLine {
    pub text: String,
    pub style: TextStyle,
}

/// A styled line as a sequence of characters.
#[verifier::ext_equal]
pub struct LineView {
    pub text: Seq<char>,
    pub style: TextStyle,
}

impl View for StyledLine {
    type V = LineView;

    open spec fn view(&self) -> LineView {
        LineView { text: self.text@, style: self.style }
    }
}

/// Styled lines as sequences of characters.
pub open spec fn line_views(lines: Seq<StyledLine>) -> Seq<LineView> {
    Seq::new(lines.len(), |i: int| lines[i]@)
}

/// Nerd Font glyph for the user (mage).
pub const USER_ICON: &'static str = "\u{f0d0}";

/// The name that the user goes by.
pub const USER_NAME: &'static str = "DevelAngel";

/// Nerd Font glyph for the agent (dungeon cook).
pub const AGENT_ICON: &'static str = "\u{f0f5}";

/// The name that the agent goes by.
pub const AGENT_NAME: &'static str = "Senshi";

/// The accent color of the user.
pub open spec fn accent_of_user() -> Color {
    Color::Rgb(120, 170, 255)
}

/// The accent color of the agent.
pub open spec fn accent_of_agent() -> Color {
    Color::Rgb(255, 170, 80)
}

/// The accent color of the user.
pub fn user_color() -> (color: Color)
    ensures
        color == accent_of_user(),
{
    Color::Rgb(120, 170, 255)
}

/// The accent color of the agent.
pub fn agent_color() -> (color: Color)
    ensures
        color == accent_of_agent(),
{
    Color::Rgb(255, 170, 80)
}

/// The icon of a status that does not move.
pub open spec fn status_icon(status: Status) -> Seq<char> {
    match status {
        Status::Pending => "◌"@,
        Status::Running => "⧖"@,
        Status::Done => "✓"@,
        Status::Failed => "✗"@,
    }
}

/// The color of a status.
pub open spec fn status_color(status: Status) -> Color {
    match status {
        Status::Pending => Color::DarkGray,
        Status::Running => Color::Yellow,
        Status::Done => Color::Green,
        Status::Failed => Color::Red,
    }
}

/// The name of a status.
pub open spec fn status_name(status: Status) -> Seq<char> {
    match status {
        Status::Pending => "pending"@,
        Status::Running => "running"@,
        Status::Done => "done"@,
        Status::Failed => "failed"@,
    }
}

/// The icon, the color and the name of a status.
pub fn status_style(status: Status) -> (style: (&'static str, Color, &'static str))
    ensures
        style.0@ == status_icon(status),
        style.1 == status_color(status),
        style.2@ == status_name(status),
{
    match status {
        Status::Pending => ("◌", Color::DarkGray, "pending"),
        Status::Running => ("⧖", Color::Yellow, "running"),
        Status::Done => ("✓", Color::Green, "done"),
        Status::Failed => ("✗", Color::Red, "failed"),
    }
}

/// The spinner in one of its phases, of which there are four.
pub open spec fn spinner(phase: nat) -> Seq<char> {
    if phase % 4 == 0 {
        "\u{25d0}"@
    } else if phase % 4 == 1 {
        "\u{25d3}"@
    } else if phase % 4 == 2 {
        "\u{25d1}"@
    } else {
        "\u{25d2}"@
    }
}

/// The spinner in one of its phases.
pub fn running_icon(phase: usize) -> (icon: &'static str)
    ensures
        icon@ == spinner(phase as nat),
{
    match phase % 4 {
        0 => "\u{25d0}",
        1 => "\u{25d3}",
        2 => "\u{25d1}",
        _ => "\u{25d2}",
    }
}

/// The icon of a status in the live view.
pub open spec fn live_icon(status: Status, phase: nat) -> Seq<char> {
    if status is Running {
        spinner(phase)
    } else {
        status_icon(status)
    }
}

/// Uses the same spinner for every running tool status in the live view.
pub fn animated_status_icon(
    status: Status,
    spinner_phase: usize,
    static_icon: &'static str,
) -> (icon: &'static str)
    ensures
        icon@ == (if status is Running {
            spinner(spinner_phase as nat)
        } else {
            static_icon@
        }),
{
    if status == Status::Running {
        running_icon(spinner_phase)
    } else {
        static_icon
    }
}

/// The spinner moves with every phase, and is back where it was after four.
pub proof fn spinner_turns(phase: nat)
    ensures
        spinner(phase) != spinner(phase + 1),
        spinner(phase + 4) == spinner(phase),
{
    reveal_strlit("\u{25d0}");
    reveal_strlit("\u{25d3}");
    reveal_strlit("\u{25d1}");
    reveal_strlit("\u{25d2}");
    assert("\u{25d0}"@[0] != "\u{25d3}"@[0]);
    assert("\u{25d3}"@[0] != "\u{25d1}"@[0]);
    assert("\u{25d1}"@[0] != "\u{25d2}"@[0]);
    assert("\u{25d2}"@[0] != "\u{25d0}"@[0]);
}

/// Each status has an icon, a color and a name of its own.
pub proof fn statuses_are_told_apart(first: Status, second: Status)
    requires
        first != second,
    ensures
        status_icon(first) != status_icon(second),
        status_color(first) != status_color(second),
        status_name(first) != status_name(second),
{
    reveal_strlit("◌");
    reveal_strlit("⧖");
    reveal_strlit("✓");
    reveal_strlit("✗");
    reveal_strlit("pending");
    reveal_strlit("running");
    reveal_strlit("done");
    reveal_strlit("failed");
    assert("◌"@[0] == '◌');
    assert("⧖"@[0] == '⧖');
    assert("✓"@[0] == '✓');
    assert("✗"@[0] == '✗');
    assert("pending"@[0] == 'p');
    assert("running"@[0] == 'r');
    assert("done"@[0] == 'd');
    assert("failed"@[0] == 'f');
}

/// A failed tool call is shown in red and by a cross, and one that is done in
/// green and by a check mark. A running one turns, and no other does.
pub proof fn outcomes_are_shown(status: Status, phase: nat)
    ensures
        status is Failed ==> live_icon(status, phase) == "✗"@ && status_color(status) is Red
            && status_name(status) == "failed"@,
        status is Done ==> live_icon(status, phase) == "✓"@ && status_color(status) is Green
            && status_name(status) == "done"@,
        status is Running ==> live_icon(status, phase) == spinner(phase) && status_name(status)
            == "running"@,
        status is Pending ==> live_icon(status, phase) == "◌"@ && status_name(status)
            == "pending"@,
{
}

/// The four phases of the spinner are four pictures, each turned a quarter on from
/// the one before.
pub proof fn the_spinner_turns_by_quarters(turns: nat)
    ensures
        spinner(4 * turns) == seq!['\u{25d0}'],
        spinner(4 * turns + 1) == seq!['\u{25d3}'],
        spinner(4 * turns + 2) == seq!['\u{25d1}'],
        spinner(4 * turns + 3) == seq!['\u{25d2}'],
{
    reveal_strlit("\u{25d0}");
    reveal_strlit("\u{25d3}");
    reveal_strlit("\u{25d1}");
    reveal_strlit("\u{25d2}");
    assert("\u{25d0}"@ =~= seq!['\u{25d0}']);
    assert("\u{25d3}"@ =~= seq!['\u{25d3}']);
    assert("\u{25d1}"@ =~= seq!['\u{25d1}']);
    assert("\u{25d2}"@ =~= seq!['\u{25d2}']);
}

/// The user speaks in blue and the agent in orange.
pub proof fn speakers_have_their_colors()
    ensures
        accent_of_user() == Color::Rgb(120, 170, 255),
        accent_of_agent() == Color::Rgb(255, 170, 80),
        accent_of_user() != accent_of_agent(),
{
}

} // verus!
