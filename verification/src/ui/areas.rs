//! How the terminal is divided.

use ratatui::layout::{Constraint, Layout};
use vstd::prelude::*;

use crate::layout::geometry::Rect;

verus! {

/// An area divided into one that takes what is left and a number of rows below
/// it.
pub uninterp spec fn divided(area: Rect, rows: u16) -> (Rect, Rect);

/// Whether an area has at least a number of rows, all of which can be counted.
pub open spec fn has_rows(area: Rect, rows: u16) -> bool {
    rows <= area.height && area.y + area.height <= u16::MAX
}

/// An area cut in two: the last rows, and what is above them.
pub open spec fn cut(area: Rect, rows: u16) -> (Rect, Rect) {
    (
        Rect { height: (area.height - rows) as u16, ..area },
        Rect { y: (area.y + area.height - rows) as u16, height: rows, ..area },
    )
}

/// Divides an area. What `ratatui::layout::Layout::vertical` makes of the
/// constraints `Min(0)` and `Length(rows)` is a function of the area and the
/// number of rows alone. Where the area has that many rows, the second part
/// gets exactly them and the first grows to take the rest.
#[verifier::external_body]
fn divide(area: Rect, rows: u16) -> (parts: (Rect, Rect))
    ensures
        parts == divided(area, rows),
        has_rows(area, rows) ==> parts == cut(area, rows),
{
    let whole = ratatui::layout::Rect {
        x: area.x,
        y: area.y,
        width: area.width,
        height: area.height,
    };
    let layout = Layout::vertical([Constraint::Min(0), Constraint::Length(rows)]);
    let [top, bottom]: [ratatui::layout::Rect; 2] = layout.areas(whole);
    (
        Rect::new(top.x, top.y, top.width, top.height),
        Rect::new(bottom.x, bottom.y, bottom.width, bottom.height),
    )
}

/// How much of a length can be counted from a start on.
pub open spec fn countable(start: u16, length: u16) -> int {
    if start + length <= u16::MAX {
        length as int
    } else {
        u16::MAX - start
    }
}

/// The percentages of a length, to the nearest whole number. A half is rounded
/// up.
pub open spec fn percent_of(length: int, percent: int) -> int {
    (length * percent + 50) / 100
}

/// Where the middle of three bands starts and how long it is, from the
/// percentages that each outer band and the middle one take.
pub open spec fn middle_band(start: u16, length: u16, outer: u16, middle: u16) -> (u16, u16) {
    let length = countable(start, length);
    let before = percent_of(length, outer as int);
    ((start + before) as u16, (percent_of(length, outer + middle) - before) as u16)
}

/// Cuts a band of rows out of an area. `ratatui::layout::Layout::vertical`
/// lays bands that take three percentages of at most a hundred in all one
/// behind another from the top on, each from the row nearest to where the
/// percentages before it end to the row nearest to where its own ends, as wide
/// as the area. Rows that cannot be counted take no part.
#[verifier::external_body]
fn middle_rows(area: Rect, outer: u16, middle: u16) -> (band: Rect)
    requires
        2 * outer + middle <= 100,
    ensures
        (band.y, band.height) == middle_band(area.y, area.height, outer, middle),
        band.x == area.x,
        band.width == area.width,
{
    let whole = ratatui::layout::Rect {
        x: area.x,
        y: area.y,
        width: area.width,
        height: area.height,
    };
    let outer = Constraint::Percentage(outer);
    let layout = Layout::vertical([outer, Constraint::Percentage(middle), outer]);
    let [_, band, _]: [ratatui::layout::Rect; 3] = layout.areas(whole);
    Rect::new(band.x, band.y, band.width, band.height)
}

/// Cuts a band of columns out of an area. `ratatui::layout::Layout::horizontal`
/// lays bands that take three percentages of at most a hundred in all one
/// behind another from the left on, each from the column nearest to where the
/// percentages before it end to the column nearest to where its own ends, as
/// high as the area. Columns that cannot be counted take no part.
#[verifier::external_body]
fn middle_columns(area: Rect, outer: u16, middle: u16) -> (band: Rect)
    requires
        2 * outer + middle <= 100,
    ensures
        (band.x, band.width) == middle_band(area.x, area.width, outer, middle),
        band.y == area.y,
        band.height == area.height,
{
    let whole = ratatui::layout::Rect {
        x: area.x,
        y: area.y,
        width: area.width,
        height: area.height,
    };
    let outer = Constraint::Percentage(outer);
    let layout = Layout::horizontal([outer, Constraint::Percentage(middle), outer]);
    let [_, band, _]: [ratatui::layout::Rect; 3] = layout.areas(whole);
    Rect::new(band.x, band.y, band.width, band.height)
}

/// How many rows the prompt takes, its frame included.
pub const PROMPT_ROWS: u16 = 3;

/// The areas of the chat log and of the prompt below it.
pub fn screen_areas(area: Rect) -> (parts: (Rect, Rect))
    ensures
        parts == divided(area, PROMPT_ROWS),
        has_rows(area, PROMPT_ROWS) ==> parts == cut(area, PROMPT_ROWS),
{
    divide(area, PROMPT_ROWS)
}

/// The area of the chat log, and of the banner below it where the view does
/// not follow new messages.
pub fn chat_areas(autoscroll: bool, area: Rect) -> (parts: (Rect, Option<Rect>))
    ensures
        parts == (if autoscroll {
            (area, None)
        } else {
            (divided(area, 1).0, Some(divided(area, 1).1))
        }),
        !autoscroll && has_rows(area, 1) ==> parts == (cut(area, 1).0, Some(cut(area, 1).1)),
{
    if autoscroll {
        (area, None)
    } else {
        let (log_area, banner_area) = divide(area, 1);
        (log_area, Some(banner_area))
    }
}

/// The area in the middle of another that takes a percentage of its columns
/// and of its rows.
pub open spec fn centered_in(percent_x: u16, percent_y: u16, area: Rect) -> Rect {
    let (x, width) = middle_band(
        area.x,
        area.width,
        ((100 - percent_x) / 2) as u16,
        percent_x,
    );
    let (y, height) = middle_band(
        area.y,
        area.height,
        ((100 - percent_y) / 2) as u16,
        percent_y,
    );
    Rect { x, y, width, height }
}

/// The area in the middle of another that takes a percentage of its columns
/// and of its rows.
pub fn centered_rect(percent_x: u16, percent_y: u16, area: Rect) -> (centered: Rect)
    requires
        percent_x <= 100,
        percent_y <= 100,
    ensures
        centered == centered_in(percent_x, percent_y, area),
{
    let rows = middle_rows(area, (100 - percent_y) / 2, percent_y);
    middle_columns(rows, (100 - percent_x) / 2, percent_x)
}

proof fn lemma_band_lies_within(start: u16, length: u16, outer: u16, middle: u16)
    requires
        2 * outer + middle <= 100,
    ensures
        start <= middle_band(start, length, outer, middle).0,
        middle_band(start, length, outer, middle).0 + middle_band(start, length, outer, middle).1
            <= start + length,
{
    let length = countable(start, length);
    let first = outer as int;
    let last = outer + middle;
    assert(0 <= length * first <= length * last <= length * 100) by (nonlinear_arith)
        requires
            0 <= length,
            0 <= first <= last <= 100,
    ;
}

/// The area in the middle of another lies within it.
pub proof fn centered_area_lies_within(percent_x: u16, percent_y: u16, area: Rect)
    requires
        percent_x <= 100,
        percent_y <= 100,
    ensures
        area.x <= centered_in(percent_x, percent_y, area).x,
        area.y <= centered_in(percent_x, percent_y, area).y,
        centered_in(percent_x, percent_y, area).x + centered_in(percent_x, percent_y, area).width
            <= area.x + area.width,
        centered_in(percent_x, percent_y, area).y + centered_in(percent_x, percent_y, area).height
            <= area.y + area.height,
{
    lemma_band_lies_within(area.x, area.width, ((100 - percent_x) / 2) as u16, percent_x);
    lemma_band_lies_within(area.y, area.height, ((100 - percent_y) / 2) as u16, percent_y);
}

/// The area in the middle takes its percentage of the columns and of the rows, to
/// the nearest whole number, and leaves the same percentage on either side.
pub proof fn centered_area_takes_its_percentage(percent_x: u16, percent_y: u16, area: Rect)
    requires
        percent_x <= 100,
        percent_y <= 100,
        area.x + area.width <= u16::MAX,
        area.y + area.height <= u16::MAX,
    ensures
        ({
            let centered = centered_in(percent_x, percent_y, area);
            let left = (100 - percent_x) / 2;
            let above = (100 - percent_y) / 2;
            &&& -50 <= area.width * left - 100 * (centered.x - area.x) <= 50
            &&& -100 <= area.width * percent_x - 100 * centered.width <= 100
            &&& -50 <= area.height * above - 100 * (centered.y - area.y) <= 50
            &&& -100 <= area.height * percent_y - 100 * centered.height <= 100
        }),
{
    let left = (100 - percent_x) / 2;
    let above = (100 - percent_y) / 2;
    lemma_band_lies_within(area.x, area.width, left as u16, percent_x);
    lemma_band_lies_within(area.y, area.height, above as u16, percent_y);
    assert(area.width * (left + percent_x) == area.width * left + area.width * percent_x)
        by (nonlinear_arith);
    assert(area.height * (above + percent_y) == area.height * above + area.height * percent_y)
        by (nonlinear_arith);
    lemma_band_is_exact(area.x, area.width, left, percent_x as int);
    lemma_band_is_exact(area.y, area.height, above, percent_y as int);
}

proof fn lemma_band_is_exact(start: u16, length: u16, outer: int, middle: int)
    requires
        start + length <= u16::MAX,
        0 <= outer,
        0 <= middle,
        2 * outer + middle <= 100,
    ensures
        middle_band(start, length, outer as u16, middle as u16).0 == start + percent_of(
            length as int,
            outer,
        ),
        middle_band(start, length, outer as u16, middle as u16).1 == percent_of(
            length as int,
            outer + middle,
        ) - percent_of(length as int, outer),
{
    assert(0 <= length * outer <= length * (outer + middle) <= length * 100) by (nonlinear_arith)
        requires
            0 <= length,
            0 <= outer <= outer + middle <= 100,
    ;
}

/// An area cut in two has the rows it had, the last of them in the second part,
/// and both parts are as wide.
pub proof fn cutting_keeps_the_rows(area: Rect, rows: u16)
    requires
        has_rows(area, rows),
    ensures
        cut(area, rows).0.height + cut(area, rows).1.height == area.height,
        cut(area, rows).1.height == rows,
        cut(area, rows).0.y == area.y,
        cut(area, rows).1.y == area.y + cut(area, rows).0.height,
        cut(area, rows).0.width == area.width && cut(area, rows).1.width == area.width,
        cut(area, rows).0.x == area.x && cut(area, rows).1.x == area.x,
{
}

} // verus!
