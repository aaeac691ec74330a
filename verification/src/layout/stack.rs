//! Content stacked in rows, seen through a viewport.
//!
//! Rows are counted in 16 bits, as a terminal counts them: a position beyond
//! the last one that can be counted is that last one.

use vstd::prelude::*;

use crate::text::chars;
use crate::text::chars::char_count;
use crate::text::words;
use crate::text::words::words;

verus! {

/// The row that stands for a count of rows.
pub open spec fn row(rows: nat) -> nat {
    if rows > u16::MAX {
        u16::MAX as nat
    } else {
        rows
    }
}

/// Adds rows to a position.
pub fn row_after(position: u16, rows: u16) -> (sum: u16)
    ensures
        sum == row((position + rows) as nat),
{
    if rows > u16::MAX - position {
        u16::MAX
    } else {
        position + rows
    }
}

/// How many rows things of the given heights take, one below the other.
pub open spec fn total_rows(heights: Seq<nat>) -> nat
    decreases heights.len(),
{
    if heights.len() == 0 {
        0
    } else {
        total_rows(heights.drop_last()) + heights.last()
    }
}

/// The row at which one of several stacked things starts.
pub open spec fn top_of(heights: Seq<nat>, index: int) -> nat {
    row(total_rows(heights.take(index)))
}

/// Each thing starts where the one before it ends.
pub proof fn lemma_top_of_next(heights: Seq<nat>, index: int)
    requires
        0 <= index < heights.len(),
    ensures
        top_of(heights, index + 1) == row(top_of(heights, index) + heights[index]),
        index == 0 ==> top_of(heights, index) == 0,
{
    assert(heights.take(index + 1).drop_last() =~= heights.take(index));
    assert(total_rows(heights.take(0)) == 0);
}

/// How many rows a text takes when it is wrapped to a width: at least one.
pub open spec fn text_rows(text: Seq<char>, width: nat) -> nat {
    let width = if width == 0 {
        1
    } else {
        width
    };
    let lines = words::wrapped_lines(text, width, width).len();
    if lines == 0 {
        1
    } else {
        lines
    }
}

/// Counts the rows that a text takes when its words are wrapped to a width.
/// Words longer than the width are not split further.
pub fn wrapped_line_count(text: &str, width: u16) -> (rows: u16)
    requires
        text_rows(text@, width as nat) <= u16::MAX,
    ensures
        rows == text_rows(text@, width as nat),
{
    let width: usize = if width == 0 {
        1
    } else {
        width as usize
    };
    let found = words(text);
    let ghost all = chars::texts(found@);
    let ghost total = words::wrapped_lines(text@, width as nat, width as nat).len();
    let ghost mut line: Seq<char> = Seq::empty();
    let mut lines: u16 = 0;
    let mut current_width: usize = 0;
    let mut i: usize = 0;
    assert(all.skip(0) =~= all);
    proof {
        words::lemma_words_are_words(text@);
    }
    while i < found.len()
        invariant
            all == chars::texts(found@),
            i <= found.len(),
            forall|k: int| 0 <= k < all.len() ==> (#[trigger] all[k]).len() > 0,
            line.len() == current_width,
            current_width == 0 <==> lines == 0,
            total <= u16::MAX,
            total == (if lines == 0 {
                0int
            } else {
                lines - 1
            }) + words::fill(line, all.skip(i as int), width as nat, width as nat).len(),
        decreases found.len() - i,
    {
        let ghost before = all.skip(i as int);
        assert(before.skip(1) =~= all.skip(i + 1));
        assert(before[0] == found@[i as int]@);
        assert(all[i as int].len() > 0);
        let word_len: usize = char_count(found[i].as_str());
        if current_width == 0 {
            proof {
                words::lemma_fill_starts_with(before[0], all.skip(i + 1), width as nat, width as nat);
                line = before[0];
            }
            lines = lines + 1;
            current_width = word_len;
        } else if current_width < width && word_len <= width - current_width - 1 {
            proof {
                line = line + seq![' '] + before[0];
            }
            current_width = current_width + 1 + word_len;
        } else {
            proof {
                words::lemma_fill_starts_with(before[0], all.skip(i + 1), width as nat, width as nat);
                line = before[0];
            }
            lines = lines + 1;
            current_width = word_len;
        }
        i = i + 1;
    }
    assert(all.skip(all.len() as int) =~= Seq::<Seq<char>>::empty());
    if lines == 0 {
        1
    } else {
        lines
    }
}

/// The rows of a thing that a viewport shows: from the first up to, not
/// including, the last.
pub open spec fn visible_span(top: nat, height: nat, offset: nat, viewport: nat) -> Option<
    (nat, nat),
> {
    let bottom = row(top + height);
    let window_bottom = row(offset + viewport);
    let first = if top > offset {
        top
    } else {
        offset
    };
    let last = if bottom < window_bottom {
        bottom
    } else {
        window_bottom
    };
    if first < last {
        Some((first, last))
    } else {
        None
    }
}

/// Computes which rows of a thing a viewport shows.
pub fn visible_rows(top: u16, height: u16, offset: u16, viewport: u16) -> (span: Option<(u16, u16)>)
    ensures
        match span {
            Some((first, last)) => visible_span(
                top as nat,
                height as nat,
                offset as nat,
                viewport as nat,
            ) == Some((first as nat, last as nat)),
            None => visible_span(
                top as nat,
                height as nat,
                offset as nat,
                viewport as nat,
            ) is None,
        },
{
    let bottom: u16 = row_after(top, height);
    let window_bottom: u16 = row_after(offset, viewport);
    let first: u16 = if top > offset {
        top
    } else {
        offset
    };
    let last: u16 = if bottom < window_bottom {
        bottom
    } else {
        window_bottom
    };
    if first < last {
        Some((first, last))
    } else {
        None
    }
}

/// The furthest a view can be scrolled without leaving rows of the viewport
/// empty.
pub open spec fn max_offset(total: nat, viewport: nat) -> nat {
    if total > viewport {
        (total - viewport) as nat
    } else {
        0
    }
}

/// A scroll position moved by a number of rows and kept within the content.
pub open spec fn scrolled(offset: int, delta: int, total: nat, viewport: nat) -> int {
    let limit = max_offset(total, viewport);
    if offset + delta < 0 {
        0
    } else if offset + delta > limit {
        limit as int
    } else {
        offset + delta
    }
}

/// Computes the furthest scroll position.
pub fn furthest_offset(total: u16, viewport: u16) -> (limit: u16)
    ensures
        limit == max_offset(total as nat, viewport as nat),
{
    if total > viewport {
        total - viewport
    } else {
        0
    }
}

/// Moves a scroll position.
pub fn scroll_by(offset: u16, delta: i16, total: u16, viewport: u16) -> (moved: u16)
    ensures
        moved == scrolled(offset as int, delta as int, total as nat, viewport as nat),
{
    let limit: u16 = furthest_offset(total, viewport);
    let current: i32 = offset as i32 + delta as i32;
    if current < 0 {
        0
    } else if current > limit as i32 {
        limit
    } else {
        current as u16
    }
}

/// A row shows exactly where it is a row of the thing and of the viewport.
pub proof fn shown_rows_are_the_common_ones(
    top: nat,
    height: nat,
    offset: nat,
    viewport: nat,
    at: nat,
)
    requires
        top + height <= u16::MAX,
        offset + viewport <= u16::MAX,
    ensures
        top <= at < top + height && offset <= at < offset + viewport <==> (visible_span(
            top,
            height,
            offset,
            viewport,
        ) matches Some((first, last)) && first <= at < last),
{
}

/// The rows of stacked things add up, each counted once.
pub proof fn rows_add_up(first: Seq<nat>, second: Seq<nat>)
    ensures
        total_rows(Seq::empty()) == 0,
        total_rows(first + second) == total_rows(first) + total_rows(second),
        second.len() == 1 ==> total_rows(second) == second[0],
    decreases second.len(),
{
    if second.len() == 0 {
        assert(first + second =~= first);
    } else {
        rows_add_up(first, second.drop_last());
        assert((first + second).drop_last() =~= first + second.drop_last());
        assert((first + second).last() == second.last());
        if second.len() == 1 {
            assert(total_rows(second.drop_last()) == 0);
        }
    }
}

/// The furthest scroll position is the first from which the viewport reaches the
/// end of the content.
pub proof fn furthest_position_reaches_the_end(total: nat, viewport: nat, offset: nat)
    ensures
        max_offset(total, viewport) + viewport >= total,
        offset < max_offset(total, viewport) ==> offset + viewport < total,
        total <= viewport ==> max_offset(total, viewport) == 0,
{
}

/// Scrolling moves by as many rows as it is asked to, unless an end of the
/// content is in the way, at which it stops.
pub proof fn scrolling_stays_within(offset: int, delta: int, total: nat, viewport: nat)
    ensures
        0 <= scrolled(offset, delta, total, viewport) <= max_offset(total, viewport),
        0 <= offset + delta <= max_offset(total, viewport) ==> scrolled(
            offset,
            delta,
            total,
            viewport,
        ) == offset + delta,
        offset + delta < 0 ==> scrolled(offset, delta, total, viewport) == 0,
        offset + delta > max_offset(total, viewport) ==> scrolled(offset, delta, total, viewport)
            + viewport >= total,
{
}

/// A text takes a row for each line it wraps to, and one where it has no words.
/// A text whose words all fit one line takes one.
pub proof fn text_takes_a_row_for_each_line(text: Seq<char>, width: nat)
    requires
        width > 0,
    ensures
        words::words_of(text).len() == 0 ==> text_rows(text, width) == 1,
        words::words_of(text).len() > 0 ==> text_rows(text, width) == words::wrapped_lines(
            text,
            width,
            width,
        ).len(),
        text_rows(text, width) >= 1,
        text_rows(text, width) <= words::words_of(text).len() || text_rows(text, width) == 1,
{
    words::wrapping_keeps_the_words(text, width, width);
    let lines = words::wrapped_lines(text, width, width);
    words::lemma_words_are_words(text);
    words::lemma_lines_have_words(text, width, width);
    if words::words_of(text).len() == 0 {
        assert(words::fill(Seq::empty(), words::words_of(text), width, width).len() == 0);
    }
    if lines.len() == 0 {
        assert(words::words_of_lines(lines).len() == 0);
    }
}

/// A width of nothing counts as one column, and scrolling beyond an end stops
/// right at it.
pub proof fn ends_are_exact(text: Seq<char>, offset: int, delta: int, total: nat, viewport: nat)
    ensures
        text_rows(text, 0) == text_rows(text, 1),
        offset + delta < 0 ==> scrolled(offset, delta, total, viewport) == 0,
        offset + delta > max_offset(total, viewport) ==> scrolled(offset, delta, total, viewport)
            == max_offset(total, viewport),
        total > viewport ==> max_offset(total, viewport) == total - viewport,
{
}

} // verus!
