//! Pure layout computation for the vertical timeline: bounding rectangles and
//! scroll bounds for tool call and thought entries. Presentation (prefix
//! glyphs, colors) is left to the caller, which has `is_last` and `status` to
//! decide with.

use vstd::prelude::*;

use crate::layout::geometry::Rect;
use crate::layout::stack;
use crate::layout::stack::{row_after, scroll_by, visible_rows, wrapped_line_count};
use crate::text::chars;
use crate::text::words::wrap_paragraph_lines;
use crate::timeline;
use crate::timeline::{EntryView, Status, TimelineEntry, TimelineLog};

verus! {

/// Width in columns reserved for the prefix column.
pub const PREFIX_WIDTH: u16 = 3;

/// Computed placement for a single timeline entry.
#[derive(Debug, Clone, Copy, PartialEq, Eq, Structural)]
pub struct TimelineBlock {
    pub rect: Rect,
    pub is_last: bool,
    pub status: Status,
}

/// The visible slice of a [`TimelineBlock`] at the current scroll offset. See
/// [`TimelineLayout::visible_blocks`].
#[derive(Debug, Clone, Copy, PartialEq, Eq, Structural)]
pub struct VisibleBlock {
    pub screen_rect: Rect,
    pub line_skip: u16,
    pub is_last: bool,
    pub status: Status,
}

/// Block rectangles and scroll bounds of a [`TimelineLog`] rendered into a
/// viewport of a given width and height.
#[derive(Debug, Clone, PartialEq, Eq)]
pub struct TimelineLayout {
    blocks: Vec<TimelineBlock>,
    total_height: u16,
    viewport_height: u16,
    scroll_offset: u16,
}

/// A layout in mathematical terms.
#[verifier::ext_equal]
pub struct LayoutView {
    pub blocks: Seq<TimelineBlock>,
    pub total_height: u16,
    pub viewport_height: u16,
    pub scroll_offset: u16,
}

impl View for TimelineLayout {
    type V = LayoutView;

    closed spec fn view(&self) -> LayoutView {
        LayoutView {
            blocks: self.blocks@,
            total_height: self.total_height,
            viewport_height: self.viewport_height,
            scroll_offset: self.scroll_offset,
        }
    }
}

/// How many columns the text beside the prefix column takes.
pub open spec fn text_columns(width: nat) -> nat {
    if width > PREFIX_WIDTH + 1 {
        (width - PREFIX_WIDTH) as nat
    } else {
        1
    }
}

/// How many rows lines of text take, each wrapped on its own.
pub open spec fn content_rows(lines: Seq<Seq<char>>, width: nat) -> nat
    decreases lines.len(),
{
    if lines.len() == 0 {
        0
    } else {
        content_rows(lines.drop_last(), width) + stack::text_rows(lines.last(), width)
    }
}

/// How many rows an entry takes: a header and its content.
pub open spec fn entry_rows(entry: EntryView, width: nat) -> nat {
    1 + content_rows(entry.lines, text_columns(width))
}

/// Whether the rows of every entry can be counted.
pub open spec fn all_countable(log: Seq<EntryView>, width: nat) -> bool {
    forall|i: int| 0 <= i < log.len() ==> entry_rows(#[trigger] log[i], width) <= u16::MAX
}

/// The heights of the blocks of a log.
pub open spec fn block_heights(log: Seq<EntryView>, width: nat) -> Seq<nat> {
    Seq::new(log.len(), |i: int| entry_rows(log[i], width))
}

/// Where the block of an entry stands.
pub open spec fn block_of(log: Seq<EntryView>, width: u16, index: int) -> TimelineBlock {
    let heights = block_heights(log, width as nat);
    TimelineBlock {
        rect: Rect {
            x: 0,
            y: stack::top_of(heights, index) as u16,
            width,
            height: heights[index] as u16,
        },
        is_last: index == log.len() - 1,
        status: log[index].status,
    }
}

/// The layout of a log, scrolled to its top.
pub open spec fn is_layout_of(
    layout: LayoutView,
    log: Seq<EntryView>,
    width: u16,
    height: u16,
) -> bool {
    &&& layout.blocks.len() == log.len()
    &&& forall|i: int| 0 <= i < log.len() ==> #[trigger] layout.blocks[i] == block_of(log, width, i)
    &&& layout.total_height == stack::row(stack::total_rows(block_heights(log, width as nat)))
    &&& layout.viewport_height == height
    &&& layout.scroll_offset == 0
}

/// The row below a block.
pub open spec fn block_bottom(block: TimelineBlock) -> nat {
    stack::row((block.rect.y + block.rect.height) as nat)
}

/// Whether each block starts where the one above it ends, and the last ends
/// with the content.
pub open spec fn is_stacked(layout: LayoutView) -> bool {
    let blocks = layout.blocks;
    &&& blocks.len() == 0 ==> layout.total_height == 0
    &&& blocks.len() > 0 ==> blocks[0].rect.y == 0 && layout.total_height == block_bottom(
        blocks[blocks.len() - 1],
    )
    &&& forall|i: int, j: int|
        0 <= i && j == i + 1 && j < blocks.len() ==> (#[trigger] blocks[j]).rect.y == block_bottom(
            #[trigger] blocks[i],
        )
}

/// What a viewport shows of a block.
pub open spec fn visible_part(block: TimelineBlock, offset: u16, viewport: u16) -> Option<
    VisibleBlock,
> {
    match stack::visible_span(
        block.rect.y as nat,
        block.rect.height as nat,
        offset as nat,
        viewport as nat,
    ) {
        Some((first, last)) => Some(
            VisibleBlock {
                screen_rect: Rect {
                    x: block.rect.x,
                    y: (first - offset) as u16,
                    width: block.rect.width,
                    height: (last - first) as u16,
                },
                line_skip: (first - block.rect.y) as u16,
                is_last: block.is_last,
                status: block.status,
            },
        ),
        None => None,
    }
}

proof fn lemma_content_rows_prefix(lines: Seq<Seq<char>>, width: nat, n: int)
    requires
        0 <= n <= lines.len(),
    ensures
        content_rows(lines.take(n), width) <= content_rows(lines, width),
    decreases lines.len(),
{
    if n < lines.len() {
        lemma_content_rows_prefix(lines.drop_last(), width, n);
        assert(lines.drop_last().take(n) =~= lines.take(n));
    } else {
        assert(lines.take(n) =~= lines);
    }
}

fn text_width(width: u16) -> (columns: u16)
    ensures
        columns == text_columns(width as nat),
        columns > 0,
{
    if width > PREFIX_WIDTH + 1 {
        width - PREFIX_WIDTH
    } else {
        1
    }
}

fn rows_of(entry: &TimelineEntry, width: u16) -> (rows: u16)
    requires
        entry_rows(entry@, width as nat) <= u16::MAX,
    ensures
        rows == entry_rows(entry@, width as nat),
{
    let columns: u16 = text_width(width);
    let ghost all = entry@.lines;
    let mut rows: u16 = 0;
    let mut i: usize = 0;
    assert(all.take(0).len() == 0);
    while i < entry.lines.len()
        invariant
            all == chars::texts(entry.lines@),
            columns == text_columns(width as nat),
            1 + content_rows(all, columns as nat) <= u16::MAX,
            i <= entry.lines.len(),
            rows == content_rows(all.take(i as int), columns as nat),
        decreases entry.lines.len() - i,
    {
        assert(all.take(i + 1).drop_last() =~= all.take(i as int));
        proof {
            lemma_content_rows_prefix(all, columns as nat, i + 1);
        }
        rows = rows + wrapped_line_count(entry.lines[i].as_str(), columns);
        i = i + 1;
    }
    assert(all.take(all.len() as int) =~= all);
    1 + rows
}

/// Whether the rows of every entry can be counted in a viewport of some width,
/// as a layout needs.
pub fn rows_are_countable(log: &TimelineLog, width: u16) -> (countable: bool)
    ensures
        countable == all_countable(log@, width as nat),
{
    let columns: u16 = text_width(width);
    let entries = log.entries();
    let mut i: usize = 0;
    while i < entries.len()
        invariant
            log@ == timeline::entry_views(entries@),
            columns == text_columns(width as nat),
            columns > 0,
            i <= entries.len(),
            forall|k: int|
                0 <= k < i ==> entry_rows(#[trigger] log@[k], width as nat) <= u16::MAX,
        decreases entries.len() - i,
    {
        let ghost all = entries@[i as int]@.lines;
        assert(log@[i as int] == entries@[i as int]@);
        let lines = &entries[i].lines;
        let mut rows: usize = 1;
        let mut k: usize = 0;
        assert(all.take(0).len() == 0);
        while k < lines.len()
            invariant
                all == chars::texts(lines@),
                log@ == timeline::entry_views(entries@),
                i < entries.len(),
                all == log@[i as int].lines,
                columns == text_columns(width as nat),
                columns > 0,
                k <= lines.len(),
                rows <= u16::MAX,
                rows == 1 + content_rows(all.take(k as int), columns as nat),
            decreases lines.len() - k,
        {
            assert(all.take(k + 1).drop_last() =~= all.take(k as int));
            proof {
                lemma_content_rows_prefix(all, columns as nat, k + 1);
            }
            let wrapped = wrap_paragraph_lines(
                lines[k].as_str(),
                columns as usize,
                columns as usize,
            );
            assert(chars::texts(wrapped@).len() == wrapped@.len());
            let more: usize = if wrapped.len() == 0 {
                1
            } else {
                wrapped.len()
            };
            if more > u16::MAX as usize - rows {
                assert(entry_rows(log@[i as int], width as nat) > u16::MAX);
                return false;
            }
            rows = rows + more;
            k = k + 1;
        }
        assert(all.take(all.len() as int) =~= all);
        i = i + 1;
    }
    true
}

impl TimelineLayout {
    /// Computes the layout for `log` within a viewport of `width` x `height`
    /// columns/rows. Each entry is a header row (kind/status, rendered by the
    /// caller) followed by its content lines, wrapped to fit next to the
    /// prefix column.
    pub fn new(log: &TimelineLog, width: u16, height: u16) -> (layout: Self)
        requires
            all_countable(log@, width as nat),
        ensures
            is_layout_of(layout@, log@, width, height),
            is_stacked(layout@),
    {
        let entries = log.entries();
        let ghost all = log@;
        let ghost heights = block_heights(all, width as nat);
        let mut blocks: Vec<TimelineBlock> = Vec::new();
        let mut y: u16 = 0;
        let mut i: usize = 0;
        assert(heights.take(0).len() == 0);
        while i < entries.len()
            invariant
                all == timeline::entry_views(entries@),
                heights == block_heights(all, width as nat),
                all_countable(all, width as nat),
                i <= entries.len(),
                blocks@.len() == i,
                y == stack::top_of(heights, i as int),
                i == 0 ==> y == 0,
                i > 0 ==> blocks@[0].rect.y == 0 && y == block_bottom(blocks@[i - 1]),
                forall|k: int| 0 <= k < i ==> #[trigger] blocks@[k] == block_of(all, width, k),
                forall|k: int, j: int|
                    0 <= k && j == k + 1 && j < i ==> (#[trigger] blocks@[j]).rect.y
                        == block_bottom(#[trigger] blocks@[k]),
            decreases entries.len() - i,
        {
            let entry = &entries[i];
            assert(all[i as int] == entry@);
            let rows: u16 = rows_of(entry, width);
            blocks.push(
                TimelineBlock {
                    rect: Rect { x: 0, y, width, height: rows },
                    is_last: i == entries.len() - 1,
                    status: entry.status,
                },
            );
            proof {
                stack::lemma_top_of_next(heights, i as int);
            }
            y = row_after(y, rows);
            i = i + 1;
        }
        assert(heights.take(heights.len() as int) =~= heights);
        TimelineLayout { blocks, total_height: y, viewport_height: height, scroll_offset: 0 }
    }

    /// Bounding rectangles, one per entry, in the same order as the source
    /// [`TimelineLog`].
    pub fn blocks(&self) -> (blocks: &[TimelineBlock])
        ensures
            blocks@ == self@.blocks,
    {
        self.blocks.as_slice()
    }

    /// Total height in rows of all blocks stacked vertically.
    pub fn total_height(&self) -> (height: u16)
        ensures
            height == self@.total_height,
    {
        self.total_height
    }

    /// Current scroll offset in rows from the top of the content.
    pub fn scroll_offset(&self) -> (offset: u16)
        ensures
            offset == self@.scroll_offset,
    {
        self.scroll_offset
    }

    /// Moves the scroll offset by `delta` rows, clamped to
    /// `0..=(total_height - viewport_height)` (or `0` if content fits).
    pub fn scroll(&mut self, delta: i16)
        ensures
            final(self)@ == (LayoutView {
                scroll_offset: stack::scrolled(
                    old(self)@.scroll_offset as int,
                    delta as int,
                    old(self)@.total_height as nat,
                    old(self)@.viewport_height as nat,
                ) as u16,
                ..old(self)@
            }),
            final(self)@.scroll_offset <= stack::max_offset(
                old(self)@.total_height as nat,
                old(self)@.viewport_height as nat,
            ),
    {
        self.scroll_offset = scroll_by(
            self.scroll_offset,
            delta,
            self.total_height,
            self.viewport_height,
        );
    }

    /// Blocks currently within the viewport at the current scroll offset, one
    /// slot per entry in [`blocks`](Self::blocks) order (`None` where a block
    /// is scrolled fully out of view).
    ///
    /// `screen_rect` is relative to the top-left of the viewport (not the
    /// terminal), already reduced to only the visible rows. `line_skip` is how
    /// many rows of the entry (header and/or content) are hidden above the
    /// visible window.
    pub fn visible_blocks(&self) -> (visible: Vec<Option<VisibleBlock>>)
        ensures
            visible@.len() == self@.blocks.len(),
            forall|i: int|
                0 <= i < visible@.len() ==> #[trigger] visible@[i] == visible_part(
                    self@.blocks[i],
                    self@.scroll_offset,
                    self@.viewport_height,
                ),
    {
        let mut visible: Vec<Option<VisibleBlock>> = Vec::new();
        let mut i: usize = 0;
        while i < self.blocks.len()
            invariant
                i <= self.blocks.len(),
                visible@.len() == i,
                forall|k: int|
                    0 <= k < i ==> #[trigger] visible@[k] == visible_part(
                        self@.blocks[k],
                        self@.scroll_offset,
                        self@.viewport_height,
                    ),
            decreases self.blocks.len() - i,
        {
            visible.push(self.visible_block(&self.blocks[i]));
            i = i + 1;
        }
        visible
    }

    fn visible_block(&self, block: &TimelineBlock) -> (visible: Option<VisibleBlock>)
        ensures
            visible == visible_part(*block, self@.scroll_offset, self@.viewport_height),
    {
        match visible_rows(
            block.rect.y,
            block.rect.height,
            self.scroll_offset,
            self.viewport_height,
        ) {
            Some((first, last)) => Some(
                VisibleBlock {
                    screen_rect: Rect {
                        x: block.rect.x,
                        y: first - self.scroll_offset,
                        width: block.rect.width,
                        height: last - first,
                    },
                    line_skip: first - block.rect.y,
                    is_last: block.is_last,
                    status: block.status,
                },
            ),
            None => None,
        }
    }
}

proof fn lemma_stacked_order(layout: LayoutView, i: int, j: int)
    requires
        is_stacked(layout),
        0 <= i < j < layout.blocks.len(),
    ensures
        block_bottom(layout.blocks[i]) <= layout.blocks[j].rect.y,
    decreases j - i,
{
    if j > i + 1 {
        lemma_stacked_order(layout, i, j - 1);
        assert(layout.blocks[j].rect.y == block_bottom(layout.blocks[j - 1]));
    } else {
        assert(layout.blocks[j].rect.y == block_bottom(layout.blocks[i]));
    }
}

/// Visible blocks never overlap: the rows of a later one lie below those of an
/// earlier one.
pub proof fn visible_blocks_do_not_overlap(layout: LayoutView, i: int, j: int)
    requires
        is_stacked(layout),
        0 <= i < j < layout.blocks.len(),
    ensures
        match (
            visible_part(layout.blocks[i], layout.scroll_offset, layout.viewport_height),
            visible_part(layout.blocks[j], layout.scroll_offset, layout.viewport_height),
        ) {
            (Some(upper), Some(lower)) => upper.screen_rect.y + upper.screen_rect.height
                <= lower.screen_rect.y,
            _ => true,
        },
{
    lemma_stacked_order(layout, i, j);
}

/// A visible block lies within the viewport and shows at least one row.
pub proof fn visible_block_is_in_the_viewport(block: TimelineBlock, offset: u16, viewport: u16)
    ensures
        visible_part(block, offset, viewport) matches Some(visible) ==> {
            &&& visible.screen_rect.height > 0
            &&& visible.screen_rect.y + visible.screen_rect.height <= viewport
            &&& visible.line_skip + visible.screen_rect.height <= block.rect.height
        },
{
}

/// Only the last block is marked as such.
pub proof fn last_block_alone_is_last(layout: LayoutView, log: Seq<EntryView>, width: u16, height: u16)
    requires
        is_layout_of(layout, log, width, height),
    ensures
        forall|i: int|
            0 <= i < layout.blocks.len() ==> (#[trigger] layout.blocks[i]).is_last == (i
                == layout.blocks.len() - 1),
{
}

/// The lines of a block that are skipped are its rows above the viewport; a row
/// shows exactly where it lies in the viewport, and where it lies there.
pub proof fn a_row_shows_where_it_lies(block: TimelineBlock, offset: u16, viewport: u16, row: u16)
    requires
        block.rect.y + block.rect.height <= u16::MAX,
        offset + viewport <= u16::MAX,
        block.rect.y <= row < block.rect.y + block.rect.height,
    ensures
        offset <= row < offset + viewport <==> (visible_part(
            block,
            offset,
            viewport,
        ) matches Some(visible) && offset + visible.screen_rect.y <= row < offset
            + visible.screen_rect.y + visible.screen_rect.height),
        visible_part(block, offset, viewport) matches Some(visible) ==> {
            &&& block.rect.y + visible.line_skip == offset + visible.screen_rect.y
            &&& offset <= block.rect.y ==> visible.line_skip == 0
            &&& offset > block.rect.y ==> visible.line_skip == offset - block.rect.y
            &&& visible.screen_rect.x == block.rect.x
            &&& visible.screen_rect.width == block.rect.width
            &&& visible.status == block.status
            &&& visible.is_last == block.is_last
        },
{
}

/// The rows of an entry's lines add up, each line counted once, below a header.
pub proof fn content_rows_add_up(first: Seq<Seq<char>>, second: Seq<Seq<char>>, width: nat)
    ensures
        content_rows(Seq::empty(), width) == 0,
        content_rows(first + second, width) == content_rows(first, width) + content_rows(
            second,
            width,
        ),
        second.len() == 1 ==> content_rows(second, width) == stack::text_rows(second[0], width),
    decreases second.len(),
{
    if second.len() == 0 {
        assert(first + second =~= first);
    } else {
        content_rows_add_up(first, second.drop_last(), width);
        assert((first + second).drop_last() =~= first + second.drop_last());
        assert((first + second).last() == second.last());
        if second.len() == 1 {
            assert(content_rows(second.drop_last(), width) == 0);
        }
    }
}

/// An entry takes a row for its header and those of its lines, wrapped to what
/// the prefix column leaves of the width.
pub proof fn an_entry_has_a_header_and_its_lines(entry: EntryView, width: nat)
    requires
        width > PREFIX_WIDTH,
    ensures
        entry_rows(entry, width) >= 1 + entry.lines.len(),
        entry_rows(entry, width) - 1 == content_rows(entry.lines, (width - PREFIX_WIDTH) as nat),
    decreases entry.lines.len(),
{
    if entry.lines.len() > 0 {
        an_entry_has_a_header_and_its_lines(
            EntryView { lines: entry.lines.drop_last(), ..entry },
            width,
        );
    }
}

/// Each block tells the status of its entry, and takes the whole width.
pub proof fn blocks_tell_their_entries(log: Seq<EntryView>, width: u16, index: int)
    requires
        0 <= index < log.len(),
        entry_rows(log[index], width as nat) <= u16::MAX,
    ensures
        block_of(log, width, index).status == log[index].status,
        block_of(log, width, index).rect.x == 0,
        block_of(log, width, index).rect.width == width,
        block_of(log, width, index).rect.height == entry_rows(log[index], width as nat),
{
}

/// The text of an entry stands behind a prefix of three columns, and has at least
/// one column to itself.
pub proof fn text_stands_behind_the_prefix(width: nat)
    ensures
        width > 4 ==> text_columns(width) == width - 3,
        width <= 4 ==> text_columns(width) == 1,
{
}

} // verus!
