//! Pure layout computation for chat bubbles: bounding rectangles, border sets,
//! and scroll bounds.

use vstd::prelude::*;

use crate::chat_log;
use crate::chat_log::{ChatLog, Message, MessageView};
use crate::layout::geometry;
use crate::layout::geometry::{Alignment, Borders, Rect};
use crate::layout::stack;
use crate::layout::stack::{furthest_offset, row_after, scroll_by, visible_rows, wrapped_line_count};

verus! {

/// Computed placement, border set, and alignment for a single bubble.
#[derive(Debug, Clone, Copy, PartialEq, Eq, Structural)]
pub struct Bubble {
    pub rect: Rect,
    pub borders: Borders,
    pub alignment: Alignment,
}

/// A row within a specific message's bubble, used to keep the viewport glued
/// to content across layout recomputation instead of an absolute offset that
/// drifts when an earlier bubble changes height.
#[derive(Debug, Clone, Copy, PartialEq, Eq, Structural)]
pub struct ScrollAnchor {
    pub message_index: usize,
    pub row_offset: u16,
}

/// The visible slice of a [`Bubble`] at the current scroll offset. See
/// [`BubbleLayout::visible_bubbles`].
#[derive(Debug, Clone, Copy, PartialEq, Eq, Structural)]
pub struct VisibleBubble {
    pub screen_rect: Rect,
    pub borders: Borders,
    pub text_line_skip: u16,
    pub alignment: Alignment,
}

/// Bubble rectangles, border sets, and scroll bounds of a [`ChatLog`] rendered
/// into a viewport of a given width and height.
#[derive(Debug, Clone, PartialEq, Eq)]
pub struct BubbleLayout {
    bubbles: Vec<Bubble>,
    total_height: u16,
    viewport_height: u16,
    scroll_offset: u16,
}

/// A layout in mathematical terms.
#[verifier::ext_equal]
pub struct LayoutView {
    pub bubbles: Seq<Bubble>,
    pub total_height: u16,
    pub viewport_height: u16,
    pub scroll_offset: u16,
}

impl View for BubbleLayout {
    type V = LayoutView;

    closed spec fn view(&self) -> LayoutView {
        LayoutView {
            bubbles: self.bubbles@,
            total_height: self.total_height,
            viewport_height: self.viewport_height,
            scroll_offset: self.scroll_offset,
        }
    }
}

/// How many columns a bubble takes: seven tenths of the viewport, and at least
/// a left and a right border column.
pub open spec fn bubble_columns(viewport_width: nat) -> nat {
    let share = viewport_width * 70 / 100;
    if share < 2 {
        2
    } else {
        share
    }
}

/// How many columns the text of a bubble takes.
pub open spec fn text_columns(viewport_width: nat) -> nat {
    let inner = bubble_columns(viewport_width) - 2;
    if inner < 1 {
        1
    } else {
        inner as nat
    }
}

/// Whether a message is in a frame, one row above and one below its text.
pub open spec fn is_framed(message: MessageView) -> bool {
    message is User || message is Agent
}

/// How many rows a message takes in a viewport of some width. The rows of a
/// cluster are counted in 16 bits.
pub open spec fn message_rows(message: MessageView, width: nat, keep_live: bool) -> nat {
    match message {
        MessageView::User(text) => 2 + stack::text_rows(text, text_columns(width)),
        MessageView::Agent(text) => 2 + stack::text_rows(text, text_columns(width)),
        MessageView::ToolCluster(cluster) => chat_log::row_count(cluster, keep_live) % 65536,
        MessageView::SessionNotice(_, text) => 1 + stack::text_rows(text, text_columns(width)),
        MessageView::SessionTransition(_) => 1,
    }
}

/// Whether the rows of a message can be counted.
pub open spec fn is_countable(message: MessageView, width: nat) -> bool {
    match message {
        MessageView::ToolCluster(cluster) => cluster.steps.len() < usize::MAX,
        _ => message_rows(message, width, false) <= u16::MAX,
    }
}

/// Whether the rows of every message can be counted.
pub open spec fn all_countable(log: Seq<MessageView>, width: nat) -> bool {
    forall|i: int| 0 <= i < log.len() ==> is_countable(#[trigger] log[i], width)
}

/// The heights of the bubbles of a log. The newest message keeps its live
/// tail.
pub open spec fn bubble_heights(log: Seq<MessageView>, width: nat) -> Seq<nat> {
    Seq::new(log.len(), |i: int| message_rows(log[i], width, i == log.len() - 1))
}

/// Where the bubble of a message stands.
pub open spec fn bubble_of(log: Seq<MessageView>, width: u16, index: int) -> Bubble {
    let columns = bubble_columns(width as nat);
    let heights = bubble_heights(log, width as nat);
    let alignment = if log[index] is User {
        Alignment::Right
    } else {
        Alignment::Left
    };
    Bubble {
        rect: Rect {
            x: if log[index] is User && width > columns {
                (width - columns) as u16
            } else {
                0
            },
            y: stack::top_of(heights, index) as u16,
            width: columns as u16,
            height: heights[index] as u16,
        },
        borders: if is_framed(log[index]) {
            geometry::all_borders()
        } else {
            geometry::no_borders()
        },
        alignment,
    }
}

/// The layout of a log, scrolled to its top.
pub open spec fn is_layout_of(
    layout: LayoutView,
    log: Seq<MessageView>,
    width: u16,
    height: u16,
) -> bool {
    &&& layout.bubbles.len() == log.len()
    &&& forall|i: int|
        0 <= i < log.len() ==> #[trigger] layout.bubbles[i] == bubble_of(log, width, i)
    &&& layout.total_height == stack::row(stack::total_rows(bubble_heights(log, width as nat)))
    &&& layout.viewport_height == height
    &&& layout.scroll_offset == 0
}

/// Whether each bubble starts where the one above it ends, and the last ends
/// with the content.
pub open spec fn is_stacked(layout: LayoutView) -> bool {
    let bubbles = layout.bubbles;
    &&& bubbles.len() == 0 ==> layout.total_height == 0
    &&& bubbles.len() > 0 ==> bubbles[0].rect.y == 0 && layout.total_height == bubble_bottom(
        bubbles[bubbles.len() - 1],
    )
    &&& forall|i: int, j: int|
        0 <= i && j == i + 1 && j < bubbles.len() ==> (#[trigger] bubbles[j]).rect.y
            == bubble_bottom(#[trigger] bubbles[i])
}

/// The row below a bubble.
pub open spec fn bubble_bottom(bubble: Bubble) -> nat {
    stack::row((bubble.rect.y + bubble.rect.height) as nat)
}

/// What a viewport shows of a bubble. A truncated bubble has no border on the
/// edge that is out of view.
pub open spec fn visible_part(bubble: Bubble, offset: u16, viewport: u16) -> Option<VisibleBubble> {
    match stack::visible_span(
        bubble.rect.y as nat,
        bubble.rect.height as nat,
        offset as nat,
        viewport as nat,
    ) {
        Some((first, last)) => {
            let hidden = first - bubble.rect.y;
            Some(
                VisibleBubble {
                    screen_rect: Rect {
                        x: bubble.rect.x,
                        y: (first - offset) as u16,
                        width: bubble.rect.width,
                        height: (last - first) as u16,
                    },
                    borders: Borders {
                        top: bubble.borders.top && hidden == 0,
                        bottom: bubble.borders.bottom && last == bubble_bottom(bubble),
                        ..bubble.borders
                    },
                    text_line_skip: if bubble.borders.top && hidden > 0 {
                        (hidden - 1) as u16
                    } else {
                        hidden as u16
                    },
                    alignment: bubble.alignment,
                },
            )
        },
        None => None,
    }
}

/// Whether a bubble is the first that ends below the top of the viewport.
pub open spec fn is_first_below(layout: LayoutView, index: int) -> bool {
    &&& 0 <= index < layout.bubbles.len()
    &&& bubble_bottom(layout.bubbles[index]) > layout.scroll_offset
    &&& forall|i: int|
        0 <= i < index ==> bubble_bottom(#[trigger] layout.bubbles[i]) <= layout.scroll_offset
}

/// Whether an anchor stands for the row at the top of the viewport. There is
/// none where no bubble reaches below it.
pub open spec fn is_anchor_of(layout: LayoutView, anchor: Option<ScrollAnchor>) -> bool {
    match anchor {
        Some(anchor) => {
            let index = anchor.message_index as int;
            &&& is_first_below(layout, index)
            &&& anchor.row_offset == (if layout.scroll_offset > layout.bubbles[index].rect.y {
                layout.scroll_offset - layout.bubbles[index].rect.y
            } else {
                0
            })
        },
        None => forall|i: int|
            0 <= i < layout.bubbles.len() ==> bubble_bottom(#[trigger] layout.bubbles[i])
                <= layout.scroll_offset,
    }
}

/// The scroll offset that puts an anchor's row at the top of the viewport, or
/// the last row of its bubble where that has shrunk.
pub open spec fn anchored_offset(layout: LayoutView, anchor: ScrollAnchor) -> nat {
    if anchor.message_index < layout.bubbles.len() {
        let rect = layout.bubbles[anchor.message_index as int].rect;
        let last_row = if rect.height == 0 {
            0
        } else {
            rect.height - 1
        };
        let offset = if anchor.row_offset < last_row {
            anchor.row_offset as int
        } else {
            last_row
        };
        stack::row((rect.y + offset) as nat)
    } else {
        stack::max_offset(layout.total_height as nat, layout.viewport_height as nat)
    }
}

fn bubble_width(viewport_width: u16) -> (width: u16)
    ensures
        width == bubble_columns(viewport_width as nat),
{
    let share: u32 = viewport_width as u32 * 70 / 100;
    if share < 2 {
        2
    } else {
        share as u16
    }
}

/// How many rows a message takes.
fn rows_of(message: &Message, text_width: u16, Ghost(width): Ghost<nat>, keep_live: bool) -> (rows:
    u16)
    requires
        text_width == text_columns(width),
        is_countable(message@, width),
    ensures
        rows == message_rows(message@, width, keep_live),
{
    match message {
        Message::User(message) => 2 + wrapped_line_count(message.text.as_str(), text_width),
        Message::Agent(message) => 2 + wrapped_line_count(message.text.as_str(), text_width),
        Message::ToolCluster(cluster) => (cluster.visible_row_count(keep_live) % 65536) as u16,
        Message::SessionNotice(notice) => {
            1 + wrapped_line_count(notice.text.as_str(), text_width)
        },
        Message::SessionTransition(_) => 1,
    }
}

impl BubbleLayout {
    /// Computes the layout for `log` within a viewport of `width` x `height`
    /// columns/rows. Bubbles take up to 70% of `width`.
    pub fn new(log: &ChatLog, width: u16, height: u16) -> (layout: Self)
        requires
            all_countable(log@, width as nat),
        ensures
            is_layout_of(layout@, log@, width, height),
            is_stacked(layout@),
    {
        let columns: u16 = bubble_width(width);
        let text_width: u16 = if columns > 3 {
            columns - 2
        } else {
            1
        };
        let messages = log.messages();
        let ghost entries = log@;
        let ghost heights = bubble_heights(entries, width as nat);
        assert(entries == chat_log::message_views(messages@));
        let mut bubbles: Vec<Bubble> = Vec::new();
        let mut y: u16 = 0;
        let mut i: usize = 0;
        assert(heights.take(0).len() == 0);
        while i < messages.len()
            invariant
                entries == chat_log::message_views(messages@),
                heights == bubble_heights(entries, width as nat),
                all_countable(entries, width as nat),
                columns == bubble_columns(width as nat),
                text_width == text_columns(width as nat),
                i <= messages.len(),
                bubbles@.len() == i,
                y == stack::top_of(heights, i as int),
                i == 0 ==> y == 0,
                i > 0 ==> bubbles@[0].rect.y == 0 && y == bubble_bottom(bubbles@[i - 1]),
                forall|k: int|
                    0 <= k < i ==> #[trigger] bubbles@[k] == bubble_of(entries, width, k),
                forall|k: int, j: int|
                    0 <= k && j == k + 1 && j < i ==> (#[trigger] bubbles@[j]).rect.y
                        == bubble_bottom(#[trigger] bubbles@[k]),
            decreases messages.len() - i,
        {
            let message = &messages[i];
            assert(entries[i as int] == message@);
            let rows: u16 = rows_of(
                message,
                text_width,
                Ghost(width as nat),
                i == messages.len() - 1,
            );
            let (framed, right) = match message {
                Message::User(_) => (true, true),
                Message::Agent(_) => (true, false),
                _ => (false, false),
            };
            let bubble = Bubble {
                rect: Rect {
                    x: if right && width > columns {
                        width - columns
                    } else {
                        0
                    },
                    y,
                    width: columns,
                    height: rows,
                },
                borders: if framed {
                    Borders::all()
                } else {
                    Borders::none()
                },
                alignment: if right {
                    Alignment::Right
                } else {
                    Alignment::Left
                },
            };
            bubbles.push(bubble);
            proof {
                stack::lemma_top_of_next(heights, i as int);
            }
            y = row_after(y, rows);
            i = i + 1;
        }
        assert(heights.take(heights.len() as int) =~= heights);
        BubbleLayout { bubbles, total_height: y, viewport_height: height, scroll_offset: 0 }
    }

    /// Bounding rectangles, border sets, and alignment, one per message, in
    /// the same order as the source [`ChatLog`].
    pub fn bubbles(&self) -> (bubbles: &[Bubble])
        ensures
            bubbles@ == self@.bubbles,
    {
        self.bubbles.as_slice()
    }

    /// Total height in rows of all bubbles stacked vertically.
    pub fn total_height(&self) -> (height: u16)
        ensures
            height == self@.total_height,
    {
        self.total_height
    }

    /// Current scroll offset in rows from the top of the content.
    pub fn scroll_offset(&self) -> (offset: u16)
        ensures
            offset == self@.scroll_offset,
    {
        self.scroll_offset
    }

    /// Moves the scroll offset by `delta` rows, clamped to
    /// `0..=(total_height - viewport_height)` (or `0` if content fits).
    pub fn scroll(&mut self, delta: i16)
        ensures
            final(self)@ == (LayoutView {
                scroll_offset: stack::scrolled(
                    old(self)@.scroll_offset as int,
                    delta as int,
                    old(self)@.total_height as nat,
                    old(self)@.viewport_height as nat,
                ) as u16,
                ..old(self)@
            }),
            final(self)@.scroll_offset <= stack::max_offset(
                old(self)@.total_height as nat,
                old(self)@.viewport_height as nat,
            ),
    {
        self.scroll_offset = scroll_by(
            self.scroll_offset,
            delta,
            self.total_height,
            self.viewport_height,
        );
    }

    /// Jumps the scroll offset to the bottom of the content (or `0` if it fits
    /// within the viewport).
    pub fn scroll_to_bottom(&mut self)
        ensures
            final(self)@ == (LayoutView {
                scroll_offset: stack::max_offset(
                    old(self)@.total_height as nat,
                    old(self)@.viewport_height as nat,
                ) as u16,
                ..old(self)@
            }),
    {
        self.scroll_offset = furthest_offset(self.total_height, self.viewport_height);
    }

    /// Bubbles currently within the viewport at the current scroll offset, one
    /// slot per message in [`bubbles`](Self::bubbles) order (`None` where a
    /// bubble is scrolled fully out of view).
    ///
    /// `screen_rect` is relative to the top-left of the viewport (not the
    /// terminal), already reduced to only the visible rows, with whichever
    /// border edge got scrolled past removed so a truncated bubble never shows
    /// a border implying it's complete. `text_line_skip` is how many wrapped
    /// text lines are hidden above the visible window.
    pub fn visible_bubbles(&self) -> (visible: Vec<Option<VisibleBubble>>)
        ensures
            visible@.len() == self@.bubbles.len(),
            forall|i: int|
                0 <= i < visible@.len() ==> #[trigger] visible@[i] == visible_part(
                    self@.bubbles[i],
                    self@.scroll_offset,
                    self@.viewport_height,
                ),
            forall|i: int|
                0 <= i < visible@.len() ==> (#[trigger] visible@[i] matches Some(shown)
                    ==> shown.text_line_skip + (if self@.bubbles[i].borders.top
                    && self@.scroll_offset > self@.bubbles[i].rect.y {
                    1int
                } else {
                    0
                }) == rows_above(self@.bubbles[i], self@.scroll_offset)),
    {
        let mut visible: Vec<Option<VisibleBubble>> = Vec::new();
        let mut i: usize = 0;
        while i < self.bubbles.len()
            invariant
                i <= self.bubbles.len(),
                visible@.len() == i,
                forall|k: int|
                    0 <= k < i ==> #[trigger] visible@[k] == visible_part(
                        self@.bubbles[k],
                        self@.scroll_offset,
                        self@.viewport_height,
                    ),
            decreases self.bubbles.len() - i,
        {
            visible.push(self.visible_bubble(&self.bubbles[i]));
            i = i + 1;
        }
        visible
    }

    fn visible_bubble(&self, bubble: &Bubble) -> (visible: Option<VisibleBubble>)
        ensures
            visible == visible_part(*bubble, self@.scroll_offset, self@.viewport_height),
    {
        match visible_rows(
            bubble.rect.y,
            bubble.rect.height,
            self.scroll_offset,
            self.viewport_height,
        ) {
            Some((first, last)) => {
                let hidden: u16 = first - bubble.rect.y;
                let bottom: u16 = row_after(bubble.rect.y, bubble.rect.height);
                let mut borders = bubble.borders;
                if hidden > 0 {
                    borders.top = false;
                }
                if last < bottom {
                    borders.bottom = false;
                }
                Some(
                    VisibleBubble {
                        screen_rect: Rect {
                            x: bubble.rect.x,
                            y: first - self.scroll_offset,
                            width: bubble.rect.width,
                            height: last - first,
                        },
                        borders,
                        text_line_skip: if bubble.borders.top && hidden > 0 {
                            hidden - 1
                        } else {
                            hidden
                        },
                        alignment: bubble.alignment,
                    },
                )
            },
            None => None,
        }
    }

    /// The bubble currently at the top of the viewport, and how many of its
    /// rows are scrolled past. `None` if no bubble reaches below the top of
    /// the viewport.
    pub fn anchor(&self) -> (anchor: Option<ScrollAnchor>)
        ensures
            is_anchor_of(self@, anchor),
    {
        let mut i: usize = 0;
        while i < self.bubbles.len()
            invariant
                i <= self.bubbles.len(),
                forall|k: int|
                    0 <= k < i ==> bubble_bottom(#[trigger] self@.bubbles[k])
                        <= self@.scroll_offset,
            decreases self.bubbles.len() - i,
        {
            let bubble = self.bubbles[i];
            assert(self@.bubbles[i as int] == bubble);
            if row_after(bubble.rect.y, bubble.rect.height) > self.scroll_offset {
                let row_offset: u16 = if self.scroll_offset > bubble.rect.y {
                    self.scroll_offset - bubble.rect.y
                } else {
                    0
                };
                return Some(ScrollAnchor { message_index: i, row_offset });
            }
            i = i + 1;
        }
        None
    }

    /// Moves the scroll offset so the row identified by `anchor` sits at the
    /// top of the viewport. If the anchor's bubble has shrunk past
    /// `row_offset`, clamps to its last row instead of jumping to an unrelated
    /// bubble; otherwise never forces the viewport to pack against the bottom,
    /// so shrinking content leaves blank space there rather than reflowing
    /// bubbles above it.
    pub fn scroll_to_anchor(&mut self, anchor: ScrollAnchor)
        ensures
            final(self)@ == (LayoutView {
                scroll_offset: anchored_offset(old(self)@, anchor) as u16,
                ..old(self)@
            }),
    {
        if anchor.message_index < self.bubbles.len() {
            let rect = self.bubbles[anchor.message_index].rect;
            let last_row: u16 = if rect.height == 0 {
                0
            } else {
                rect.height - 1
            };
            let offset: u16 = if anchor.row_offset < last_row {
                anchor.row_offset
            } else {
                last_row
            };
            self.scroll_offset = row_after(rect.y, offset);
        } else {
            self.scroll_to_bottom();
        }
    }

    /// Advances the scroll offset just far enough to reveal the newest
    /// content, without ever scrolling back up. Applied after
    /// [`Self::scroll_to_anchor`] to make autoscroll follow growth (new
    /// messages, streaming text) while still tolerating shrinkage elsewhere
    /// without snapping back down to force-fill the viewport.
    pub fn extend_to_bottom(&mut self)
        ensures
            final(self)@ == (LayoutView {
                scroll_offset: extended_offset(old(self)@) as u16,
                ..old(self)@
            }),
    {
        let limit: u16 = furthest_offset(self.total_height, self.viewport_height);
        if limit > self.scroll_offset {
            self.scroll_offset = limit;
        }
    }
}

/// The scroll offset that shows the newest content, and no less than now.
pub open spec fn extended_offset(layout: LayoutView) -> nat {
    let limit = stack::max_offset(layout.total_height as nat, layout.viewport_height as nat);
    if limit > layout.scroll_offset {
        limit
    } else {
        layout.scroll_offset as nat
    }
}

/// Whether the rows of every message can be counted in a viewport of some
/// width, as a layout needs.
pub fn rows_are_countable(log: &ChatLog, width: u16) -> (countable: bool)
    ensures
        countable == all_countable(log@, width as nat),
{
    let columns: u16 = bubble_width(width);
    let text_width: u16 = if columns > 3 {
        columns - 2
    } else {
        1
    };
    let messages = log.messages();
    let ghost entries = log@;
    assert(entries == chat_log::message_views(messages@));
    let mut i: usize = 0;
    while i < messages.len()
        invariant
            entries == log@,
            entries == chat_log::message_views(messages@),
            text_width == text_columns(width as nat),
            i <= messages.len(),
            forall|k: int| 0 <= k < i ==> is_countable(#[trigger] entries[k], width as nat),
        decreases messages.len() - i,
    {
        assert(entries[i as int] == messages@[i as int]@);
        let fits = match &messages[i] {
            Message::User(message) => counted(message.text.as_str(), text_width) <= 65533,
            Message::Agent(message) => counted(message.text.as_str(), text_width) <= 65533,
            Message::ToolCluster(cluster) => {
                let steps = cluster.steps();
                assert(chat_log::step_views(steps@).len() == steps@.len());
                steps.len() < usize::MAX
            },
            Message::SessionNotice(notice) => {
                counted(notice.text.as_str(), text_width) <= 65534
            },
            Message::SessionTransition(_) => true,
        };
        if !fits {
            assert(!is_countable(entries[i as int], width as nat));
            return false;
        }
        i = i + 1;
    }
    true
}

/// The rows that a text takes, in as many bits as a length has.
fn counted(text: &str, width: u16) -> (rows: usize)
    requires
        width > 0,
    ensures
        rows == stack::text_rows(text@, width as nat),
{
    let lines = crate::text::words::wrap_paragraph_lines(text, width as usize, width as usize);
    assert(crate::text::chars::texts(lines@).len() == lines@.len());
    if lines.len() == 0 {
        1
    } else {
        lines.len()
    }
}

/// In a stack, what comes later starts no higher than what comes earlier ends.
pub proof fn lemma_stacked_order(layout: LayoutView, i: int, j: int)
    requires
        is_stacked(layout),
        0 <= i < j < layout.bubbles.len(),
    ensures
        bubble_bottom(layout.bubbles[i]) <= layout.bubbles[j].rect.y,
    decreases j - i,
{
    if j > i + 1 {
        lemma_stacked_order(layout, i, j - 1);
        assert(layout.bubbles[j].rect.y == bubble_bottom(layout.bubbles[j - 1]));
    } else {
        assert(layout.bubbles[j].rect.y == bubble_bottom(layout.bubbles[i]));
    }
}

/// Visible bubbles never overlap: the rows of a later one lie below those of
/// an earlier one.
pub proof fn visible_bubbles_do_not_overlap(layout: LayoutView, i: int, j: int)
    requires
        is_stacked(layout),
        0 <= i < j < layout.bubbles.len(),
    ensures
        match (
            visible_part(layout.bubbles[i], layout.scroll_offset, layout.viewport_height),
            visible_part(layout.bubbles[j], layout.scroll_offset, layout.viewport_height),
        ) {
            (Some(upper), Some(lower)) => upper.screen_rect.y + upper.screen_rect.height
                <= lower.screen_rect.y,
            _ => true,
        },
{
    lemma_stacked_order(layout, i, j);
}

/// A visible bubble lies within the viewport and shows at least one row.
pub proof fn visible_bubble_is_in_the_viewport(bubble: Bubble, offset: u16, viewport: u16)
    ensures
        visible_part(bubble, offset, viewport) matches Some(visible) ==> {
            &&& visible.screen_rect.height > 0
            &&& visible.screen_rect.y + visible.screen_rect.height <= viewport
            &&& visible.screen_rect.height <= bubble.rect.height
            &&& visible.screen_rect.x == bubble.rect.x
            &&& visible.screen_rect.width == bubble.rect.width
        },
{
}

/// A bubble shows its top border only with its first row, and its bottom
/// border only with its last.
pub proof fn truncated_bubble_shows_no_border(bubble: Bubble, offset: u16, viewport: u16)
    ensures
        visible_part(bubble, offset, viewport) matches Some(visible) ==> {
            &&& visible.borders.top ==> bubble.rect.y >= offset
            &&& visible.borders.bottom ==> bubble_bottom(bubble) <= stack::row(
                (offset + viewport) as nat,
            )
        },
{
}

/// Every row of the content that the viewport reaches belongs to a bubble that
/// shows it.
pub proof fn viewport_is_covered(layout: LayoutView, screen_row: u16) -> (index: int)
    requires
        is_stacked(layout),
        screen_row < layout.viewport_height,
        layout.scroll_offset + screen_row < layout.total_height,
    ensures
        0 <= index < layout.bubbles.len(),
        visible_part(
            layout.bubbles[index],
            layout.scroll_offset,
            layout.viewport_height,
        ) matches Some(visible) && visible.screen_rect.y <= screen_row < visible.screen_rect.y
            + visible.screen_rect.height,
{
    let wanted = layout.scroll_offset + screen_row;
    let index = lemma_row_is_in_a_bubble(layout, layout.bubbles.len() as int, wanted);
    index
}

proof fn lemma_row_is_in_a_bubble(layout: LayoutView, count: int, wanted: int) -> (index: int)
    requires
        is_stacked(layout),
        0 < count <= layout.bubbles.len(),
        0 <= wanted < bubble_bottom(layout.bubbles[count - 1]),
    ensures
        0 <= index < count,
        layout.bubbles[index].rect.y <= wanted < bubble_bottom(layout.bubbles[index]),
    decreases count,
{
    let last = layout.bubbles[count - 1];
    if last.rect.y <= wanted {
        count - 1
    } else {
        assert(count > 1);
        assert(last.rect.y == bubble_bottom(layout.bubbles[count - 2]));
        lemma_row_is_in_a_bubble(layout, count - 1, wanted)
    }
}

/// Scrolling back to the anchor of a layout leaves its scroll offset as it is.
pub proof fn anchor_restores_the_offset(layout: LayoutView, anchor: ScrollAnchor)
    requires
        is_stacked(layout),
        is_anchor_of(layout, Some(anchor)),
    ensures
        anchored_offset(layout, anchor) == layout.scroll_offset,
{
    let index = anchor.message_index as int;
    if index > 0 {
        assert(layout.bubbles[index].rect.y == bubble_bottom(layout.bubbles[index - 1]));
    }
}

/// Following the newest content never scrolls back up, shows the last row of
/// the content, and does nothing the second time.
pub proof fn following_never_scrolls_up(layout: LayoutView)
    ensures
        extended_offset(layout) >= layout.scroll_offset,
        extended_offset(layout) + layout.viewport_height >= layout.total_height,
        extended_offset(
            LayoutView { scroll_offset: extended_offset(layout) as u16, ..layout },
        ) == extended_offset(layout),
{
}

/// How many rows of a bubble are scrolled past.
pub open spec fn rows_above(bubble: Bubble, offset: u16) -> int {
    if offset > bubble.rect.y {
        offset - bubble.rect.y
    } else {
        0
    }
}

/// The rows of a bubble that are scrolled past are its top border, where it has
/// one, and the lines of text that are skipped. So the first line that shows
/// follows on the last that does not.
pub proof fn skipped_lines_are_those_above(bubble: Bubble, offset: u16, viewport: u16)
    ensures
        visible_part(bubble, offset, viewport) matches Some(visible) ==> {
            &&& visible.text_line_skip + (if bubble.borders.top && offset > bubble.rect.y {
                1int
            } else {
                0
            }) == rows_above(bubble, offset)
            &&& offset <= bubble.rect.y ==> visible.text_line_skip == 0
        },
{
}

/// One more row scrolled into the text of a bubble skips one more line of it.
pub proof fn scrolling_on_skips_one_more_line(bubble: Bubble, offset: u16, viewport: u16)
    requires
        bubble.rect.y + 1 <= offset < u16::MAX,
    ensures
        match (
            visible_part(bubble, offset, viewport),
            visible_part(bubble, (offset + 1) as u16, viewport),
        ) {
            (Some(now), Some(next)) => next.text_line_skip == now.text_line_skip + 1,
            _ => true,
        },
{
}

/// A row of a bubble is shown exactly where it lies in the viewport, and where it
/// lies there. Rows that cannot be counted do not show.
pub proof fn a_row_shows_where_it_lies(bubble: Bubble, offset: u16, viewport: u16, row: u16)
    requires
        bubble.rect.y + bubble.rect.height <= u16::MAX,
        offset + viewport <= u16::MAX,
        bubble.rect.y <= row < bubble.rect.y + bubble.rect.height,
    ensures
        offset <= row < offset + viewport <==> (visible_part(
            bubble,
            offset,
            viewport,
        ) matches Some(visible) && offset + visible.screen_rect.y <= row < offset
            + visible.screen_rect.y + visible.screen_rect.height),
{
}

/// A bubble shows its borders where it has them and the row they are in lies in
/// the viewport; its sides always show.
pub proof fn borders_show_with_their_rows(bubble: Bubble, offset: u16, viewport: u16)
    requires
        bubble.rect.y + bubble.rect.height <= u16::MAX,
        offset + viewport <= u16::MAX,
    ensures
        visible_part(bubble, offset, viewport) matches Some(visible) ==> {
            &&& visible.borders.top <==> bubble.borders.top && offset <= bubble.rect.y
            &&& visible.borders.bottom <==> bubble.borders.bottom && bubble.rect.y
                + bubble.rect.height <= offset + viewport
            &&& visible.borders.left == bubble.borders.left
            &&& visible.borders.right == bubble.borders.right
            &&& visible.alignment == bubble.alignment
        },
{
}

/// Bubbles take seven tenths of the viewport, rounded down, as long as there is
/// room for a frame; the text takes what the frame leaves, and at least a column.
pub proof fn bubbles_take_seven_tenths(width: nat)
    ensures
        width >= 3 ==> 100 * bubble_columns(width) <= 70 * width < 100 * (bubble_columns(width)
            + 1),
        width >= 3 ==> bubble_columns(width) <= width,
        bubble_columns(width) >= 2,
        text_columns(width) >= 1,
        bubble_columns(width) >= 3 ==> text_columns(width) + 2 == bubble_columns(width),
{
}

/// Messages of the user stand at the right edge of the viewport and all others
/// at the left; speech has a frame on every side, and nothing else has any.
pub proof fn bubbles_stand_at_their_side(log: Seq<MessageView>, width: u16, index: int)
    requires
        0 <= index < log.len(),
        width >= 3,
    ensures
        ({
            let bubble = bubble_of(log, width, index);
            &&& bubble.rect.width == bubble_columns(width as nat)
            &&& log[index] is User ==> bubble.rect.x + bubble.rect.width == width
                && bubble.alignment is Right
            &&& !(log[index] is User) ==> bubble.rect.x == 0 && bubble.alignment is Left
            &&& log[index] is User || log[index] is Agent ==> bubble.borders.top
                && bubble.borders.bottom && bubble.borders.left && bubble.borders.right
            &&& !(log[index] is User || log[index] is Agent) ==> !bubble.borders.top
                && !bubble.borders.bottom && !bubble.borders.left && !bubble.borders.right
        }),
{
}

/// Speech takes a row for each line it wraps to and two for its frame, a notice
/// one more than its lines, a transition a single row, and a cluster as many as
/// it shows.
pub proof fn bubbles_hold_their_text(message: MessageView, width: nat, keep_live: bool)
    ensures
        match message {
            MessageView::User(text) => message_rows(message, width, keep_live) >= 3
                && message_rows(message, width, keep_live) - 2 == stack::text_rows(
                text,
                text_columns(width),
            ),
            MessageView::Agent(text) => message_rows(message, width, keep_live)
                == message_rows(MessageView::User(text), width, keep_live),
            MessageView::SessionNotice(_, text) => message_rows(message, width, keep_live) + 1
                == message_rows(MessageView::User(text), width, keep_live),
            MessageView::SessionTransition(_) => message_rows(message, width, keep_live) == 1,
            MessageView::ToolCluster(cluster) => chat_log::row_count(cluster, keep_live) < 65536
                ==> message_rows(message, width, keep_live) == chat_log::row_count(
                cluster,
                keep_live,
            ),
        },
{
}

/// Only the newest message keeps its live tail.
pub proof fn the_newest_bubble_keeps_its_tail(log: Seq<MessageView>, width: nat, index: int)
    requires
        0 <= index < log.len(),
    ensures
        bubble_heights(log, width).len() == log.len(),
        index < log.len() - 1 ==> bubble_heights(log, width)[index] == message_rows(
            log[index],
            width,
            false,
        ),
        index == log.len() - 1 ==> bubble_heights(log, width)[index] == message_rows(
            log[index],
            width,
            true,
        ),
{
}

/// An anchor keeps the viewport at the same row of the same bubble, wherever the
/// bubble has moved to, as long as it still has that row; where it has shrunk,
/// at its last row.
pub proof fn an_anchor_stays_with_its_row(layout: LayoutView, anchor: ScrollAnchor)
    requires
        anchor.message_index < layout.bubbles.len(),
        layout.bubbles[anchor.message_index as int].rect.y
            + layout.bubbles[anchor.message_index as int].rect.height <= u16::MAX,
        layout.bubbles[anchor.message_index as int].rect.height > 0,
    ensures
        ({
            let rect = layout.bubbles[anchor.message_index as int].rect;
            &&& anchor.row_offset < rect.height ==> anchored_offset(layout, anchor) - rect.y
                == anchor.row_offset
            &&& anchor.row_offset >= rect.height ==> anchored_offset(layout, anchor) + 1
                == rect.y + rect.height
        }),
{
}

/// A log has one layout, which has a bubble for each message and shows its top.
pub proof fn a_log_has_one_layout(
    first: LayoutView,
    second: LayoutView,
    log: Seq<MessageView>,
    width: u16,
    height: u16,
)
    requires
        is_layout_of(first, log, width, height),
        is_layout_of(second, log, width, height),
    ensures
        first == second,
        first.bubbles.len() == log.len(),
        first.viewport_height == height,
        first.scroll_offset == 0,
        forall|i: int| 0 <= i < log.len() ==> #[trigger] first.bubbles[i] == bubble_of(log, width, i),
{
    assert(first.bubbles =~= second.bubbles);
}

/// The first bubble that shows is the one before which all have scrolled away.
pub proof fn the_first_bubble_below_is_one(layout: LayoutView, first: int, second: int)
    requires
        is_first_below(layout, first),
        is_first_below(layout, second),
    ensures
        first == second,
        0 <= first < layout.bubbles.len(),
        bubble_bottom(layout.bubbles[first]) > layout.scroll_offset,
{
    if first < second {
        assert(bubble_bottom(layout.bubbles[first]) <= layout.scroll_offset);
    }
    if second < first {
        assert(bubble_bottom(layout.bubbles[second]) <= layout.scroll_offset);
    }
}

/// What is said stands in a frame, and nothing else does.
pub proof fn speech_alone_is_framed(message: MessageView, text: Seq<char>)
    ensures
        is_framed(MessageView::User(text)),
        is_framed(MessageView::Agent(text)),
        message is ToolCluster || message is SessionTransition ==> !is_framed(message),
{
}

/// A viewport too narrow for more still leaves a bubble its two border columns
/// and its text one column.
pub proof fn narrow_bubbles_keep_a_column(width: nat)
    ensures
        width < 3 ==> bubble_columns(width) == 2 && text_columns(width) == 1,
        bubble_columns(width) <= 3 ==> text_columns(width) == 1,
{
}

} // verus!
