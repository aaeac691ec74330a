//! The chat log as it is drawn.

use vstd::prelude::*;

use crate::bubble_layout;
use crate::bubble_layout::{
    rows_are_countable, Bubble, BubbleLayout, LayoutView, VisibleBubble,
};
use crate::chat_log;
use crate::chat_log::{Message, MessageView, SessionNoticeKind};
use crate::layout::geometry::{Borders, Rect};
use crate::layout::stack;
use crate::layout::stack::row_after;
use crate::text::search;
use crate::ui::app::{App, AppView};
use crate::ui::cluster;
use crate::ui::cluster::render_tool_cluster;
use crate::ui::confetti;
use crate::ui::style;
use crate::ui::style::{
    agent_color, user_color, Color, LineView, StyledLine, AGENT_ICON, AGENT_NAME, USER_ICON,
    USER_NAME,
};

verus! {

/// The rows that a focused bubble must be scrolled by to be in view. Its top
/// comes first.
pub open spec fn rows_to(bubble: Bubble, offset: u16, height: u16) -> int {
    let bottom = bubble_layout::bubble_bottom(bubble);
    if bubble.rect.y < offset {
        bubble.rect.y - offset
    } else if bottom > stack::row((offset + height) as nat) {
        (if bottom > height {
            bottom - height
        } else {
            0
        }) - offset
    } else {
        0
    }
}

/// A number of rows as far as it can be counted in 16 bits.
pub open spec fn clamped(rows: int) -> int {
    if rows < i16::MIN {
        i16::MIN as int
    } else if rows > i16::MAX {
        i16::MAX as int
    } else {
        rows
    }
}

/// A layout with another scroll offset.
pub open spec fn at_offset(layout: LayoutView, offset: int) -> LayoutView {
    LayoutView { scroll_offset: offset as u16, ..layout }
}

/// A layout scrolled by a number of rows.
pub open spec fn moved(layout: LayoutView, rows: int) -> LayoutView {
    at_offset(
        layout,
        stack::scrolled(
            layout.scroll_offset as int,
            rows,
            layout.total_height as nat,
            layout.viewport_height as nat,
        ),
    )
}

/// A layout scrolled back to where the viewport was anchored.
pub open spec fn anchored(app: AppView, layout: LayoutView) -> LayoutView {
    match app.scroll_anchor {
        Some(anchor) => at_offset(layout, bubble_layout::anchored_offset(layout, anchor) as int),
        None => layout,
    }
}

/// A layout scrolled as far as it takes to keep a bubble in view.
pub open spec fn with_in_view(layout: LayoutView, index: nat, height: u16) -> LayoutView {
    if index < layout.bubbles.len() {
        let rows = rows_to(layout.bubbles[index as int], layout.scroll_offset, height);
        if rows_are_needed(layout.bubbles[index as int], layout.scroll_offset, height) {
            moved(layout, clamped(rows))
        } else {
            layout
        }
    } else {
        layout
    }
}

/// Whether a bubble is out of view, in part or whole.
pub open spec fn rows_are_needed(bubble: Bubble, offset: u16, height: u16) -> bool {
    bubble.rect.y < offset || bubble_layout::bubble_bottom(bubble) > stack::row(
        (offset + height) as nat,
    )
}

/// A fresh layout scrolled to what the user sees. The view that follows new
/// messages goes on to the last of them; any other stays where it was but for
/// the keys pressed since, and keeps the focused cluster in view.
pub open spec fn arranged(app: AppView, layout: LayoutView, height: u16) -> LayoutView {
    let back = anchored(app, layout);
    if app.autoscroll {
        at_offset(back, bubble_layout::extended_offset(back) as int)
    } else {
        let scrolled = if app.pending_scroll_delta != 0 {
            moved(back, app.pending_scroll_delta as int)
        } else {
            back
        };
        match app.focused_cluster {
            Some(focused) => with_in_view(scrolled, focused, height),
            None => scrolled,
        }
    }
}

/// Whether a layout is that of the log in an area, scrolled to what the user
/// sees.
pub open spec fn is_arranged(app: AppView, layout: LayoutView, area: Rect) -> bool {
    exists|fresh: LayoutView| #[trigger]
        bubble_layout::is_layout_of(fresh, app.log, area.width, area.height) && layout == arranged(
            app,
            fresh,
            area.height,
        )
}

/// A cluster that fits the viewport is in view whole while it has the focus.
/// It is left out where it is more rows away than can be scrolled at once.
pub proof fn focused_cluster_is_in_view(layout: LayoutView, index: nat)
    requires
        bubble_layout::is_stacked(layout),
        index < layout.bubbles.len(),
        layout.bubbles[index as int].rect.height <= layout.viewport_height,
        i16::MIN <= rows_to(
            layout.bubbles[index as int],
            layout.scroll_offset,
            layout.viewport_height,
        ) <= i16::MAX,
    ensures
        ({
            let bubble = layout.bubbles[index as int];
            let now = with_in_view(layout, index, layout.viewport_height);
            &&& now.scroll_offset <= bubble.rect.y
            &&& bubble_layout::bubble_bottom(bubble) <= now.scroll_offset + now.viewport_height
        }),
{
    let bubble = layout.bubbles[index as int];
    let last = layout.bubbles.len() - 1;
    if index < last {
        bubble_layout::lemma_stacked_order(layout, index as int, last);
    }
    assert(bubble_layout::bubble_bottom(bubble) <= layout.total_height);
}

/// A part of the chat log as it is drawn.
#[derive(Debug, PartialEq, Eq)]
pub enum Drawing {
    /// Speech in a frame with a title.
    Bubble {
        title: String,
        color: Color,
        text: String,
        borders: Borders,
        line_skip: u16,
        area: Rect,
    },
    /// The lines of a tool cluster.
    Cluster { lines: Vec<StyledLine>, line_skip: u16, area: Rect },
    /// An outcome of the session.
    Notice { text: String, color: Color, area: Rect },
    /// A rule across the log, with a title in the middle.
    Rule { left: String, title: String, right: String, area: Rect },
}

/// A part of the chat log as texts.
#[verifier::ext_equal]
pub enum DrawingView {
    Bubble {
        title: Seq<char>,
        color: Color,
        text: Seq<char>,
        borders: Borders,
        line_skip: u16,
        area: Rect,
    },
    Cluster { lines: Seq<LineView>, line_skip: u16, area: Rect },
    Notice { text: Seq<char>, color: Color, area: Rect },
    Rule { left: Seq<char>, title: Seq<char>, right: Seq<char>, area: Rect },
}

impl View for Drawing {
    type V = DrawingView;

    open spec fn view(&self) -> DrawingView {
        match *self {
            Drawing::Bubble { title, color, text, borders, line_skip, area } => {
                DrawingView::Bubble {
                    title: title@,
                    color,
                    text: text@,
                    borders,
                    line_skip,
                    area,
                }
            },
            Drawing::Cluster { lines, line_skip, area } => DrawingView::Cluster {
                lines: style::line_views(lines@),
                line_skip,
                area,
            },
            Drawing::Notice { text, color, area } => DrawingView::Notice { text: text@, color, area },
            Drawing::Rule { left, title, right, area } => DrawingView::Rule {
                left: left@,
                title: title@,
                right: right@,
                area,
            },
        }
    }
}

/// Parts of the chat log as texts.
pub open spec fn drawing_views(drawings: Seq<Drawing>) -> Seq<DrawingView> {
    Seq::new(drawings.len(), |i: int| drawings[i]@)
}

/// A number of horizontal strokes.
pub open spec fn strokes(count: nat) -> Seq<char> {
    Seq::new(count, |i: int| '\u{2500}')
}

/// The title of a speech bubble.
pub open spec fn bubble_title(icon: Seq<char>, name: Seq<char>) -> Seq<char> {
    " "@ + icon + " "@ + name + " "@
}

/// The title of a rule where another session takes over.
pub open spec fn transition_title(workflow: Seq<char>) -> Seq<char> {
    " \u{2699} "@ + workflow + " (main paused) "@
}

/// How many columns a rule is drawn on besides its title.
pub open spec fn rule_fill(width: u16, title: Seq<char>) -> nat {
    if title.len() < width {
        (width - title.len()) as nat
    } else {
        0
    }
}

/// Where a visible bubble is drawn.
pub open spec fn area_of(visible: VisibleBubble, area: Rect) -> Rect {
    Rect {
        x: (area.x + visible.screen_rect.x) as u16,
        y: (area.y + visible.screen_rect.y) as u16,
        width: visible.screen_rect.width,
        height: visible.screen_rect.height,
    }
}

/// The step that is selected in a cluster.
pub open spec fn selected_step(app: AppView, index: int) -> Option<usize> {
    match app.focused_tool_call {
        Some(id) => if id.0 == index && chat_log::cluster_at(app.log, index) is Some {
            Some(id.1 as usize)
        } else {
            None
        },
        None => None,
    }
}

/// How a message is drawn.
pub open spec fn drawing_of(app: AppView, index: int, visible: VisibleBubble, area: Rect) -> DrawingView {
    let place = area_of(visible, area);
    match app.log[index] {
        MessageView::User(text) => DrawingView::Bubble {
            title: bubble_title(USER_ICON@, USER_NAME@),
            color: style::accent_of_user(),
            text,
            borders: visible.borders,
            line_skip: visible.text_line_skip,
            area: place,
        },
        MessageView::Agent(text) => DrawingView::Bubble {
            title: bubble_title(AGENT_ICON@, AGENT_NAME@),
            color: style::accent_of_agent(),
            text,
            borders: visible.borders,
            line_skip: visible.text_line_skip,
            area: place,
        },
        MessageView::ToolCluster(steps) => DrawingView::Cluster {
            lines: cluster::cluster_lines(
                steps,
                app.focused_cluster == Some(index as nat),
                index + 1 == app.log.len(),
                selected_step(app, index),
                app.spinner_phase as nat,
                place.width as nat,
            ),
            line_skip: visible.text_line_skip,
            area: place,
        },
        MessageView::SessionNotice(kind, text) => DrawingView::Notice {
            text,
            color: match kind {
                SessionNoticeKind::Error => Color::Red,
                SessionNoticeKind::Stopped => Color::Yellow,
            },
            area: place,
        },
        MessageView::SessionTransition(workflow) => {
            let title = transition_title(workflow);
            let fill = rule_fill(place.width, title);
            DrawingView::Rule {
                left: strokes(fill / 2),
                title,
                right: strokes((fill - fill / 2) as nat),
                area: place,
            }
        },
    }
}

/// The first messages of the log as they are drawn. One that is out of view is
/// not.
pub open spec fn drawings_of(app: AppView, layout: LayoutView, count: nat, area: Rect) -> Seq<
    DrawingView,
>
    decreases count,
{
    if count == 0 {
        Seq::empty()
    } else {
        let index = count - 1;
        let before = drawings_of(app, layout, index as nat, area);
        match bubble_layout::visible_part(
            layout.bubbles[index],
            layout.scroll_offset,
            layout.viewport_height,
        ) {
            Some(visible) => before.push(drawing_of(app, index, visible, area)),
            None => before,
        }
    }
}

fn repeat_stroke(count: usize) -> (line: String)
    ensures
        line@ == strokes(count as nat),
{
    let mut line = String::new();
    let mut i: usize = 0;
    assert(line@ =~= strokes(0));
    while i < count
        invariant
            i <= count,
            line@ == strokes(i as nat),
        decreases count - i,
    {
        line.push('\u{2500}');
        assert(line@ =~= strokes((i + 1) as nat));
        i = i + 1;
    }
    line
}

fn titled(icon: &str, name: &str) -> (title: String)
    ensures
        title@ == bubble_title(icon@, name@),
{
    let mut title = " ".to_owned();
    title.append(icon);
    title.append(" ");
    title.append(name);
    title.append(" ");
    title
}

fn rule(workflow: &str, area: Rect) -> (drawing: Drawing)
    ensures
        ({
            let title = transition_title(workflow@);
            let fill = rule_fill(area.width, title);
            drawing@ == (DrawingView::Rule {
                left: strokes(fill / 2),
                title,
                right: strokes((fill - fill / 2) as nat),
                area,
            })
        }),
{
    let mut title = " \u{2699} ".to_owned();
    title.append(workflow);
    title.append(" (main paused) ");
    let columns: usize = title.as_str().unicode_len();
    let fill: usize = if columns < area.width as usize {
        area.width as usize - columns
    } else {
        0
    };
    let left: usize = fill / 2;
    Drawing::Rule { left: repeat_stroke(left), title, right: repeat_stroke(fill - left), area }
}

/// The chat log as it is drawn, and where the viewport is in it.
#[derive(Debug)]
pub struct ChatPicture {
    pub drawings: Vec<Drawing>,
    pub total_height: u16,
    pub scroll_offset: u16,
}

impl App {
    fn draw_message(&self, index: usize, visible: VisibleBubble, area: Rect) -> (drawing: Drawing)
        requires
            index < self@.log.len(),
            area.x + visible.screen_rect.x <= u16::MAX,
            area.y + visible.screen_rect.y <= u16::MAX,
        ensures
            drawing@ == drawing_of(self@, index as int, visible, area),
    {
        let place = Rect {
            x: area.x + visible.screen_rect.x,
            y: area.y + visible.screen_rect.y,
            width: visible.screen_rect.width,
            height: visible.screen_rect.height,
        };
        let messages = self.chat_log.messages();
        assert(chat_log::message_views(messages@).len() == messages@.len());
        assert(self.chat_log@[index as int] == messages@[index as int]@);
        match &messages[index] {
            Message::User(message) => Drawing::Bubble {
                title: titled(USER_ICON, USER_NAME),
                color: user_color(),
                text: message.text.clone(),
                borders: visible.borders,
                line_skip: visible.text_line_skip,
                area: place,
            },
            Message::Agent(message) => Drawing::Bubble {
                title: titled(AGENT_ICON, AGENT_NAME),
                color: agent_color(),
                text: message.text.clone(),
                borders: visible.borders,
                line_skip: visible.text_line_skip,
                area: place,
            },
            Message::ToolCluster(steps) => {
                let is_focused = match self.focused_cluster {
                    Some(focused) => focused == index,
                    None => false,
                };
                let keep_live = index == messages.len() - 1;
                let selected = match self.focused_tool_call {
                    Some(id) => self.chat_log.tool_call_step_index(index, id),
                    None => None,
                };
                Drawing::Cluster {
                    lines: render_tool_cluster(
                        steps,
                        is_focused,
                        keep_live,
                        selected,
                        self.spinner_phase,
                        place.width,
                    ),
                    line_skip: visible.text_line_skip,
                    area: place,
                }
            },
            Message::SessionNotice(notice) => Drawing::Notice {
                text: notice.text.clone(),
                color: match notice.kind {
                    SessionNoticeKind::Error => Color::Red,
                    SessionNoticeKind::Stopped => Color::Yellow,
                },
                area: place,
            },
            Message::SessionTransition(transition) => rule(
                transition.workflow_name.as_str(),
                place,
            ),
        }
    }

    /// Lays the log out and scrolls it to what the user sees.
    pub fn arrange(&mut self, area: Rect) -> (layout: BubbleLayout)
        requires
            old(self).well_formed(),
            bubble_layout::all_countable(old(self)@.log, area.width as nat),
        ensures
            final(self).confetti == old(self).confetti,
            final(self).well_formed(),
            is_arranged(old(self)@, layout@, area),
            bubble_layout::is_stacked(layout@),
            bubble_layout::is_anchor_of(layout@, final(self)@.scroll_anchor),
            final(self)@ == (AppView {
                scroll_anchor: final(self)@.scroll_anchor,
                pending_scroll_delta: if old(self)@.autoscroll {
                    old(self)@.pending_scroll_delta
                } else {
                    0
                },
                ..old(self)@
            }),
    {
        let mut layout = BubbleLayout::new(&self.chat_log, area.width, area.height);
        let ghost fresh = layout@;
        if let Some(anchor) = self.scroll_anchor {
            layout.scroll_to_anchor(anchor);
        }
        assert(layout@ == anchored(old(self)@, fresh));
        if self.autoscroll {
            layout.extend_to_bottom();
        } else {
            if self.pending_scroll_delta != 0 {
                layout.scroll(self.pending_scroll_delta);
                self.pending_scroll_delta = 0;
            }
            if let Some(focused) = self.focused_cluster {
                let bubbles = layout.bubbles();
                if focused < bubbles.len() {
                    let bubble = bubbles[focused];
                    let bottom: u16 = row_after(bubble.rect.y, bubble.rect.height);
                    let current: u16 = layout.scroll_offset();
                    let viewport_bottom: u16 = row_after(current, area.height);
                    if bubble.rect.y < current || bottom > viewport_bottom {
                        let target: u16 = if bubble.rect.y < current {
                            bubble.rect.y
                        } else if bottom > area.height {
                            bottom - area.height
                        } else {
                            0
                        };
                        let rows: i32 = target as i32 - current as i32;
                        let delta: i16 = if rows < i16::MIN as i32 {
                            i16::MIN
                        } else if rows > i16::MAX as i32 {
                            i16::MAX
                        } else {
                            rows as i16
                        };
                        layout.scroll(delta);
                    }
                }
            }
        }
        self.scroll_anchor = layout.anchor();
        assert(layout@ == arranged(old(self)@, fresh, area.height));
        assert(bubble_layout::is_layout_of(fresh, old(self)@.log, area.width, area.height));
        layout
    }

    /// The messages that are in view, as they are drawn.
    pub fn drawings(&self, layout: &BubbleLayout, area: Rect) -> (drawings: Vec<Drawing>)
        requires
            confetti::is_on_screen(area),
            layout@.bubbles.len() == self@.log.len(),
            layout@.viewport_height == area.height,
            forall|i: int|
                0 <= i < layout@.bubbles.len() ==> (#[trigger] layout@.bubbles[i]).rect.x
                    <= area.width,
        ensures
            drawing_views(drawings@) == drawings_of(self@, layout@, self@.log.len(), area),
    {
        let visible = layout.visible_bubbles();
        let mut drawings: Vec<Drawing> = Vec::new();
        let mut i: usize = 0;
        assert(drawing_views(drawings@) =~= drawings_of(self@, layout@, 0, area));
        while i < visible.len()
            invariant
                confetti::is_on_screen(area),
                layout@.bubbles.len() == self@.log.len(),
                layout@.viewport_height == area.height,
                forall|i: int|
                    0 <= i < layout@.bubbles.len() ==> (#[trigger] layout@.bubbles[i]).rect.x
                        <= area.width,
                visible@.len() == layout@.bubbles.len(),
                forall|i: int|
                    0 <= i < visible@.len() ==> #[trigger] visible@[i]
                        == bubble_layout::visible_part(
                        layout@.bubbles[i],
                        layout@.scroll_offset,
                        layout@.viewport_height,
                    ),
                i <= visible@.len(),
                drawing_views(drawings@) == drawings_of(self@, layout@, i as nat, area),
            decreases visible@.len() - i,
        {
            assert(visible@[i as int] == bubble_layout::visible_part(
                layout@.bubbles[i as int],
                layout@.scroll_offset,
                layout@.viewport_height,
            ));
            if let Some(part) = visible[i] {
                proof {
                    bubble_layout::visible_bubble_is_in_the_viewport(
                        layout@.bubbles[i as int],
                        layout@.scroll_offset,
                        layout@.viewport_height,
                    );
                }
                let ghost before = drawings@;
                let drawing = self.draw_message(i, part, area);
                drawings.push(drawing);
                assert(drawing_views(drawings@) =~= drawing_views(before).push(drawing@));
            }
            i = i + 1;
        }
        drawings
    }

    /// Renders the chat log as scrollable speech bubbles. Nothing is drawn in
    /// an area whose cells cannot be numbered, nor of a log with a message of
    /// more rows than can be counted.
    pub fn draw_chat_log(&mut self, area: Rect) -> (picture: Option<ChatPicture>)
        requires
            old(self).well_formed(),
        ensures
            final(self).confetti == old(self).confetti,
            final(self).well_formed(),
            match picture {
                Some(picture) => {
                    &&& confetti::is_on_screen(area)
                    &&& bubble_layout::all_countable(old(self)@.log, area.width as nat)
                    &&& exists|layout: LayoutView| #[trigger]
                        is_arranged(old(self)@, layout, area) && {
                            &&& drawing_views(picture.drawings@) == drawings_of(
                                old(self)@,
                                layout,
                                old(self)@.log.len(),
                                area,
                            )
                            &&& picture.total_height == layout.total_height
                            &&& picture.scroll_offset == layout.scroll_offset
                            &&& bubble_layout::is_anchor_of(layout, final(self)@.scroll_anchor)
                        }
                    &&& final(self)@ == (AppView {
                        scroll_anchor: final(self)@.scroll_anchor,
                        pending_scroll_delta: if old(self)@.autoscroll {
                            old(self)@.pending_scroll_delta
                        } else {
                            0
                        },
                        ..old(self)@
                    })
                },
                None => {
                    &&& !confetti::is_on_screen(area) || !bubble_layout::all_countable(
                        old(self)@.log,
                        area.width as nat,
                    )
                    &&& final(self)@ == old(self)@
                },
            },
    {
        if area.width > u16::MAX - area.x || area.height > u16::MAX - area.y || !rows_are_countable(
            &self.chat_log,
            area.width,
        ) {
            return None;
        }
        let layout = self.arrange(area);
        proof {
            lemma_drawing_depends_on_the_log(old(self)@, self@, layout@, old(self)@.log.len(), area);
        }
        let drawings = self.drawings(&layout, area);
        Some(
            ChatPicture {
                drawings,
                total_height: layout.total_height(),
                scroll_offset: layout.scroll_offset(),
            },
        )
    }
}

proof fn lemma_drawing_depends_on_the_log(
    left: AppView,
    right: AppView,
    layout: LayoutView,
    count: nat,
    area: Rect,
)
    requires
        left.log == right.log,
        left.focused_cluster == right.focused_cluster,
        left.focused_tool_call == right.focused_tool_call,
        left.spinner_phase == right.spinner_phase,
    ensures
        drawings_of(left, layout, count, area) == drawings_of(right, layout, count, area),
    decreases count,
{
    if count > 0 {
        lemma_drawing_depends_on_the_log(left, right, layout, (count - 1) as nat, area);
    }
}

/// A message that is in view is drawn, and in the order of the log; one that is
/// not is not. The drawing of a message stands behind those of the messages in
/// view above it.
pub proof fn every_message_in_view_is_drawn(
    app: AppView,
    layout: LayoutView,
    count: nat,
    area: Rect,
    index: int,
) -> (place: int)
    requires
        0 <= index < count,
    ensures
        0 <= place <= index,
        drawings_of(app, layout, count, area).len() <= count,
        place == drawings_of(app, layout, index as nat, area).len(),
        bubble_layout::visible_part(
            layout.bubbles[index],
            layout.scroll_offset,
            layout.viewport_height,
        ) matches Some(visible) ==> place < drawings_of(app, layout, count, area).len()
            && drawings_of(app, layout, count, area)[place] == drawing_of(app, index, visible, area),
        bubble_layout::visible_part(
            layout.bubbles[index],
            layout.scroll_offset,
            layout.viewport_height,
        ) is None ==> drawings_of(app, layout, (index + 1) as nat, area).len() == place,
    decreases count,
{
    let before = drawings_of(app, layout, index as nat, area);
    lemma_drawings_len(app, layout, index as nat, area);
    if index < count - 1 {
        let place = every_message_in_view_is_drawn(
            app,
            layout,
            (count - 1) as nat,
            area,
            index,
        );
        place
    } else {
        before.len() as int
    }
}

proof fn lemma_drawings_len(app: AppView, layout: LayoutView, count: nat, area: Rect)
    ensures
        drawings_of(app, layout, count, area).len() <= count,
    decreases count,
{
    if count > 0 {
        lemma_drawings_len(app, layout, (count - 1) as nat, area);
    }
}

/// A message is drawn where it is visible, moved to where the area is; speech and
/// notices are drawn with their own text, speech from the line on that shows
/// first and with the borders that show.
pub proof fn messages_are_drawn_in_place(
    app: AppView,
    index: int,
    visible: VisibleBubble,
    area: Rect,
)
    requires
        area.x + visible.screen_rect.x <= u16::MAX,
        area.y + visible.screen_rect.y <= u16::MAX,
    ensures
        ({
            let place = match drawing_of(app, index, visible, area) {
                DrawingView::Bubble { area, .. } => area,
                DrawingView::Cluster { area, .. } => area,
                DrawingView::Notice { area, .. } => area,
                DrawingView::Rule { area, .. } => area,
            };
            &&& place.x - area.x == visible.screen_rect.x
            &&& place.y - area.y == visible.screen_rect.y
            &&& place.width == visible.screen_rect.width
            &&& place.height == visible.screen_rect.height
        }),
        app.log[index] matches MessageView::User(said) ==> (drawing_of(
            app,
            index,
            visible,
            area,
        ) matches DrawingView::Bubble { title, color, text, borders, line_skip, .. } && text == said
            && borders == visible.borders && line_skip == visible.text_line_skip && color
            == style::accent_of_user() && search::contains(title, USER_NAME@)),
        app.log[index] matches MessageView::Agent(said) ==> (drawing_of(
            app,
            index,
            visible,
            area,
        ) matches DrawingView::Bubble { title, color, text, borders, line_skip, .. } && text == said
            && borders == visible.borders && line_skip == visible.text_line_skip && color
            == style::accent_of_agent() && search::contains(title, AGENT_NAME@)),
        app.log[index] matches MessageView::SessionNotice(kind, said) ==> (drawing_of(
            app,
            index,
            visible,
            area,
        ) matches DrawingView::Notice { text, color, .. } && text == said && (kind is Error
            <==> color is Red)),
        app.log[index] matches MessageView::ToolCluster(steps) ==> (drawing_of(
            app,
            index,
            visible,
            area,
        ) matches DrawingView::Cluster { line_skip, .. } && line_skip == visible.text_line_skip),
{
    reveal_strlit(" ");
    lemma_title_names(USER_ICON@, USER_NAME@);
    lemma_title_names(AGENT_ICON@, AGENT_NAME@);
}

proof fn lemma_title_names(icon: Seq<char>, name: Seq<char>)
    ensures
        search::contains(bubble_title(icon, name), name),
{
    reveal_strlit(" ");
    let title = bubble_title(icon, name);
    let at: int = icon.len() + 2int;
    assert(title.subrange(at, at + name.len()) =~= name);
    search::containing_is_standing_somewhere(title, name);
}

/// A rule spans its row: its title stands in the middle of it, with as many
/// strokes before it as behind it, or one less; and it names the workflow.
pub proof fn rules_span_their_row(
    app: AppView,
    index: int,
    visible: VisibleBubble,
    area: Rect,
    workflow: Seq<char>,
)
    requires
        app.log[index] == MessageView::SessionTransition(workflow),
    ensures
        drawing_of(app, index, visible, area) matches DrawingView::Rule { left, title, right, .. }
            && {
            &&& search::contains(title, workflow)
            &&& title.len() <= visible.screen_rect.width ==> left.len() + title.len() + right.len()
                == visible.screen_rect.width
            &&& title.len() > visible.screen_rect.width ==> left.len() == 0 && right.len() == 0
            &&& left.len() <= right.len() <= left.len() + 1
            &&& forall|i: int| 0 <= i < left.len() ==> #[trigger] left[i] == '\u{2500}'
            &&& forall|i: int| 0 <= i < right.len() ==> #[trigger] right[i] == '\u{2500}'
        },
{
    reveal_strlit(" \u{2699} ");
    let title = transition_title(workflow);
    assert(title.subrange(3, 3int + workflow.len()) =~= workflow);
    search::containing_is_standing_somewhere(title, workflow);
}

/// A view that follows new messages shows the last row of the log; one that does
/// not stays at the row where it was, but for the keys pressed since and the
/// cluster in focus.
pub proof fn following_views_show_the_end(app: AppView, layout: LayoutView, height: u16)
    ensures
        app.autoscroll ==> arranged(app, layout, height).scroll_offset + layout.viewport_height
            >= layout.total_height,
        !app.autoscroll && app.pending_scroll_delta == 0 && app.focused_cluster is None ==> (
        app.scroll_anchor matches Some(anchor) ==> arranged(app, layout, height).scroll_offset
            == bubble_layout::anchored_offset(layout, anchor) as u16),
        !app.autoscroll && app.pending_scroll_delta == 0 && app.focused_cluster is None
            && app.scroll_anchor is None ==> arranged(app, layout, height) == layout,
        !app.autoscroll && app.focused_cluster is None && app.scroll_anchor is None && 0
            <= layout.scroll_offset + app.pending_scroll_delta <= stack::max_offset(
            layout.total_height as nat,
            layout.viewport_height as nat,
        ) ==> arranged(app, layout, height).scroll_offset == layout.scroll_offset
            + app.pending_scroll_delta,
        arranged(app, layout, height).bubbles == layout.bubbles,
        arranged(app, layout, height).total_height == layout.total_height,
        arranged(app, layout, height).viewport_height == layout.viewport_height,
{
    let back = anchored(app, layout);
    bubble_layout::following_never_scrolls_up(back);
}

/// A cluster shows as selected the step that the selected tool call stands at, and
/// none where the call stands in another cluster.
pub proof fn the_selected_call_is_marked(app: AppView, index: int, call: (nat, nat))
    requires
        app.focused_tool_call == Some(call),
        chat_log::cluster_at(app.log, index) is Some,
        call.1 <= usize::MAX,
    ensures
        call.0 == index ==> (selected_step(app, index) matches Some(step) && step == call.1),
        call.0 != index ==> selected_step(app, index) is None,
{
}

/// Bubbles are titled with the name of who speaks, and a transition with the
/// workflow that is entered.
pub proof fn titles_name_who_speaks(icon: Seq<char>, name: Seq<char>)
    ensures
        search::contains(bubble_title(icon, name), icon + seq![' '] + name),
        bubble_title(icon, name).len() == icon.len() + name.len() + 3,
        search::contains(transition_title(name), name + " (main paused)"@),
{
    reveal_strlit(" ");
    reveal_strlit(" \u{2699} ");
    reveal_strlit(" (main paused)");
    reveal_strlit(" (main paused) ");
    let title = bubble_title(icon, name);
    let named = icon + seq![' '] + name;
    assert(title.subrange(1, 1int + named.len()) =~= named);
    search::containing_is_standing_somewhere(title, named);
    let rule = transition_title(name);
    let paused = name + " (main paused)"@;
    assert(rule.subrange(3, 3int + paused.len()) =~= paused);
    search::containing_is_standing_somewhere(rule, paused);
}

/// A view of a log is arranged from its one layout.
pub proof fn a_view_has_one_arrangement(
    app: AppView,
    first: LayoutView,
    second: LayoutView,
    area: Rect,
)
    requires
        is_arranged(app, first, area),
        is_arranged(app, second, area),
    ensures
        first == second,
        first.bubbles.len() == app.log.len(),
{
    let one = choose|fresh: LayoutView| #[trigger]
        bubble_layout::is_layout_of(fresh, app.log, area.width, area.height) && first == arranged(
            app,
            fresh,
            area.height,
        );
    let other = choose|fresh: LayoutView| #[trigger]
        bubble_layout::is_layout_of(fresh, app.log, area.width, area.height) && second == arranged(
            app,
            fresh,
            area.height,
        );
    bubble_layout::a_log_has_one_layout(one, other, app.log, area.width, area.height);
    following_views_show_the_end(app, one, area.height);
}

/// A distance is kept within what can be counted.
pub proof fn distances_are_kept_within_bounds(rows: int)
    ensures
        -32768 <= clamped(rows) <= 32767,
        -32768 <= rows <= 32767 ==> clamped(rows) == rows,
        rows > 32767 ==> clamped(rows) == 32767,
        rows < -32768 ==> clamped(rows) == -32768,
{
}

/// A bubble that is in view needs no scrolling; one that starts above is scrolled
/// to until its top is the first row, and one that ends below until its bottom is
/// the last.
pub proof fn bubbles_are_scrolled_into_view(bubble: Bubble, offset: u16, height: u16)
    ensures
        !rows_are_needed(bubble, offset, height) ==> rows_to(bubble, offset, height) == 0,
        bubble.rect.y < offset ==> offset + rows_to(bubble, offset, height) == bubble.rect.y,
        bubble.rect.y >= offset && rows_are_needed(bubble, offset, height) && offset + height
            <= u16::MAX ==> offset + rows_to(bubble, offset, height) + height
            == bubble_layout::bubble_bottom(bubble),
{
}

/// A cluster shows its latest steps where it is the newest message, and only
/// there; a notice has the color of what it is about.
pub proof fn the_newest_cluster_is_live(
    app: AppView,
    index: int,
    visible: VisibleBubble,
    area: Rect,
)
    requires
        0 <= index < app.log.len(),
    ensures
        app.log[index] matches MessageView::ToolCluster(steps) ==> (drawing_of(
            app,
            index,
            visible,
            area,
        ) matches DrawingView::Cluster { lines, line_skip, .. } && line_skip
            == visible.text_line_skip && lines == cluster::cluster_lines(
            steps,
            app.focused_cluster == Some(index as nat),
            index == app.log.len() - 1,
            selected_step(app, index),
            app.spinner_phase as nat,
            visible.screen_rect.width as nat,
        )),
        app.log[index] matches MessageView::SessionNotice(kind, text) ==> (drawing_of(
            app,
            index,
            visible,
            area,
        ) matches DrawingView::Notice { text: told, color, .. } && told == text && (kind is Error
            ==> color == Color::Red) && (kind is Stopped ==> color == Color::Yellow)),
{
}

} // verus!
