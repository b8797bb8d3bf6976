//! The layout of one frame: a tab bar across the top of the display and,
//! below it, the content of the selected view, given as the sequence of
//! drawing operations that a drawing surface carries out.

use crate::nav::App;
use crate::region::{cut, lemma_pieces_tile, pieces, split, Axis, Extent, Region};
use vstd::prelude::*;

verus! {

/// Cells left free on each side of the display.
pub const MARGIN: u16 = 5;

/// Rows taken by the tab bar.
pub const HEADER_HEIGHT: u16 = 3;

/// The share of a parent that each of three equal strips asks for.
pub const THIRD: u16 = 33;

/// Text of the left column of the split view: line breaks, wide characters,
/// and a line too long for its column.
pub const OVERFLOW_TEXT: &'static str = "このように日本語も表示される\n改行を入れれば改行される\nwrapすれば改行をせずに一文で表示できる\n長すぎると見切れるるううううううううううううううううううううううううううううううううううううううううううううううううう";

/// Text of each cell of the middle column of the split view.
pub const SENTENCES_TEXT: &'static str = "This is a sentence.\ntomorrow and tomorrow and tomorrow\nThis is a pen.";

/// Text of the right column of the split view.
pub const GREETING_TEXT: &'static str = "This is a right block's text.\n Do you see me?\nToday is the day";

/// Title of the bordered panel that the input views show.
pub const PANEL_TITLE: &'static str = "Inner 1";

/// Horizontal placement of text within its box.
#[derive(Clone, Copy, Debug, PartialEq, Eq, Structural)]
pub enum Align {
    Left,
    Center,
    Right,
}

/// The fixed texts that the views show.
#[derive(Clone, Copy, Debug, PartialEq, Eq, Structural)]
pub enum Passage {
    Overflow,
    Sentences,
    Greeting,
}

impl Passage {
    /// The words of the passage.
    pub fn text(self) -> (r: &'static str)
        ensures
            self == Passage::Overflow ==> r == OVERFLOW_TEXT,
            self == Passage::Sentences ==> r == SENTENCES_TEXT,
            self == Passage::Greeting ==> r == GREETING_TEXT,
    {
        match self {
            Passage::Overflow => OVERFLOW_TEXT,
            Passage::Sentences => SENTENCES_TEXT,
            Passage::Greeting => GREETING_TEXT,
        }
    }
}

/// One operation on the drawing surface.
#[derive(Clone, Copy, Debug, PartialEq, Eq, Structural)]
pub enum DrawCall {
    /// The tab bar, one label per view, with the `selected` one highlighted
    /// and its index shown in the border.
    Tabs { area: Region, selected: usize },
    /// A bordered box holding a passage of text.
    Text { area: Region, passage: Passage, align: Align },
    /// A bordered box titled with the panel title.
    Panel { area: Region },
}

impl DrawCall {
    /// The region that the operation draws into.
    pub open spec fn region(self) -> Region {
        match self {
            DrawCall::Tabs { area, .. } => area,
            DrawCall::Text { area, .. } => area,
            DrawCall::Panel { area } => area,
        }
    }
}

/// The views that the tab bar selects among, in the order of their tabs.
#[derive(Clone, Copy, Debug, PartialEq, Eq, Structural)]
pub enum Screen {
    /// Three columns of text, the middle one cut into three rows.
    SplitWindows,
    /// A single titled panel.
    Inputs,
    /// A single titled panel, laid out as `Inputs` is.
    MultiInputs,
}

/// The view shown at tab index `i`, if there is one.
pub open spec fn view_at(i: int) -> Option<Screen> {
    if i == 0 {
        Some(Screen::SplitWindows)
    } else if i == 1 {
        Some(Screen::Inputs)
    } else if i == 2 {
        Some(Screen::MultiInputs)
    } else {
        None
    }
}

impl Screen {
    /// The view shown at tab index `i`, if there is one.
    pub fn from_index(i: usize) -> (r: Option<Screen>)
        ensures
            r == view_at(i as int),
    {
        match i {
            0 => Some(Screen::SplitWindows),
            1 => Some(Screen::Inputs),
            2 => Some(Screen::MultiInputs),
            _ => None,
        }
    }
}

/// The extents of the frame: the tab bar, then all the rest.
pub open spec fn frame_extents() -> Seq<Extent> {
    seq![Extent::Length(HEADER_HEIGHT), Extent::Rest]
}

/// The extents of three equal strips.
pub open spec fn third_extents() -> Seq<Extent> {
    seq![Extent::Percentage(THIRD), Extent::Percentage(THIRD), Extent::Percentage(THIRD)]
}

/// The display inside its margin.
pub open spec fn inside(area: Region) -> Region {
    area.shrunk(MARGIN)
}

/// The part of the display that the frame is laid out in: the display inside
/// its margin, or, where that has no room for the whole tab bar, an empty
/// strip at its top edge, so that nothing at all is drawn.
pub open spec fn frame_area(area: Region) -> Region {
    let inner = inside(area);
    if inner.height < HEADER_HEIGHT {
        Region { height: 0, ..inner }
    } else {
        inner
    }
}

/// The region of the tab bar.
pub open spec fn header_of(area: Region) -> Region {
    pieces(frame_area(area), Axis::Vertical, frame_extents())[0]
}

/// The region below the tab bar, where the selected view is drawn.
pub open spec fn content_of(area: Region) -> Region {
    pieces(frame_area(area), Axis::Vertical, frame_extents())[1]
}

/// The three columns of the split view.
pub open spec fn columns_of(content: Region) -> Seq<Region> {
    pieces(content, Axis::Horizontal, third_extents())
}

/// The three rows of the middle column of the split view.
pub open spec fn rows_of(column: Region) -> Seq<Region> {
    pieces(column, Axis::Vertical, third_extents())
}

/// What the split view draws into `content`.
pub open spec fn split_windows_calls(content: Region) -> Seq<DrawCall> {
    let cols = columns_of(content);
    let rows = rows_of(cols[1]);
    seq![
        DrawCall::Text { area: cols[0], passage: Passage::Overflow, align: Align::Left },
        DrawCall::Text { area: rows[0], passage: Passage::Sentences, align: Align::Center },
        DrawCall::Text { area: rows[1], passage: Passage::Sentences, align: Align::Center },
        DrawCall::Text { area: rows[2], passage: Passage::Sentences, align: Align::Center },
        DrawCall::Text { area: cols[2], passage: Passage::Greeting, align: Align::Right },
    ]
}

/// What the input views draw into `content`.
pub open spec fn panel_calls(content: Region) -> Seq<DrawCall> {
    seq![DrawCall::Panel { area: content }]
}

/// What `view` draws into `content`; nothing where no view is selected.
pub open spec fn view_calls(view: Option<Screen>, content: Region) -> Seq<DrawCall> {
    match view {
        Some(Screen::SplitWindows) => split_windows_calls(content),
        Some(Screen::Inputs) => panel_calls(content),
        Some(Screen::MultiInputs) => panel_calls(content),
        None => Seq::empty(),
    }
}

/// The whole frame for a display of `area` with tab `selected` chosen: the
/// tab bar, then the selected view's content.
pub open spec fn frame_calls(area: Region, selected: usize) -> Seq<DrawCall> {
    seq![DrawCall::Tabs { area: header_of(area), selected }] + view_calls(
        view_at(selected as int),
        content_of(area),
    )
}

fn thirds() -> (r: [Extent; 3])
    ensures
        r@ == third_extents(),
{
    let r = [Extent::Percentage(THIRD), Extent::Percentage(THIRD), Extent::Percentage(THIRD)];
    assert(r@ =~= third_extents());
    r
}

/// The split view: three columns, left-aligned text on the left, three rows
/// of centred text in the middle, right-aligned text on the right.
fn split_windows(content: Region) -> (r: Vec<DrawCall>)
    requires
        content.wf(),
    ensures
        r@ == split_windows_calls(content),
{
    let ts = thirds();
    let cols = split(content, Axis::Horizontal, &ts);
    proof {
        lemma_pieces_tile(content, Axis::Horizontal, third_extents());
    }
    let rows = split(cols[1], Axis::Vertical, &ts);
    let mut r: Vec<DrawCall> = Vec::new();
    r.push(DrawCall::Text { area: cols[0], passage: Passage::Overflow, align: Align::Left });
    r.push(DrawCall::Text { area: rows[0], passage: Passage::Sentences, align: Align::Center });
    r.push(DrawCall::Text { area: rows[1], passage: Passage::Sentences, align: Align::Center });
    r.push(DrawCall::Text { area: rows[2], passage: Passage::Sentences, align: Align::Center });
    r.push(DrawCall::Text { area: cols[2], passage: Passage::Greeting, align: Align::Right });
    assert(r@ =~= split_windows_calls(content));
    r
}

/// The layout policy of each view.
fn view_content(view: Option<Screen>, content: Region) -> (r: Vec<DrawCall>)
    requires
        content.wf(),
    ensures
        r@ == view_calls(view, content),
{
    match view {
        Some(Screen::SplitWindows) => split_windows(content),
        Some(Screen::Inputs) | Some(Screen::MultiInputs) => {
            let r = vec![DrawCall::Panel { area: content }];
            assert(r@ =~= panel_calls(content));
            r
        },
        None => {
            let r: Vec<DrawCall> = Vec::new();
            assert(r@ =~= Seq::<DrawCall>::empty());
            r
        },
    }
}

/// The drawing operations of one frame for a display of `area`: the tab bar
/// inside the margin at the top, then the selected view below it. Where the
/// margin leaves less height than the tab bar needs, every region is empty.
pub fn compose(area: Region, app: &App) -> (r: Vec<DrawCall>)
    requires
        area.wf(),
    ensures
        r@ == frame_calls(area, app.index),
{
    let inside = area.inner(MARGIN);
    let inner = if inside.height < HEADER_HEIGHT {
        Region { height: 0, ..inside }
    } else {
        inside
    };
    let frame = [Extent::Length(HEADER_HEIGHT), Extent::Rest];
    assert(frame@ =~= frame_extents());
    let chunks = split(inner, Axis::Vertical, &frame);
    proof {
        lemma_pieces_tile(inner, Axis::Vertical, frame_extents());
    }
    let mut r: Vec<DrawCall> = Vec::new();
    r.push(DrawCall::Tabs { area: chunks[0], selected: app.index });
    let mut body = view_content(Screen::from_index(app.index), chunks[1]);
    r.append(&mut body);
    assert(r@ =~= frame_calls(area, app.index));
    r
}

/// On a display too small for its margins and the tab bar, shorter than the
/// tab bar's rows plus the margin above and below, or no wider than the two
/// side margins, every drawing operation of the frame falls on a region
/// without area, whatever tab is selected.
pub proof fn lemma_small_display_draws_nothing(area: Region, selected: usize)
    requires
        area.wf(),
        area.height < 2 * MARGIN + HEADER_HEIGHT || area.width <= 2 * MARGIN,
    ensures
        forall|i: int|
            0 <= i < frame_calls(area, selected).len() ==> !(#[trigger] frame_calls(
                area,
                selected,
            )[i]).region().has_area(),
{
    let framed = frame_area(area);
    assert(framed.width == 0 || framed.height == 0);
    lemma_pieces_tile(framed, Axis::Vertical, frame_extents());
    let content = content_of(area);
    lemma_pieces_tile(content, Axis::Horizontal, third_extents());
    let cols = columns_of(content);
    lemma_pieces_tile(cols[1], Axis::Vertical, third_extents());
    let calls = frame_calls(area, selected);
    assert forall|i: int| 0 <= i < calls.len() implies !(#[trigger] calls[i]).region().has_area() by {
        let r = calls[i].region();
        assert(r.width == 0 || r.height == 0);
    }
}

/// The three columns of the split view tile the content region: together
/// they are exactly as wide as it, the first starts at its left edge, each
/// starts where the one before ends, and the last, which takes what rounding
/// leaves over, ends at its right edge. The left and right columns are where
/// the split view draws its outer texts, and the middle one is cut into three
/// rows in the same way.
pub proof fn lemma_columns_fill_content(area: Region)
    requires
        area.wf(),
    ensures
        ({
            let content = content_of(area);
            let cols = columns_of(content);
            let rows = rows_of(cols[1]);
            let calls = frame_calls(area, 0);
            &&& cols[0].width + cols[1].width + cols[2].width == content.width
            &&& cols[0].width == content.width * THIRD / 100
            &&& cols[1].width == content.width * THIRD / 100
            &&& cols[2].width == content.width - 2 * (content.width * THIRD / 100)
            &&& cols[0].x == content.x
            &&& cols[0].x + cols[0].width == cols[1].x
            &&& cols[1].x + cols[1].width == cols[2].x
            &&& cols[2].x + cols[2].width == content.x + content.width
            &&& forall|i: int| 0 <= i < 3 ==> (#[trigger] cols[i]).y == content.y && cols[i].height
                == content.height
            &&& rows[0].height + rows[1].height + rows[2].height == cols[1].height
            &&& calls[1].region() == cols[0]
            &&& calls[2].region() == rows[0]
            &&& calls[3].region() == rows[1]
            &&& calls[4].region() == rows[2]
            &&& calls[5].region() == cols[2]
        }),
{
    lemma_pieces_tile(frame_area(area), Axis::Vertical, frame_extents());
    let content = content_of(area);
    lemma_pieces_tile(content, Axis::Horizontal, third_extents());
    let w = content.width as int;
    assert(2 * (w * 33 / 100) <= w) by (nonlinear_arith)
        requires
            0 <= w,
    ;
    assert(cut(w, third_extents(), 1) == w * 33 / 100);
    assert(cut(w, third_extents(), 2) == 2 * (w * 33 / 100));
    let cols = columns_of(content);
    lemma_pieces_tile(cols[1], Axis::Vertical, third_extents());
    assert(cols[0].x + cols[0].width == cols[1].x);
    assert(cols[1].x + cols[1].width == cols[2].x);
    let rows = rows_of(cols[1]);
    assert(rows[0].y + rows[0].height == rows[1].y);
    assert(rows[1].y + rows[1].height == rows[2].y);
}

/// The two input views draw the same content: with either of them selected
/// on the same display, the frames differ only in which tab the tab bar
/// highlights.
pub proof fn lemma_input_views_share_layout(area: Region)
    requires
        area.wf(),
    ensures
        frame_calls(area, 1).drop_first() == frame_calls(area, 2).drop_first(),
        frame_calls(area, 1)[0] == (DrawCall::Tabs { area: header_of(area), selected: 1 }),
        frame_calls(area, 2)[0] == (DrawCall::Tabs { area: header_of(area), selected: 2 }),
{
    assert(frame_calls(area, 1).drop_first() =~= frame_calls(area, 2).drop_first());
}

} // verus!
