//! Screen geometry and the display list that the apps hand to the renderer.

use vstd::prelude::*;

verus! {

#[derive(Debug, Clone, Copy, PartialEq, Eq, Structural)]
pub struct Region {
    pub x: u16,
    pub y: u16,
    pub w: u16,
    pub h: u16,
}

impl Region {
    pub fn new(x: u16, y: u16, w: u16, h: u16) -> (r: Region)
        ensures
            r == (Region { x, y, w, h }),
    {
        Region { x, y, w, h }
    }
}

/// The screen: its size, the row below the status bar, and the height of the
/// button bar.
#[derive(Debug, Clone, Copy, PartialEq, Eq, Structural)]
pub struct Screen {
    pub w: u16,
    pub h: u16,
    pub content_top: u16,
    pub button_bar_h: u16,
}

impl Screen {
    pub open spec fn wf(self) -> bool {
        self.content_top <= self.h
    }

    /// All of the screen below the status bar.
    pub open spec fn spec_content(self) -> Region {
        Region {
            x: 0,
            y: self.content_top,
            w: self.w,
            h: (self.h - self.content_top) as u16,
        }
    }

    pub fn content(&self) -> (r: Region)
        requires
            self.wf(),
        ensures
            r == self.spec_content(),
    {
        Region::new(0, self.content_top, self.w, self.h - self.content_top)
    }
}

/// Line heights of the fonts of the user interface, in one size.
#[derive(Debug, Clone, Copy, PartialEq, Eq, Structural)]
pub struct UiFonts {
    pub heading: u16,
    pub body: u16,
}

#[derive(Debug, Clone, Copy, PartialEq, Eq, Structural)]
pub enum UiFont {
    Heading,
    Body,
}

#[derive(Debug, Clone, Copy, PartialEq, Eq, Structural)]
pub enum Alignment {
    CenterLeft,
    Center,
    CenterRight,
}

/// The words of a label.
pub enum Words {
    Text(Vec<u8>),
    /// The name of a font size.
    SizeName(u8),
}

/// The words of a label, as a value.
pub enum WordsView {
    Text(Seq<u8>),
    SizeName(u8),
}

impl View for Words {
    type V = WordsView;

    open spec fn view(&self) -> WordsView {
        match *self {
            Words::Text(t) => WordsView::Text(t@),
            Words::SizeName(i) => WordsView::SizeName(i),
        }
    }
}

/// One thing to draw.
pub enum Draw {
    Label { region: Region, words: Words, font: UiFont, align: Alignment, inverted: bool },
    /// Paint the region in the background colour.
    Clear(Region),
}

/// One thing to draw, as a value.
pub enum DrawView {
    Label { region: Region, words: WordsView, font: UiFont, align: Alignment, inverted: bool },
    Clear(Region),
}

impl View for Draw {
    type V = DrawView;

    open spec fn view(&self) -> DrawView {
        match *self {
            Draw::Label { region, words, font, align, inverted } => DrawView::Label {
                region,
                words: words@,
                font,
                align,
                inverted,
            },
            Draw::Clear(r) => DrawView::Clear(r),
        }
    }
}

/// What a display list shows.
pub open spec fn shown(ops: Seq<Draw>) -> Seq<DrawView> {
    ops.map_values(|d: Draw| d@)
}

/// Appends one thing to a display list.
pub(crate) fn put(ops: &mut Vec<Draw>, d: Draw)
    ensures
        shown(final(ops)@) == shown(old(ops)@).push(d@),
{
    let ghost before = ops@;
    ops.push(d);
    proof {
        assert(shown(ops@) =~= shown(before).push(d@));
    }
}

/// The place after `cur` in a ring of `n`.
pub open spec fn after(cur: int, n: int) -> int {
    if cur + 1 < n {
        cur + 1
    } else {
        0
    }
}

/// The place before `cur` in a ring of `n`.
pub open spec fn before(cur: int, n: int) -> int {
    if cur == 0 {
        n - 1
    } else {
        cur - 1
    }
}

pub fn wrap_next(cur: usize, n: usize) -> (r: usize)
    requires
        cur < n,
    ensures
        r == after(cur as int, n as int),
{
    if cur + 1 < n {
        cur + 1
    } else {
        0
    }
}

pub fn wrap_prev(cur: usize, n: usize) -> (r: usize)
    requires
        cur < n,
    ensures
        r == before(cur as int, n as int),
{
    if cur == 0 {
        n - 1
    } else {
        cur - 1
    }
}

/// One step forth and one step back in a ring undo each other.
pub proof fn law_ring_steps_undo(cur: int, n: int)
    requires
        0 <= cur < n,
    ensures
        before(after(cur, n), n) == cur,
        after(before(cur, n), n) == cur,
        0 <= after(cur, n) < n,
        0 <= before(cur, n) < n,
{
}

} // verus!
