//! The reader as the system sees it: books are opened and closed, pages and
//! chapters turned, and the table of contents shown.

use vstd::prelude::*;
use vstd::utf8;

use crate::apps::reader::cache;
use crate::apps::reader::cache::{BgCacheState, CacheView, ChapterCache};
use crate::apps::reader::images::{image_of, Image, ImageView};
use crate::apps::reader::pages::{Face, Pager, PagerView, MAX_PAGES, PAGE_BUF};
use crate::apps::reader::work::Task;
use crate::apps::reader::wrap::{LineSpan, Markup};
use crate::board::action::{Action, ActionEvent};
use crate::bytes::{push_bytes, utf8_or, utf8_text};
use crate::fonts::{set_of, take_set, FontSet};
use crate::kernel::app::{AppContext, ContextView, PendingSetting, Transition};
use crate::kernel::bookmarks;
use crate::kernel::bookmarks::BookmarkCache;
use crate::ui::{Region, Screen};

verus! {

pub const MARGIN: u16 = 8;

pub const HEADER_H: u16 = 16;

pub const PROGRESS_H: u16 = 2;

pub const POSITION_OVERLAY_W: u16 = 280;

pub const POSITION_OVERLAY_H: u16 = 40;

pub const QA_FONT_SIZE: u8 = 1;

pub const QA_PREV_CHAPTER: u8 = 3;

pub const QA_NEXT_CHAPTER: u8 = 4;

pub const QA_TOC: u8 = 5;

/// A contents entry that leads nowhere.
pub const NO_CHAPTER: u16 = 65535;

pub const NAME_CAP: usize = 32;

pub const TITLE_CAP: usize = 96;

/// How far the opening of a book, or of a page, has come.
#[derive(Debug, Clone, Copy, PartialEq, Eq, Structural)]
pub enum State {
    NeedBookmark,
    NeedInit,
    NeedOpf,
    NeedToc,
    NeedCache,
    NeedIndex,
    NeedPage,
    Ready,
    ShowToc,
    Error,
}

/// An entry of the table of contents.
pub struct TocEntry {
    pub spine_idx: u16,
    pub title: Vec<u8>,
}

/// An entry of the table of contents, as a value.
pub struct TocView {
    pub spine_idx: u16,
    pub title: Seq<u8>,
}

impl View for TocEntry {
    type V = TocView;

    open spec fn view(&self) -> TocView {
        TocView { spine_idx: self.spine_idx, title: self.title@ }
    }
}

pub open spec fn toc_view(t: Seq<TocEntry>) -> Seq<TocView> {
    t.map_values(|e: TocEntry| e@)
}

/// Every entry leads nowhere, or to a chapter that a cache of `room` chapters
/// has a place for.
pub open spec fn toc_within(toc: Seq<TocView>, room: int) -> bool {
    forall|i: int|
        0 <= i < toc.len() ==> (#[trigger] toc[i]).spine_idx == NO_CHAPTER || toc[i].spine_idx
            < room
}

/// An entry of the quick menu.
#[derive(Clone, Copy)]
pub enum QuickAction {
    /// Steps through the font sizes.
    Cycle { id: u8, label: &'static str, value: u8 },
    Trigger { id: u8, label: &'static str, text: &'static str },
}

impl Screen {
    /// The screen has room for the reader's fixed parts.
    pub open spec fn fits_reader(self) -> bool {
        &&& self.w >= POSITION_OVERLAY_W
        &&& self.h >= POSITION_OVERLAY_H
        &&& self.content_top + 20 + self.button_bar_h <= self.h
    }

    /// The first row of text.
    pub open spec fn text_y(self) -> int {
        self.content_top + 20
    }

    pub open spec fn text_w(self) -> int {
        self.w - 2 * MARGIN
    }

    pub open spec fn text_area(self) -> u16 {
        (self.h - self.text_y() - self.button_bar_h) as u16
    }

    pub fn text_area_h(&self) -> (r: u16)
        requires
            self.fits_reader(),
        ensures
            r == self.text_area(),
    {
        self.h - (self.content_top + 20) - self.button_bar_h
    }

    /// Header and page.
    pub open spec fn page_area(self) -> Region {
        Region {
            x: 0,
            y: (self.content_top + 2) as u16,
            w: self.w,
            h: (self.h - self.content_top - 2) as u16,
        }
    }

    pub fn page_region(&self) -> (r: Region)
        requires
            self.fits_reader(),
        ensures
            r == self.page_area(),
    {
        Region::new(0, self.content_top + 2, self.w, self.h - self.content_top - 2)
    }

    /// The panel that shows the position, in the middle of the screen.
    pub open spec fn overlay_area(self) -> Region {
        Region {
            x: ((self.w - POSITION_OVERLAY_W) / 2) as u16,
            y: ((self.h - POSITION_OVERLAY_H) / 2) as u16,
            w: POSITION_OVERLAY_W,
            h: POSITION_OVERLAY_H,
        }
    }

    pub fn overlay_region(&self) -> (r: Region)
        requires
            self.fits_reader(),
        ensures
            r == self.overlay_area(),
    {
        Region::new(
            (self.w - POSITION_OVERLAY_W) / 2,
            (self.h - POSITION_OVERLAY_H) / 2,
            POSITION_OVERLAY_W,
            POSITION_OVERLAY_H,
        )
    }
}

pub struct ReaderApp {
    pub filename: Vec<u8>,
    /// The hash by which the bookmark of the book is found.
    pub name_key: u32,
    pub title: Vec<u8>,
    pub pager: Pager,
    pub state: State,
    pub error: Option<&'static str>,
    pub show_position: bool,
    pub is_epub: bool,
    /// The unpacked size of each chapter's document.
    pub spine: Vec<u32>,
    pub chapter: u16,
    pub goto_last_page: bool,
    /// The position to go back to once pages can be shown.
    pub restore_offset: Option<u32>,
    pub cache: ChapterCache,
    pub work_gen: u16,
    pub page_img: Option<Image>,
    pub fullscreen_img: bool,
    pub toc: Vec<TocEntry>,
    /// The book has a table of contents that is not read yet.
    pub toc_pending: bool,
    pub toc_selected: usize,
    pub toc_scroll: usize,
    pub book_font_size_idx: u8,
    pub applied_font_idx: u8,
    pub has_chrome_font: bool,
    pub quick: Vec<QuickAction>,
    pub screen: Screen,
    /// The page has to be drawn again.
    pub dirty: bool,
    /// The work that waits for an answer.
    pub task: Task,
    /// Bytes that go with a question, or were gathered from answers.
    pub scratch: Vec<u8>,
    /// An image on its way to the cache.
    pub pending_img: Option<Image>,
}

/// The value of a reader.
pub struct ReaderView {
    pub filename: Seq<u8>,
    pub name_key: u32,
    pub title: Seq<u8>,
    pub pager: PagerView,
    pub state: State,
    pub error: Option<&'static str>,
    pub show_position: bool,
    pub is_epub: bool,
    pub spine: Seq<u32>,
    pub chapter: u16,
    pub goto_last_page: bool,
    pub restore_offset: Option<u32>,
    pub cache: CacheView,
    pub work_gen: u16,
    pub page_img: Option<ImageView>,
    pub fullscreen_img: bool,
    pub toc: Seq<TocView>,
    pub toc_pending: bool,
    pub toc_selected: usize,
    pub toc_scroll: usize,
    pub book_font_size_idx: u8,
    pub applied_font_idx: u8,
    pub has_chrome_font: bool,
    pub quick: Seq<QuickAction>,
    pub screen: Screen,
    pub dirty: bool,
    pub task: Task,
    pub scratch: Seq<u8>,
    pub pending_img: Option<ImageView>,
}

impl View for ReaderApp {
    type V = ReaderView;

    closed spec fn view(&self) -> ReaderView {
        ReaderView {
            filename: self.filename@,
            name_key: self.name_key,
            title: self.title@,
            pager: self.pager@,
            state: self.state,
            error: self.error,
            show_position: self.show_position,
            is_epub: self.is_epub,
            spine: self.spine@,
            chapter: self.chapter,
            goto_last_page: self.goto_last_page,
            restore_offset: self.restore_offset,
            cache: self.cache@,
            work_gen: self.work_gen,
            page_img: image_of(self.page_img),
            fullscreen_img: self.fullscreen_img,
            toc: toc_view(self.toc@),
            toc_pending: self.toc_pending,
            toc_selected: self.toc_selected,
            toc_scroll: self.toc_scroll,
            book_font_size_idx: self.book_font_size_idx,
            applied_font_idx: self.applied_font_idx,
            has_chrome_font: self.has_chrome_font,
            quick: self.quick@,
            screen: self.screen,
            dirty: self.dirty,
            task: self.task,
            scratch: self.scratch@,
            pending_img: image_of(self.pending_img),
        }
    }
}

/// A percentage, at most 100.
pub open spec fn percent(pos: int, size: int) -> int {
    if pos * 100 / size < 100 {
        pos * 100 / size
    } else {
        100
    }
}

impl ReaderView {
    /// Every chapter that can be asked for has its place in the cache, and
    /// the open table of contents shows an entry that it has.
    pub closed spec fn wf(self) -> bool {
        &&& self.sound()
        &&& self.state == State::ShowToc ==> {
            &&& self.is_epub
            &&& self.toc_selected < self.toc.len()
            &&& self.toc_scroll <= self.toc.len() <= usize::MAX
        }
    }

    /// What holds even of a reader whose book was closed.
    pub closed spec fn sound(self) -> bool {
        &&& self.pager.wf()
        &&& self.cache.wf()
        &&& self.screen.fits_reader()
        &&& self.filename.len() <= NAME_CAP
        &&& self.title.len() <= TITLE_CAP
        &&& self.spine.len() <= self.cache.room()
        &&& self.is_epub ==> self.chapter < self.cache.room()
        &&& toc_within(self.toc, self.cache.room())
    }

    /// How much of the book lies behind the page on screen, in percent.
    pub open spec fn progress(self) -> int {
        let p = self.pager;
        let at_end = p.fully_indexed && p.page + 1 >= p.total_pages;
        if self.is_epub && self.spine.len() > 0 {
            if self.chapter + 1 >= self.spine.len() && at_end {
                100
            } else {
                let part = if p.file_size == 0 {
                    0
                } else {
                    percent(p.offset() as int, p.file_size as int)
                };
                let all = (self.chapter * 100 + part) / (self.spine.len() as int);
                if all < 100 {
                    all
                } else {
                    100
                }
            }
        } else if p.file_size == 0 || at_end {
            100
        } else {
            percent(p.offset() as int, p.file_size as int)
        }
    }

    /// The menu entries: the font size, the chapters of a book with several,
    /// and the table of contents of a book that has one.
    pub open spec fn actions(self) -> Seq<QuickAction> {
        let size = seq![
            QuickAction::Cycle {
                id: QA_FONT_SIZE,
                label: "Book Font",
                value: self.book_font_size_idx,
            },
        ];
        let chapters = if self.is_epub && self.spine.len() > 1 {
            seq![
                QuickAction::Trigger { id: QA_PREV_CHAPTER, label: "Prev Ch", text: "<<<" },
                QuickAction::Trigger { id: QA_NEXT_CHAPTER, label: "Next Ch", text: ">>>" },
            ]
        } else {
            Seq::empty()
        };
        let contents = if self.is_epub && self.toc.len() > 0 {
            seq![QuickAction::Trigger { id: QA_TOC, label: "Contents", text: "Open" }]
        } else {
            Seq::empty()
        };
        size + chapters + contents
    }

    pub open spec fn with_actions(self) -> ReaderView {
        ReaderView { quick: self.actions(), ..self }
    }

    /// The reader with the fonts of the chosen size in use, out of those of all
    /// sizes.
    pub open spec fn with_fonts(self, fonts: Seq<FontSet>) -> ReaderView {
        ReaderView {
            pager: PagerView {
                face: Face::fitted(
                    set_of(fonts, self.book_font_size_idx as int),
                    self.screen.text_area(),
                ),
                ..self.pager
            },
            applied_font_idx: self.book_font_size_idx,
            ..self
        }
    }

    /// Nothing known of the pages, and no image on screen.
    pub open spec fn rewound(self) -> ReaderView {
        ReaderView {
            pager: self.pager.rewound(),
            page_img: None,
            fullscreen_img: false,
            ..self
        }
    }

    /// The book called `name`, about to be opened.
    pub open spec fn opened(
        self,
        name: Seq<u8>,
        key: u32,
        epub: bool,
        generation: u16,
        fonts: Seq<FontSet>,
    ) -> ReaderView {
        let cut = if name.len() < NAME_CAP {
            name
        } else {
            name.take(NAME_CAP as int)
        };
        let named = ReaderView {
            filename: cut,
            name_key: key,
            title: cut,
            work_gen: generation,
            cache: self.cache.for_new_book(),
            is_epub: epub,
            ..self
        };
        let r = named.with_actions().rewound();
        ReaderView {
            pager: PagerView { ch_cache: Seq::empty(), file_size: 0, ..r.pager },
            chapter: 0,
            error: None,
            show_position: false,
            goto_last_page: false,
            restore_offset: None,
            state: State::NeedBookmark,
            ..r
        }.with_fonts(fonts)
    }

    /// The reader after its book was closed.
    pub open spec fn closed(self) -> ReaderView {
        ReaderView {
            pager: PagerView {
                lines: Seq::empty(),
                buf_len: 0,
                prefetch_page: None,
                prefetch_len: 0,
                ch_cache: Seq::empty(),
                ..self.pager
            },
            restore_offset: None,
            show_position: false,
            page_img: None,
            cache: if self.is_epub {
                CacheView { bg: BgCacheState::Idle, ..self.cache }
            } else {
                self.cache
            },
            toc: if self.is_epub {
                Seq::empty()
            } else {
                self.toc
            },
            toc_pending: self.toc_pending && !self.is_epub,
            ..self
        }
    }

    /// Where a change of the fonts leads: a cached chapter is indexed anew,
    /// anything else only shown anew.
    pub open spec fn after_font_change(self) -> State {
        if self.is_epub && self.cache.ready {
            State::NeedIndex
        } else {
            State::NeedPage
        }
    }

    pub open spec fn to_chapter(self, ch: int, last_page: bool) -> ReaderView {
        ReaderView {
            chapter: ch as u16,
            goto_last_page: last_page,
            state: State::NeedIndex,
            ..self
        }
    }

    pub open spec fn to_page(self, page: int) -> ReaderView {
        ReaderView {
            pager: PagerView { page: page as usize, ..self.pager },
            state: State::NeedPage,
            ..self
        }
    }

    pub open spec fn has_next_chapter(self) -> bool {
        self.chapter + 1 < self.spine.len()
    }

    /// One page on, into the next chapter where this one ends. `None` where
    /// there is nowhere to go.
    pub open spec fn page_on(self) -> Option<ReaderView> {
        if self.state != State::Ready {
            None
        } else if self.pager.page + 1 < self.pager.total_pages {
            Some(self.to_page(self.pager.page + 1))
        } else if self.is_epub && self.pager.fully_indexed && self.has_next_chapter() {
            Some(self.to_chapter(self.chapter + 1, false))
        } else {
            None
        }
    }

    /// One page back, to the last page of the chapter before where this one
    /// begins.
    pub open spec fn page_back(self) -> Option<ReaderView> {
        if self.state != State::Ready {
            None
        } else if self.pager.page > 0 {
            Some(self.to_page(self.pager.page - 1))
        } else if self.is_epub && self.chapter > 0 {
            Some(self.to_chapter(self.chapter - 1, true))
        } else {
            None
        }
    }

    /// One chapter on, or ten pages of a book without chapters.
    pub open spec fn jump_on(self) -> Option<ReaderView> {
        let last = self.pager.last_page();
        let target = if self.pager.page + 10 < last {
            self.pager.page + 10
        } else {
            last
        };
        if self.state != State::Ready {
            None
        } else if self.is_epub {
            if self.has_next_chapter() {
                Some(self.to_chapter(self.chapter + 1, false))
            } else {
                None
            }
        } else if target != self.pager.page {
            Some(self.to_page(target))
        } else {
            None
        }
    }

    /// One chapter back, or ten pages of a book without chapters.
    pub open spec fn jump_back(self) -> Option<ReaderView> {
        let target = if self.pager.page > 10 {
            self.pager.page - 10
        } else {
            0
        };
        if self.state != State::Ready {
            None
        } else if self.is_epub {
            if self.chapter > 0 {
                Some(self.to_chapter(self.chapter - 1, false))
            } else {
                None
            }
        } else if target != self.pager.page {
            Some(self.to_page(target))
        } else {
            None
        }
    }

    /// How many entries of the table of contents fit on the screen.
    pub open spec fn toc_rows(self) -> int {
        (self.screen.text_area() / self.pager.face.line_h) as int
    }

    pub open spec fn toc_down(self) -> ReaderView {
        let wrap = self.toc_selected + 1 >= self.toc.len();
        let selected = if wrap {
            0
        } else {
            self.toc_selected + 1
        };
        let scroll = if wrap {
            0
        } else {
            self.toc_scroll as int
        };
        ReaderView {
            toc_selected: selected as usize,
            toc_scroll: if selected >= scroll + self.toc_rows() {
                (selected + 1 - self.toc_rows()) as usize
            } else {
                scroll as usize
            },
            ..self
        }
    }

    pub open spec fn toc_up(self) -> ReaderView {
        let wrap = self.toc_selected == 0;
        let selected = if wrap {
            self.toc.len() - 1
        } else {
            self.toc_selected - 1
        };
        let scroll = if wrap && selected >= self.toc_rows() {
            selected + 1 - self.toc_rows()
        } else {
            self.toc_scroll as int
        };
        ReaderView {
            toc_selected: selected as usize,
            toc_scroll: if selected < scroll {
                selected as usize
            } else {
                scroll as usize
            },
            ..self
        }
    }

    /// The selected entry is opened; one that leads nowhere closes the table.
    pub open spec fn toc_chosen(self) -> ReaderView {
        let ch = self.toc[self.toc_selected as int].spine_idx;
        if ch != NO_CHAPTER {
            ReaderView {
                pager: PagerView { page: 0, ..self.pager },
                ..self.to_chapter(ch as int, false)
            }
        } else {
            ReaderView { state: State::Ready, ..self }
        }
    }

    /// The first entry from `i` on that leads to the chapter on screen.
    pub open spec fn toc_entry_here(self, i: int) -> Option<int>
        decreases self.toc.len() - i,
    {
        if i >= self.toc.len() {
            None
        } else if self.toc[i].spine_idx == self.chapter {
            Some(i)
        } else {
            self.toc_entry_here(i + 1)
        }
    }

    /// The table of contents, opened at the chapter on screen.
    pub open spec fn toc_shown(self) -> ReaderView {
        let at = match self.toc_entry_here(0) {
            Some(i) => i,
            None => 0,
        };
        ReaderView {
            toc_selected: at as usize,
            toc_scroll: if self.toc_entry_here(0) is Some && at >= self.toc_rows() {
                (at + 1 - self.toc_rows()) as usize
            } else {
                0
            },
            state: State::ShowToc,
            ..self
        }
    }

    /// The page changed, or not.
    pub open spec fn turned(self, to: Option<ReaderView>, c: ContextView) -> (
        ReaderView,
        ContextView,
    ) {
        match to {
            Some(r) => (r, c.dirty(self.screen.page_area())),
            None => (self, c),
        }
    }

    /// What an event does while the table of contents is open.
    pub open spec fn toc_reacted(self, e: ActionEvent, c: ContextView) -> (
        ReaderView,
        ContextView,
    ) {
        let dirty = c.dirty(self.screen.page_area());
        match e {
            ActionEvent::Press(Action::Back) => (ReaderView { state: State::Ready, ..self }, dirty),
            ActionEvent::Press(Action::Next) | ActionEvent::Repeat(Action::Next) => (
                self.toc_down(),
                dirty,
            ),
            ActionEvent::Press(Action::Prev) | ActionEvent::Repeat(Action::Prev) => (
                self.toc_up(),
                dirty,
            ),
            ActionEvent::Press(Action::Select) | ActionEvent::Press(Action::NextJump) => (
                self.toc_chosen(),
                dirty,
            ),
            _ => (self, c),
        }
    }

    /// The reader with the position panel on, where a page is on screen.
    pub open spec fn with_position(self) -> ReaderView {
        ReaderView {
            show_position: self.show_position || self.state == State::Ready,
            ..self
        }
    }

    /// What an event does while a page is on screen.
    pub open spec fn page_reacted(self, e: ActionEvent, c: ContextView) -> (
        ReaderView,
        ContextView,
    ) {
        match e {
            ActionEvent::LongPress(Action::Next) => self.with_position().turned(
                self.with_position().page_on(),
                c,
            ),
            ActionEvent::LongPress(Action::Prev) => self.with_position().turned(
                self.with_position().page_back(),
                c,
            ),
            ActionEvent::Release(Action::Next) | ActionEvent::Release(Action::Prev) => {
                if self.show_position {
                    (
                        ReaderView { show_position: false, ..self },
                        c.dirty(self.screen.overlay_area()),
                    )
                } else {
                    (self, c)
                }
            },
            ActionEvent::Press(Action::Next) | ActionEvent::Repeat(Action::Next) => self.turned(
                self.page_on(),
                c,
            ),
            ActionEvent::Press(Action::Prev) | ActionEvent::Repeat(Action::Prev) => self.turned(
                self.page_back(),
                c,
            ),
            ActionEvent::Press(Action::NextJump) | ActionEvent::Repeat(Action::NextJump) => {
                self.turned(self.jump_on(), c)
            },
            ActionEvent::Press(Action::PrevJump) | ActionEvent::Repeat(Action::PrevJump) => {
                self.turned(self.jump_back(), c)
            },
            _ => (self, c),
        }
    }

    pub open spec fn reacted(self, e: ActionEvent, c: ContextView) -> (ReaderView, ContextView) {
        if self.state == State::ShowToc {
            self.toc_reacted(e, c)
        } else {
            self.page_reacted(e, c)
        }
    }

    /// What a choice from the quick menu does.
    pub open spec fn triggered(self, id: u8, c: ContextView) -> (ReaderView, ContextView) {
        if id == QA_PREV_CHAPTER && self.is_epub && self.chapter > 0 {
            (self.to_chapter(self.chapter - 1, false), c)
        } else if id == QA_NEXT_CHAPTER && self.is_epub && self.has_next_chapter() {
            (self.to_chapter(self.chapter + 1, false), c)
        } else if id == QA_TOC && self.is_epub && self.toc.len() > 0 {
            (self.toc_shown(), c.dirty(self.screen.page_area()))
        } else {
            (self, c)
        }
    }

    /// A new font size from the quick menu.
    pub open spec fn resized(self, value: u8, fonts: Seq<FontSet>) -> ReaderView {
        let r = ReaderView { book_font_size_idx: value, ..self }.with_fonts(fonts);
        ReaderView {
            state: if r.state == State::Ready {
                r.after_font_change()
            } else {
                r.state
            },
            ..r
        }.with_actions()
    }

    /// The bookmark of the book, taken over. One in a chapter that the cache
    /// has no place for leads to the start of the book.
    pub open spec fn with_bookmark(self, slot: Option<bookmarks::BookmarkSlot>) -> ReaderView {
        match slot {
            Some(s) => if self.is_epub && s.chapter >= self.cache.room() {
                ReaderView { chapter: 0, restore_offset: None, ..self }
            } else {
                self.placed_at(s.chapter, s.byte_offset)
            },
            None => self,
        }
    }

    /// The reader about to go to a place in the book.
    pub open spec fn placed_at(self, chapter: u16, byte_offset: u32) -> ReaderView {
        ReaderView {
            chapter,
            restore_offset: if byte_offset > 0 {
                Some(byte_offset)
            } else {
                None
            },
            ..self
        }
    }
}
/// Fonts that lines can be set in.
pub open spec fn usable(fonts: Seq<FontSet>) -> bool {
    forall|i: int| 0 <= i < fonts.len() ==> (#[trigger] fonts[i]).regular.line_height > 0
}

impl ReaderApp {
    /// A reader without a book. `room` is for how many chapters a book's cache
    /// has room.
    pub fn new(screen: Screen, markup: Markup, room: usize) -> (r: ReaderApp)
        requires
            screen.fits_reader(),
            0 < room <= u16::MAX,
        ensures
            r@.wf(),
            r@ == (ReaderView {
                filename: Seq::empty(),
                name_key: 0,
                title: Seq::empty(),
                pager: PagerView {
                    file_size: 0,
                    offsets: Seq::new(MAX_PAGES as nat, |i: int| 0u32),
                    total_pages: 0,
                    fully_indexed: false,
                    page: 0,
                    buf: Seq::new(PAGE_BUF as nat, |i: int| 0u8),
                    buf_len: 0,
                    lines: Seq::empty(),
                    prefetch: Seq::new(PAGE_BUF as nat, |i: int| 0u8),
                    prefetch_len: 0,
                    prefetch_page: None,
                    ch_cache: Seq::empty(),
                    face: Face::fitted(None, screen.text_area()),
                    text_w: screen.text_w() as u32,
                    markup,
                },
                state: State::NeedPage,
                error: None,
                show_position: false,
                is_epub: false,
                spine: Seq::empty(),
                chapter: 0,
                goto_last_page: false,
                restore_offset: None,
                cache: CacheView {
                    epub_size: 0,
                    sizes: Seq::new(room as nat, |i: int| 0u32),
                    done: cache::none_done(room as nat),
                    ready: false,
                    next: 0,
                    img_ch: 0,
                    img_offset: 0,
                    img_wrapped: false,
                    bg: BgCacheState::Idle,
                },
                work_gen: 0,
                page_img: None,
                fullscreen_img: false,
                toc: Seq::empty(),
                toc_pending: false,
                toc_selected: 0,
                toc_scroll: 0,
                book_font_size_idx: 0,
                applied_font_idx: 0,
                has_chrome_font: false,
                quick: Seq::empty(),
                screen,
                dirty: false,
                task: Task::Rest,
                scratch: Seq::empty(),
                pending_img: None,
            }),
    {
        let area = screen.text_area_h();
        let face = Face::fit(None, area);
        let text_w = (screen.w - 2 * MARGIN) as u32;
        let r = ReaderApp {
            filename: Vec::new(),
            name_key: 0,
            title: Vec::new(),
            pager: Pager::new(face, text_w, markup),
            state: State::NeedPage,
            error: None,
            show_position: false,
            is_epub: false,
            spine: Vec::new(),
            chapter: 0,
            goto_last_page: false,
            restore_offset: None,
            cache: ChapterCache::new(room),
            work_gen: 0,
            page_img: None,
            fullscreen_img: false,
            toc: Vec::new(),
            toc_pending: false,
            toc_selected: 0,
            toc_scroll: 0,
            book_font_size_idx: 0,
            applied_font_idx: 0,
            has_chrome_font: false,
            quick: Vec::new(),
            screen,
            dirty: false,
            task: Task::Rest,
            scratch: Vec::new(),
            pending_img: None,
        };
        assert(r@.filename =~= Seq::<u8>::empty());
        assert(r@.title =~= Seq::<u8>::empty());
        assert(r@.spine =~= Seq::<u32>::empty());
        assert(r@.toc =~= Seq::<TocView>::empty());
        assert(r@.quick =~= Seq::<QuickAction>::empty());
        assert(r@.scratch =~= Seq::<u8>::empty());
        r
    }

    /// Takes font size `idx`; `fonts` are those of all sizes.
    pub fn set_book_font_size(&mut self, idx: u8, fonts: Vec<FontSet>)
        requires
            old(self)@.sound(),
            usable(fonts@),
        ensures
            final(self)@.sound(),
            old(self)@.wf() ==> final(self)@.wf(),
            final(self)@ == (ReaderView { book_font_size_idx: idx, ..old(self)@ }).with_fonts(
                fonts@,
            ).with_actions(),
    {
        self.book_font_size_idx = idx;
        self.apply_font_metrics(fonts);
        self.rebuild_quick_actions();
    }

    /// From now on the font of the system's own texts can be used.
    pub fn set_chrome_font(&mut self)
        requires
            old(self)@.sound(),
        ensures
            final(self)@.sound(),
            old(self)@.wf() ==> final(self)@.wf(),
            final(self)@ == (ReaderView { has_chrome_font: true, ..old(self)@ }),
    {
        self.has_chrome_font = true;
    }

    pub fn has_bg_work(&self) -> (r: bool)
        ensures
            r == (self@.is_epub && self@.cache.bg != BgCacheState::Idle),
    {
        self.is_epub && self.cache.bg != BgCacheState::Idle
    }

    pub(crate) fn rebuild_quick_actions(&mut self)
        requires
            old(self)@.sound(),
        ensures
            final(self)@.sound(),
            old(self)@.wf() ==> final(self)@.wf(),
            final(self)@ == old(self)@.with_actions(),
    {
        let mut q: Vec<QuickAction> = Vec::new();
        q.push(
            QuickAction::Cycle {
                id: QA_FONT_SIZE,
                label: "Book Font",
                value: self.book_font_size_idx,
            },
        );
        if self.is_epub && self.spine.len() > 1 {
            q.push(QuickAction::Trigger { id: QA_PREV_CHAPTER, label: "Prev Ch", text: "<<<" });
            q.push(QuickAction::Trigger { id: QA_NEXT_CHAPTER, label: "Next Ch", text: ">>>" });
        }
        if self.is_epub && self.toc.len() > 0 {
            q.push(QuickAction::Trigger { id: QA_TOC, label: "Contents", text: "Open" });
        }
        assert(q@ =~= self@.actions());
        self.quick = q;
    }

    fn apply_font_metrics(&mut self, fonts: Vec<FontSet>)
        requires
            old(self)@.sound(),
            usable(fonts@),
        ensures
            final(self)@.sound(),
            old(self)@.wf() ==> final(self)@.wf(),
            final(self)@ == old(self)@.with_fonts(fonts@),
    {
        let area = self.screen.text_area_h();
        let chosen = take_set(fonts, self.book_font_size_idx);
        self.pager.face = Face::fit(chosen, area);
        self.applied_font_idx = self.book_font_size_idx;
    }

    /// The name of the file.
    pub fn name(&self) -> (r: &str)
        ensures
            utf8::valid_utf8(self@.filename) ==> utf8::encode_utf8(r@) == self@.filename,
            !utf8::valid_utf8(self@.filename) ==> r@ == "???"@,
    {
        utf8_or(self.filename.as_slice(), "???")
    }

    /// The title, or the name of the file where there is none.
    pub fn display_name(&self) -> (r: &str)
        ensures
            ({
                let shown = if self@.title.len() > 0 && utf8::valid_utf8(self@.title) {
                    self@.title
                } else {
                    self@.filename
                };
                if utf8::valid_utf8(shown) {
                    utf8::encode_utf8(r@) == shown
                } else {
                    r@ == "???"@
                }
            }),
    {
        if self.title.len() > 0 {
            match utf8_text(self.title.as_slice()) {
                Some(t) => t,
                None => self.name(),
            }
        } else {
            self.name()
        }
    }

    /// Notes the position of a page that is on screen.
    pub fn save_position(&self, bm: &mut BookmarkCache)
        requires
            self@.wf(),
            old(bm).wf(),
        ensures
            final(bm).wf(),
            if self@.state == State::Ready {
                bookmarks::saved(
                    old(bm)@,
                    final(bm)@,
                    self@.filename,
                    self@.name_key,
                    self@.pager.offset(),
                    self@.chapter,
                )
            } else {
                *final(bm) == *old(bm)
            },
    {
        if self.state == State::Ready {
            bm.save(
                self.filename.as_slice(),
                self.name_key,
                self.pager.offsets[self.pager.page],
                self.chapter,
            );
        }
    }

    /// Takes over the bookmark of the book, if there is one.
    pub fn bookmark_load(&mut self, bm: &BookmarkCache) -> (r: bool)
        requires
            old(self)@.wf(),
            bm.wf(),
        ensures
            final(self)@.wf(),
            final(self)@ == old(self)@.with_bookmark(
                bm@.found(old(self)@.filename, old(self)@.name_key),
            ),
            r == (bm@.found(old(self)@.filename, old(self)@.name_key) is Some),
    {
        match bm.find(self.filename.as_slice(), self.name_key) {
            Some(slot) => {
                if self.is_epub && slot.chapter as usize >= self.cache.sizes.len() {
                    self.chapter = 0;
                    self.restore_offset = None;
                } else {
                    self.chapter = slot.chapter;
                    self.restore_offset = if slot.byte_offset > 0 {
                        Some(slot.byte_offset)
                    } else {
                        None
                    };
                }
                true
            },
            None => false,
        }
    }

    pub fn progress_pct(&self) -> (r: u8)
        requires
            self@.wf(),
        ensures
            r == self@.progress(),
            r <= 100,
    {
        let p = &self.pager;
        let at_end = p.fully_indexed && p.page + 1 >= p.total_pages;
        if self.is_epub && self.spine.len() > 0 {
            let spine_len = self.spine.len() as u64;
            let ch = self.chapter as u64;
            if ch + 1 >= spine_len && at_end {
                return 100;
            }
            let part: u64 = if p.file_size == 0 {
                0
            } else {
                self.page_percent()
            };
            let all = (ch * 100 + part) / spine_len;
            proof {
                vstd::arithmetic::div_mod::lemma_div_pos_is_pos(
                    (ch * 100 + part) as int,
                    spine_len as int,
                );
            }
            return if all < 100 {
                all as u8
            } else {
                100
            };
        }
        if p.file_size == 0 || at_end {
            return 100;
        }
        self.page_percent() as u8
    }

    fn page_percent(&self) -> (r: u64)
        requires
            self@.wf(),
            self@.pager.file_size > 0,
        ensures
            r == percent(self@.pager.offset() as int, self@.pager.file_size as int),
            r <= 100,
    {
        let pos = self.pager.offsets[self.pager.page] as u64;
        let size = self.pager.file_size as u64;
        let q = pos * 100 / size;
        proof {
            vstd::arithmetic::div_mod::lemma_div_pos_is_pos(pos * 100, size as int);
        }
        if q < 100 {
            q
        } else {
            100
        }
    }

    /// Opens the book that the context names. `epub` says whether its name is
    /// that of an EPUB file, `generation` is that of the worker after it was
    /// reset, and `fonts` are those of all sizes.
    pub fn on_enter(
        &mut self,
        ctx: &mut AppContext,
        key: u32,
        epub: bool,
        generation: u16,
        fonts: Vec<FontSet>,
    )
        requires
            old(self)@.sound(),
            usable(fonts@),
        ensures
            final(self)@.wf(),
            final(self)@ == old(self)@.opened(old(ctx)@.message, key, epub, generation, fonts@),
            final(ctx)@ == old(ctx)@.dirty(old(self)@.screen.page_area()),
    {
        let len = if ctx.message.len() < NAME_CAP {
            ctx.message.len()
        } else {
            NAME_CAP
        };
        let mut name: Vec<u8> = Vec::new();
        let mut title: Vec<u8> = Vec::new();
        let all = ctx.message.as_slice();
        push_bytes(&mut name, &all[0..len]);
        push_bytes(&mut title, &all[0..len]);
        let ghost cut = if all@.len() < NAME_CAP {
            all@
        } else {
            all@.take(NAME_CAP as int)
        };
        proof {
            assert(name@ =~= cut);
            assert(title@ =~= cut);
        }
        self.filename = name;
        self.name_key = key;
        self.title = title;
        self.work_gen = generation;
        self.cache.for_book();
        self.is_epub = epub;
        self.chapter = 0;
        self.state = State::NeedBookmark;
        self.rebuild_quick_actions();
        self.pager.reset_paging();
        self.page_img = None;
        self.fullscreen_img = false;
        self.pager.ch_cache = Vec::new();
        self.pager.file_size = 0;
        self.error = None;
        self.show_position = false;
        self.goto_last_page = false;
        self.restore_offset = None;
        self.apply_font_metrics(fonts);
        assert(self.pager.ch_cache@ =~= Seq::empty());
        let region = self.screen.page_region();
        ctx.mark_dirty(region);
    }

    /// Closes the book. Returns whether the worker has to be reset, so that it
    /// drops what it does for this book.
    pub fn on_exit(&mut self) -> (r: bool)
        requires
            old(self)@.wf(),
        ensures
            final(self)@ == old(self)@.closed(),
            final(self)@.sound(),
            r == old(self)@.is_epub,
    {
        let epub = self.is_epub;
        if epub {
            self.cache.bg = BgCacheState::Idle;
        }
        self.pager.lines = Vec::new();
        self.pager.buf_len = 0;
        self.pager.prefetch_page = None;
        self.pager.prefetch_len = 0;
        self.restore_offset = None;
        self.show_position = false;
        self.pager.ch_cache = Vec::new();
        self.page_img = None;
        if epub {
            self.toc = Vec::new();
            self.toc_pending = false;
        }
        proof {
            assert(self.pager.lines@ =~= Seq::empty());
            assert(self.pager.ch_cache@ =~= Seq::empty());
            if epub {
                assert(toc_view(self.toc@) =~= Seq::empty());
            }
        }
        epub
    }

    /// Background work goes on while another app is active.
    pub fn on_suspend(&mut self)
        ensures
            *final(self) == *old(self),
    {
    }

    /// Back from another app. Returns the generation under which the worker's
    /// results count again.
    pub fn on_resume(&mut self, ctx: &mut AppContext, fonts: Vec<FontSet>) -> (r: Option<u16>)
        requires
            old(self)@.wf(),
            usable(fonts@),
        ensures
            final(self)@.wf(),
            final(self)@ == ({
                let changed = old(self)@.book_font_size_idx != old(self)@.applied_font_idx;
                let s = old(self)@.with_fonts(fonts@);
                if changed {
                    ReaderView { state: s.after_font_change(), ..s.rewound() }
                } else {
                    s
                }
            }),
            final(ctx)@ == old(ctx)@.dirty(old(self)@.screen.page_area()),
            r == (if old(self)@.work_gen != 0 {
                Some(old(self)@.work_gen)
            } else {
                None
            }),
    {
        let generation = if self.work_gen != 0 {
            Some(self.work_gen)
        } else {
            None
        };
        let changed = self.book_font_size_idx != self.applied_font_idx;
        self.apply_font_metrics(fonts);
        if changed {
            self.pager.reset_paging();
            self.page_img = None;
            self.fullscreen_img = false;
            self.state = if self.is_epub && self.cache.ready {
                State::NeedIndex
            } else {
                State::NeedPage
            };
        }
        let region = self.screen.page_region();
        ctx.mark_dirty(region);
        generation
    }

    pub fn page_forward(&mut self) -> (r: bool)
        requires
            old(self)@.wf(),
        ensures
            final(self)@.wf(),
            r == (old(self)@.page_on() is Some),
            final(self)@ == (match old(self)@.page_on() {
                Some(s) => s,
                None => old(self)@,
            }),
    {
        if self.state != State::Ready {
            return false;
        }
        if self.pager.page + 1 < self.pager.total_pages {
            self.pager.page = self.pager.page + 1;
            self.state = State::NeedPage;
            return true;
        }
        if self.is_epub && self.pager.fully_indexed && (self.chapter as usize) + 1
            < self.spine.len() {
            self.chapter = self.chapter + 1;
            self.goto_last_page = false;
            self.state = State::NeedIndex;
            return true;
        }
        false
    }

    pub fn page_backward(&mut self) -> (r: bool)
        requires
            old(self)@.wf(),
        ensures
            final(self)@.wf(),
            r == (old(self)@.page_back() is Some),
            final(self)@ == (match old(self)@.page_back() {
                Some(s) => s,
                None => old(self)@,
            }),
    {
        if self.state != State::Ready {
            return false;
        }
        if self.pager.page > 0 {
            self.pager.page = self.pager.page - 1;
            self.state = State::NeedPage;
            return true;
        }
        if self.is_epub && self.chapter > 0 {
            self.chapter = self.chapter - 1;
            self.goto_last_page = true;
            self.state = State::NeedIndex;
            return true;
        }
        false
    }

    pub fn jump_forward(&mut self) -> (r: bool)
        requires
            old(self)@.wf(),
        ensures
            final(self)@.wf(),
            r == (old(self)@.jump_on() is Some),
            final(self)@ == (match old(self)@.jump_on() {
                Some(s) => s,
                None => old(self)@,
            }),
    {
        if self.state != State::Ready {
            return false;
        }
        if self.is_epub {
            if (self.chapter as usize) + 1 < self.spine.len() {
                self.chapter = self.chapter + 1;
                self.goto_last_page = false;
                self.state = State::NeedIndex;
                return true;
            }
        } else {
            let last = self.pager.last_known_page();
            let target = if self.pager.page + 10 < last {
                self.pager.page + 10
            } else {
                last
            };
            if target != self.pager.page {
                self.pager.page = target;
                self.state = State::NeedPage;
                return true;
            }
        }
        false
    }

    pub fn jump_backward(&mut self) -> (r: bool)
        requires
            old(self)@.wf(),
        ensures
            final(self)@.wf(),
            r == (old(self)@.jump_back() is Some),
            final(self)@ == (match old(self)@.jump_back() {
                Some(s) => s,
                None => old(self)@,
            }),
    {
        if self.state != State::Ready {
            return false;
        }
        if self.is_epub {
            if self.chapter > 0 {
                self.chapter = self.chapter - 1;
                self.goto_last_page = false;
                self.state = State::NeedIndex;
                return true;
            }
        } else {
            let target = if self.pager.page > 10 {
                self.pager.page - 10
            } else {
                0
            };
            if target != self.pager.page {
                self.pager.page = target;
                self.state = State::NeedPage;
                return true;
            }
        }
        false
    }

    fn toc_visible_rows(&self) -> (r: usize)
        requires
            self@.wf(),
        ensures
            r == self@.toc_rows(),
            r <= u16::MAX,
    {
        (self.screen.text_area_h() / self.pager.face.line_h) as usize
    }

    fn toc_next(&mut self)
        requires
            old(self)@.wf(),
            old(self)@.state == State::ShowToc,
        ensures
            final(self)@.wf(),
            final(self)@ == old(self)@.toc_down(),
    {
        let len = self.toc.len();
        let rows = self.toc_visible_rows();
        if self.toc_selected + 1 < len {
            self.toc_selected = self.toc_selected + 1;
        } else {
            self.toc_selected = 0;
            self.toc_scroll = 0;
        }
        if self.toc_selected >= rows && self.toc_selected - rows >= self.toc_scroll {
            self.toc_scroll = self.toc_selected - rows + 1;
        }
    }

    fn toc_prev(&mut self)
        requires
            old(self)@.wf(),
            old(self)@.state == State::ShowToc,
        ensures
            final(self)@.wf(),
            final(self)@ == old(self)@.toc_up(),
    {
        let len = self.toc.len();
        if self.toc_selected > 0 {
            self.toc_selected = self.toc_selected - 1;
        } else {
            self.toc_selected = len - 1;
            let rows = self.toc_visible_rows();
            if self.toc_selected >= rows {
                self.toc_scroll = self.toc_selected - rows + 1;
            }
        }
        if self.toc_selected < self.toc_scroll {
            self.toc_scroll = self.toc_selected;
        }
    }

    fn toc_choose(&mut self)
        requires
            old(self)@.wf(),
            old(self)@.state == State::ShowToc,
        ensures
            final(self)@.wf(),
            final(self)@ == old(self)@.toc_chosen(),
    {
        let ch = self.toc[self.toc_selected].spine_idx;
        assert(ch == self@.toc[self.toc_selected as int].spine_idx);
        if ch != NO_CHAPTER {
            self.chapter = ch;
            self.pager.page = 0;
            self.goto_last_page = false;
            self.state = State::NeedIndex;
        } else {
            self.state = State::Ready;
        }
    }

    fn on_toc_event(&mut self, event: ActionEvent, ctx: &mut AppContext)
        requires
            old(self)@.wf(),
            old(self)@.state == State::ShowToc,
        ensures
            final(self)@.wf(),
            (final(self)@, final(ctx)@) == old(self)@.toc_reacted(event, old(ctx)@),
    {
        let region = self.screen.page_region();
        match event {
            ActionEvent::Press(Action::Back) => {
                self.state = State::Ready;
                ctx.mark_dirty(region);
            },
            ActionEvent::Press(Action::Next) | ActionEvent::Repeat(Action::Next) => {
                self.toc_next();
                ctx.mark_dirty(region);
            },
            ActionEvent::Press(Action::Prev) | ActionEvent::Repeat(Action::Prev) => {
                self.toc_prev();
                ctx.mark_dirty(region);
            },
            ActionEvent::Press(Action::Select) | ActionEvent::Press(Action::NextJump) => {
                self.toc_choose();
                ctx.mark_dirty(region);
            },
            _ => {},
        }
    }

    fn on_page_event(&mut self, event: ActionEvent, ctx: &mut AppContext)
        requires
            old(self)@.wf(),
            old(self)@.state != State::ShowToc,
        ensures
            final(self)@.wf(),
            (final(self)@, final(ctx)@) == old(self)@.page_reacted(event, old(ctx)@),
    {
        let region = self.screen.page_region();
        match event {
            ActionEvent::LongPress(Action::Next) => {
                if self.state == State::Ready {
                    self.show_position = true;
                }
                if self.page_forward() {
                    ctx.mark_dirty(region);
                }
            },
            ActionEvent::LongPress(Action::Prev) => {
                if self.state == State::Ready {
                    self.show_position = true;
                }
                if self.page_backward() {
                    ctx.mark_dirty(region);
                }
            },
            ActionEvent::Release(Action::Next) | ActionEvent::Release(Action::Prev) => {
                if self.show_position {
                    self.show_position = false;
                    let overlay = self.screen.overlay_region();
                    ctx.mark_dirty(overlay);
                }
            },
            ActionEvent::Press(Action::Next) | ActionEvent::Repeat(Action::Next) => {
                if self.page_forward() {
                    ctx.mark_dirty(region);
                }
            },
            ActionEvent::Press(Action::Prev) | ActionEvent::Repeat(Action::Prev) => {
                if self.page_backward() {
                    ctx.mark_dirty(region);
                }
            },
            ActionEvent::Press(Action::NextJump) | ActionEvent::Repeat(Action::NextJump) => {
                if self.jump_forward() {
                    ctx.mark_dirty(region);
                }
            },
            ActionEvent::Press(Action::PrevJump) | ActionEvent::Repeat(Action::PrevJump) => {
                if self.jump_backward() {
                    ctx.mark_dirty(region);
                }
            },
            _ => {},
        }
    }

    pub fn on_event(&mut self, event: ActionEvent, ctx: &mut AppContext) -> (r: Transition)
        requires
            old(self)@.wf(),
        ensures
            final(self)@.wf(),
            (final(self)@, final(ctx)@) == old(self)@.reacted(event, old(ctx)@),
            r == (if old(self)@.state == State::ShowToc {
                Transition::Stay
            } else {
                match event {
                    ActionEvent::Press(Action::Back) => Transition::Pop,
                    ActionEvent::LongPress(Action::Back) => Transition::Home,
                    _ => Transition::Stay,
                }
            }),
    {
        if self.state == State::ShowToc {
            self.on_toc_event(event, ctx);
            return Transition::Stay;
        }
        self.on_page_event(event, ctx);
        match event {
            ActionEvent::Press(Action::Back) => Transition::Pop,
            ActionEvent::LongPress(Action::Back) => Transition::Home,
            _ => Transition::Stay,
        }
    }

    pub fn quick_actions(&self) -> (r: &[QuickAction])
        ensures
            r@ == self@.quick,
    {
        self.quick.as_slice()
    }

    fn show_toc(&mut self)
        requires
            old(self)@.wf(),
            old(self)@.is_epub,
            old(self)@.toc.len() > 0,
        ensures
            final(self)@.wf(),
            final(self)@ == old(self)@.toc_shown(),
    {
        let ghost v = self@;
        let rows = self.toc_visible_rows();
        let len = self.toc.len();
        let mut at: Option<usize> = None;
        let mut i: usize = 0;
        while i < len && at.is_none()
            invariant
                *self == *old(self),
                self@ == v,
                len == self.toc@.len(),
                len == v.toc.len(),
                i <= len,
                match at {
                    Some(k) => k < len && v.toc_entry_here(0) == Some(k as int),
                    None => v.toc_entry_here(0) == v.toc_entry_here(i as int),
                },
            decreases
                len - i,
                if at is None {
                    1int
                } else {
                    0int
                },
        {
            assert(v.toc[i as int].spine_idx == self.toc@[i as int].spine_idx);
            if self.toc[i].spine_idx == self.chapter {
                at = Some(i);
            } else {
                i += 1;
            }
        }
        self.toc_selected = 0;
        self.toc_scroll = 0;
        if let Some(k) = at {
            self.toc_selected = k;
            if k >= rows {
                self.toc_scroll = k - rows + 1;
            }
        }
        self.state = State::ShowToc;
    }

    pub fn on_quick_trigger(&mut self, id: u8, ctx: &mut AppContext)
        requires
            old(self)@.wf(),
        ensures
            final(self)@.wf(),
            (final(self)@, final(ctx)@) == old(self)@.triggered(id, old(ctx)@),
    {
        if id == QA_PREV_CHAPTER {
            if self.is_epub && self.chapter > 0 {
                self.chapter = self.chapter - 1;
                self.goto_last_page = false;
                self.state = State::NeedIndex;
            }
        } else if id == QA_NEXT_CHAPTER {
            if self.is_epub && (self.chapter as usize) + 1 < self.spine.len() {
                self.chapter = self.chapter + 1;
                self.goto_last_page = false;
                self.state = State::NeedIndex;
            }
        } else if id == QA_TOC {
            if self.is_epub && self.toc.len() > 0 {
                self.show_toc();
                let region = self.screen.page_region();
                ctx.mark_dirty(region);
            }
        }
    }

    /// A value was chosen from the quick menu; `fonts` are those of all sizes.
    pub fn on_quick_cycle_update(&mut self, id: u8, value: u8, fonts: Vec<FontSet>)
        requires
            old(self)@.wf(),
            usable(fonts@),
        ensures
            final(self)@.wf(),
            final(self)@ == (if id == QA_FONT_SIZE {
                old(self)@.resized(value, fonts@)
            } else {
                old(self)@
            }),
    {
        if id == QA_FONT_SIZE {
            self.book_font_size_idx = value;
            self.apply_font_metrics(fonts);
            if self.state == State::Ready {
                self.state = if self.is_epub && self.cache.ready {
                    State::NeedIndex
                } else {
                    State::NeedPage
                };
            }
            self.rebuild_quick_actions();
        }
    }

    pub fn pending_setting(&self) -> (r: Option<PendingSetting>)
        ensures
            r == Some(PendingSetting::BookFontSize(self@.book_font_size_idx)),
    {
        Some(PendingSetting::BookFontSize(self.book_font_size_idx))
    }

    pub fn save_state(&self, bm: &mut BookmarkCache)
        requires
            self@.wf(),
            old(bm).wf(),
        ensures
            final(bm).wf(),
            if self@.state == State::Ready {
                bookmarks::saved(
                    old(bm)@,
                    final(bm)@,
                    self@.filename,
                    self@.name_key,
                    self@.pager.offset(),
                    self@.chapter,
                )
            } else {
                *final(bm) == *old(bm)
            },
    {
        self.save_position(bm);
    }

    pub fn has_background_when_suspended(&self) -> (r: bool)
        ensures
            r == (self@.is_epub && self@.cache.bg != BgCacheState::Idle),
    {
        self.has_bg_work()
    }
}

impl ReaderView {
    /// What a well-formed reader gives.
    pub proof fn lemma_wf(self)
        requires
            self.wf(),
        ensures
            self.sound(),
            self.pager.wf(),
            self.cache.wf(),
            self.screen.fits_reader(),
            self.spine.len() <= self.cache.room(),
            self.is_epub ==> self.chapter < self.cache.room(),
            toc_within(self.toc, self.cache.room()),
    {
    }
}

/// Access to the parts of a reader, for the work in the background.
impl ReaderApp {
    pub fn task(&self) -> (r: Task)
        ensures
            r == self@.task,
    {
        self.task
    }

    pub fn state(&self) -> (r: State)
        ensures
            r == self@.state,
    {
        self.state
    }

    pub fn is_epub(&self) -> (r: bool)
        ensures
            r == self@.is_epub,
    {
        self.is_epub
    }

    pub fn chapter(&self) -> (r: u16)
        ensures
            r == self@.chapter,
    {
        self.chapter
    }

    pub fn wants_last_page(&self) -> (r: bool)
        ensures
            r == self@.goto_last_page,
    {
        self.goto_last_page
    }

    pub fn toc_waits(&self) -> (r: bool)
        ensures
            r == self@.toc_pending,
    {
        self.toc_pending
    }

    pub fn is_fullscreen(&self) -> (r: bool)
        ensures
            r == self@.fullscreen_img,
    {
        self.fullscreen_img
    }

    pub fn shown_on(&self) -> (r: Screen)
        ensures
            r == self@.screen,
    {
        self.screen
    }

    pub fn restores_to(&self) -> (r: Option<u32>)
        ensures
            r == self@.restore_offset,
    {
        self.restore_offset
    }

    pub fn is_dirty(&self) -> (r: bool)
        ensures
            r == self@.dirty,
    {
        self.dirty
    }

    pub fn error(&self) -> (r: Option<&'static str>)
        ensures
            r == self@.error,
    {
        self.error
    }

    pub fn generation(&self) -> (r: u16)
        ensures
            r == self@.work_gen,
    {
        self.work_gen
    }

    pub fn pager(&self) -> (r: &Pager)
        ensures
            r@ == self@.pager,
    {
        &self.pager
    }

    pub fn cache(&self) -> (r: &ChapterCache)
        ensures
            r@ == self@.cache,
    {
        &self.cache
    }

    pub fn spine(&self) -> (r: &Vec<u32>)
        ensures
            r@ == self@.spine,
    {
        &self.spine
    }

    pub fn scratch(&self) -> (r: &Vec<u8>)
        ensures
            r@ == self@.scratch,
    {
        &self.scratch
    }

    pub fn filename(&self) -> (r: &Vec<u8>)
        ensures
            r@ == self@.filename,
    {
        &self.filename
    }

    pub fn title(&self) -> (r: &Vec<u8>)
        ensures
            r@ == self@.title,
    {
        &self.title
    }

    pub fn has_chrome(&self) -> (r: bool)
        ensures
            r == self@.has_chrome_font,
    {
        self.has_chrome_font
    }

    pub fn toc_choice(&self) -> (r: usize)
        ensures
            r == self@.toc_selected,
    {
        self.toc_selected
    }

    pub fn toc_top(&self) -> (r: usize)
        ensures
            r == self@.toc_scroll,
    {
        self.toc_scroll
    }

    pub fn shows_position(&self) -> (r: bool)
        ensures
            r == self@.show_position,
    {
        self.show_position
    }

    pub fn toc(&self) -> (r: &Vec<TocEntry>)
        ensures
            toc_view(r@) == self@.toc,
    {
        &self.toc
    }

    pub fn page_image(&self) -> (r: &Option<Image>)
        ensures
            image_of(*r) == self@.page_img,
    {
        &self.page_img
    }

    /// The image that waits to be saved.
    pub fn waiting_image(&self) -> (r: &Option<Image>)
        ensures
            image_of(*r) == self@.pending_img,
    {
        &self.pending_img
    }

    pub(crate) fn pager_mut(&mut self) -> (r: &mut Pager)
        ensures
            r@ == old(self)@.pager,
            final(self)@ == (ReaderView { pager: final(r)@, ..old(self)@ }),
            old(self)@.wf() && final(r)@.wf() ==> final(self)@.wf(),
    {
        &mut self.pager
    }

    pub(crate) fn cache_mut(&mut self) -> (r: &mut ChapterCache)
        ensures
            r@ == old(self)@.cache,
            final(self)@ == (ReaderView { cache: final(r)@, ..old(self)@ }),
            old(self)@.wf() && final(r)@.wf() && final(r)@.room() == old(self)@.cache.room()
                ==> final(self)@.wf(),
    {
        &mut self.cache
    }

    pub(crate) fn set_task(&mut self, task: Task)
        ensures
            final(self)@ == (ReaderView { task: task, ..old(self)@ }),
            old(self)@.wf() ==> final(self)@.wf(),
    {
        self.task = task;
    }

    pub(crate) fn set_dirty(&mut self, dirty: bool)
        ensures
            final(self)@ == (ReaderView { dirty: dirty, ..old(self)@ }),
            old(self)@.wf() ==> final(self)@.wf(),
    {
        self.dirty = dirty;
    }

    pub(crate) fn set_error(&mut self, e: &'static str)
        ensures
            final(self)@ == (ReaderView { error: Some(e), ..old(self)@ }),
            old(self)@.wf() ==> final(self)@.wf(),
    {
        self.error = Some(e);
    }

    pub(crate) fn set_goto_last(&mut self, last: bool)
        ensures
            final(self)@ == (ReaderView { goto_last_page: last, ..old(self)@ }),
            old(self)@.wf() ==> final(self)@.wf(),
    {
        self.goto_last_page = last;
    }

    pub(crate) fn set_restore(&mut self, to: Option<u32>)
        ensures
            final(self)@ == (ReaderView { restore_offset: to, ..old(self)@ }),
            old(self)@.wf() ==> final(self)@.wf(),
    {
        self.restore_offset = to;
    }

    pub(crate) fn set_scratch(&mut self, bytes: Vec<u8>)
        ensures
            final(self)@ == (ReaderView { scratch: bytes@, ..old(self)@ }),
            old(self)@.wf() ==> final(self)@.wf(),
    {
        self.scratch = bytes;
    }

    pub(crate) fn set_fullscreen(&mut self, full: bool)
        ensures
            final(self)@ == (ReaderView { fullscreen_img: full, ..old(self)@ }),
            old(self)@.wf() ==> final(self)@.wf(),
    {
        self.fullscreen_img = full;
    }

    pub(crate) fn set_toc_waits(&mut self, waits: bool)
        ensures
            final(self)@ == (ReaderView { toc_pending: waits, ..old(self)@ }),
            old(self)@.wf() ==> final(self)@.wf(),
    {
        self.toc_pending = waits;
    }

    pub(crate) fn set_page_img(&mut self, img: Option<Image>)
        ensures
            final(self)@ == (ReaderView { page_img: image_of(img), ..old(self)@ }),
            old(self)@.wf() ==> final(self)@.wf(),
    {
        self.page_img = img;
    }

    pub(crate) fn set_pending(&mut self, img: Option<Image>)
        ensures
            final(self)@ == (ReaderView { pending_img: image_of(img), ..old(self)@ }),
            old(self)@.wf() ==> final(self)@.wf(),
    {
        self.pending_img = img;
    }

    pub(crate) fn set_title(&mut self, title: Vec<u8>)
        requires
            title@.len() <= TITLE_CAP,
        ensures
            final(self)@ == (ReaderView { title: title@, ..old(self)@ }),
            old(self)@.wf() ==> final(self)@.wf(),
    {
        self.title = title;
    }

    pub(crate) fn set_state(&mut self, state: State)
        requires
            state != State::ShowToc,
        ensures
            final(self)@ == (ReaderView { state: state, ..old(self)@ }),
            old(self)@.wf() ==> final(self)@.wf(),
    {
        self.state = state;
    }

    pub(crate) fn set_spine(&mut self, spine: Vec<u32>)
        requires
            spine@.len() <= old(self)@.cache.room(),
        ensures
            final(self)@ == (ReaderView { spine: spine@, ..old(self)@ }),
            old(self)@.wf() ==> final(self)@.wf(),
    {
        self.spine = spine;
    }

    pub(crate) fn set_toc(&mut self, toc: Vec<TocEntry>)
        requires
            toc_within(toc_view(toc@), old(self)@.cache.room()),
            old(self)@.state != State::ShowToc,
        ensures
            final(self)@ == (ReaderView { toc: toc_view(toc@), ..old(self)@ }),
            old(self)@.wf() ==> final(self)@.wf(),
    {
        self.toc = toc;
    }

    pub(crate) fn clear_scratch(&mut self)
        ensures
            final(self)@ == (ReaderView { scratch: Seq::empty(), ..old(self)@ }),
            old(self)@.wf() ==> final(self)@.wf(),
    {
        self.scratch = Vec::new();
        assert(self.scratch@ =~= Seq::empty());
    }

    pub(crate) fn extend_scratch(&mut self, bytes: &[u8])
        ensures
            final(self)@ == (ReaderView { scratch: old(self)@.scratch + bytes@, ..old(self)@ }),
            old(self)@.wf() ==> final(self)@.wf(),
    {
        push_bytes(&mut self.scratch, bytes);
    }

    /// The image that was on its way to the cache goes on screen.
    pub(crate) fn show_pending_img(&mut self)
        ensures
            final(self)@ == (ReaderView {
                page_img: old(self)@.pending_img,
                pending_img: None,
                ..old(self)@
            }),
            old(self)@.wf() ==> final(self)@.wf(),
    {
        self.page_img = self.pending_img.take();
    }
}

/// Where a book was left is where it opens again: the bookmark saved from a
/// page on screen gives back its chapter and its position.
pub proof fn law_book_reopens_where_it_was_left(
    left: ReaderView,
    again: ReaderView,
    before: bookmarks::CacheView,
    after: bookmarks::CacheView,
)
    requires
        left.wf(),
        before.loaded,
        before.slots.len() <= bookmarks::SLOTS,
        bookmarks::saved(
            before,
            after,
            left.filename,
            left.name_key,
            left.pager.offset(),
            left.chapter,
        ),
        again.filename == left.filename,
        again.name_key == left.name_key,
        again.is_epub == left.is_epub,
        again.cache.room() == left.cache.room(),
    ensures
        ({
            let r = again.with_bookmark(after.found(again.filename, again.name_key));
            &&& r.chapter == left.chapter
            &&& left.pager.offset() > 0 ==> r.restore_offset == Some(left.pager.offset())
            &&& left.pager.offset() == 0 ==> r.restore_offset is None
        }),
{
    bookmarks::law_find_after_save(
        before,
        after,
        left.filename,
        left.name_key,
        left.pager.offset(),
        left.chapter,
        again.filename,
    );
}

/// A page on and a page back, inside a chapter, lead to the same page.
pub proof fn law_page_turns_undo(r: ReaderView)
    requires
        r.wf(),
        r.state == State::Ready,
    ensures
        r.pager.page + 1 < r.pager.total_pages ==> ({
            let on = ReaderView { state: State::Ready, ..r.page_on()->Some_0 };
            on.page_back() matches Some(b) && b.pager.page == r.pager.page && b.chapter == r.chapter
        }),
        r.pager.page > 0 ==> ({
            let back = ReaderView { state: State::Ready, ..r.page_back()->Some_0 };
            back.page_on() matches Some(f) && f.pager.page == r.pager.page && f.chapter == r.chapter
        }),
{
}

/// Turning pages and jumping never leads out of the book.
pub proof fn law_turns_stay_in_book(r: ReaderView)
    requires
        r.wf(),
        r.is_epub ==> r.chapter < r.spine.len(),
    ensures
        forall|s: ReaderView|
            (r.page_on() == Some(s) || r.page_back() == Some(s) || r.jump_on() == Some(s)
                || r.jump_back() == Some(s)) ==> {
                &&& #[trigger] s.wf()
                &&& s.is_epub ==> s.chapter < s.spine.len()
                &&& s.pager.has_page(s.pager.page as int)
            },
{
}

impl ReaderView {
    /// The selected entry of the table of contents is on the screen.
    pub open spec fn toc_in_sight(self) -> bool {
        self.toc_scroll <= self.toc_selected < self.toc_scroll + self.toc_rows()
    }

    /// The selected entry stays on the screen, however the selection moves.
    pub proof fn law_toc_selection_in_sight(self)
        requires
            self.wf(),
            self.is_epub,
            self.toc.len() > 0,
            self.toc.len() <= usize::MAX,
            self.toc_rows() > 0,
        ensures
            self.toc_shown().toc_in_sight(),
            self.state == State::ShowToc && self.toc_in_sight() ==> self.toc_down().toc_in_sight(),
            self.state == State::ShowToc && self.toc_in_sight() ==> self.toc_up().toc_in_sight(),
    {
        self.lemma_toc_entry(0);
    }

    proof fn lemma_toc_entry(self, i: int)
        requires
            0 <= i,
        ensures
            self.toc_entry_here(i) matches Some(k) ==> i <= k < self.toc.len()
                && self.toc[k].spine_idx == self.chapter,
        decreases self.toc.len() - i,
    {
        if i < self.toc.len() && self.toc[i].spine_idx != self.chapter {
            self.lemma_toc_entry(i + 1);
        }
    }
}

} // verus!
