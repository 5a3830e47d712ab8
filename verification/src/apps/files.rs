//! The file browser: a page of the card's root directory at a time, while the
//! titles of books are looked up in the background.

use vstd::prelude::*;

use crate::apps::settings::words_of;
use crate::board::action::{Action, ActionEvent};
use crate::bytes::{decimal, push_bytes, push_decimal, text_bytes};
use crate::kernel::app::{AppContext, AppId, ContextView, Transition};
use crate::ui::{
    put, shown, Alignment, Draw, DrawView, Region, Screen, UiFont, UiFonts, Words, WordsView,
};

verus! {

pub const PAGE_SIZE: usize = 7;

pub const LIST_X: u16 = 16;

pub const LIST_W: u16 = 448;

pub const ROW_H: u16 = 52;

/// From one row to the next.
pub const ROW_STRIDE: u16 = 56;

/// A file or directory, and the name to show for it.
pub struct DirEntry {
    pub name: Vec<u8>,
    pub label: Vec<u8>,
    pub is_dir: bool,
}

/// A file or directory, as a value.
pub struct EntryView {
    pub name: Seq<u8>,
    pub label: Seq<u8>,
    pub is_dir: bool,
}

impl View for DirEntry {
    type V = EntryView;

    open spec fn view(&self) -> EntryView {
        EntryView { name: self.name@, label: self.label@, is_dir: self.is_dir }
    }
}

pub open spec fn entries_view(e: Seq<DirEntry>) -> Seq<EntryView> {
    e.map_values(|d: DirEntry| d@)
}

/// What the app has to do in the background.
#[derive(Debug, Clone, Copy, PartialEq, Eq, Structural)]
pub enum FilesWork {
    Idle,
    /// List a page from `offset` on, after reading the directory again where
    /// `refresh` is set, and hand it to `page_loaded`.
    LoadPage { offset: usize, refresh: bool },
    /// Look up the title of one book, the first from `from` on that has none,
    /// and hand the outcome to `title_scanned`.
    ScanTitle { from: usize },
}

/// The outcome of looking up one title.
#[derive(Debug, Clone, Copy, PartialEq, Eq, Structural)]
pub struct TitleScanResult {
    pub next_idx: usize,
    pub resolved: bool,
}

pub struct FilesApp {
    /// The entries on screen.
    pub entries: Vec<DirEntry>,
    pub total: usize,
    /// The first entry on screen.
    pub scroll: usize,
    /// The selected row.
    pub selected: usize,
    pub needs_load: bool,
    pub stale_cache: bool,
    pub error: Option<&'static str>,
    pub ui_fonts: UiFonts,
    pub list_y: u16,
    pub title_scan_idx: usize,
    pub title_scanning: bool,
    pub screen: Screen,
}

/// The value of the browser.
pub struct FilesView {
    pub entries: Seq<EntryView>,
    pub total: usize,
    pub scroll: usize,
    pub selected: usize,
    pub needs_load: bool,
    pub stale_cache: bool,
    pub error: Option<&'static str>,
    pub ui_fonts: UiFonts,
    pub list_y: u16,
    pub title_scan_idx: usize,
    pub title_scanning: bool,
    pub screen: Screen,
}

impl View for FilesApp {
    type V = FilesView;

    open spec fn view(&self) -> FilesView {
        FilesView {
            entries: entries_view(self.entries@),
            total: self.total,
            scroll: self.scroll,
            selected: self.selected,
            needs_load: self.needs_load,
            stale_cache: self.stale_cache,
            error: self.error,
            ui_fonts: self.ui_fonts,
            list_y: self.list_y,
            title_scan_idx: self.title_scan_idx,
            title_scanning: self.title_scanning,
            screen: self.screen,
        }
    }
}

/// Where the list starts.
pub open spec fn list_top(screen: Screen, fonts: UiFonts) -> int {
    screen.content_top + 8 + fonts.heading + 8
}

/// The list fits in the coordinates there are.
pub open spec fn list_fits(screen: Screen, fonts: UiFonts) -> bool {
    list_top(screen, fonts) + PAGE_SIZE * ROW_STRIDE <= u16::MAX
}

impl FilesView {
    pub open spec fn wf(self) -> bool {
        &&& self.entries.len() <= PAGE_SIZE
        &&& self.selected < PAGE_SIZE
        &&& self.total + 2 * PAGE_SIZE <= usize::MAX
        &&& self.scroll + 2 * PAGE_SIZE <= usize::MAX
        &&& self.screen.wf()
        &&& self.list_y == list_top(self.screen, self.ui_fonts)
        &&& list_fits(self.screen, self.ui_fonts)
    }

    pub open spec fn count(self) -> int {
        self.entries.len() as int
    }

    pub open spec fn row(self, i: int) -> Region {
        Region { x: LIST_X, y: (self.list_y + i * ROW_STRIDE) as u16, w: LIST_W, h: ROW_H }
    }

    pub open spec fn list(self) -> Region {
        Region { x: LIST_X, y: self.list_y, w: LIST_W, h: 392 }
    }

    pub open spec fn status_area(self) -> Region {
        Region { x: 320, y: (self.screen.content_top + 8) as u16, w: 144, h: 28 }
    }

    /// Another row on screen is selected.
    pub open spec fn row_moved(self, to: int, c: ContextView) -> (FilesView, ContextView) {
        (
            FilesView { selected: to as usize, ..self },
            c.dirty(self.row(self.selected as int)).dirty(self.row(to)).dirty(self.status_area()),
        )
    }

    pub open spec fn scrolled(self, scroll: int, selected: int) -> FilesView {
        FilesView {
            scroll: scroll as usize,
            selected: selected as usize,
            needs_load: true,
            ..self
        }
    }

    /// One entry up; before the first comes the last.
    pub open spec fn up(self, c: ContextView) -> (FilesView, ContextView) {
        let last_page = if self.total > PAGE_SIZE {
            self.total - PAGE_SIZE
        } else {
            0
        };
        if self.selected > 0 {
            self.row_moved(self.selected - 1, c)
        } else if self.scroll > 0 {
            (self.scrolled(self.scroll - 1, self.selected as int), c)
        } else if self.total > 0 {
            (self.scrolled(last_page, self.total - last_page - 1), c)
        } else {
            (self, c)
        }
    }

    /// One entry down; after the last comes the first.
    pub open spec fn down(self, c: ContextView) -> (FilesView, ContextView) {
        if self.selected + 1 < self.count() {
            self.row_moved(self.selected + 1, c)
        } else if self.scroll + self.count() < self.total {
            (self.scrolled(self.scroll + 1, self.selected as int), c)
        } else if self.total > 0 {
            (self.scrolled(0, 0), c)
        } else {
            (self, c)
        }
    }

    /// One page up, or to the first entry.
    pub open spec fn page_up(self) -> FilesView {
        if self.scroll > 0 {
            self.scrolled(
                if self.scroll > PAGE_SIZE {
                    self.scroll - PAGE_SIZE
                } else {
                    0
                },
                0,
            )
        } else {
            FilesView { selected: 0, ..self }
        }
    }

    /// One page down, or to the last entry.
    pub open spec fn page_down(self) -> FilesView {
        let remaining = self.total - (self.scroll + self.count());
        let room = remaining + self.count() - 1;
        if remaining > 0 {
            self.scrolled(
                self.scroll + if PAGE_SIZE < room {
                    PAGE_SIZE as int
                } else {
                    room
                },
                0,
            )
        } else if self.count() > 0 {
            FilesView { selected: (self.count() - 1) as usize, ..self }
        } else {
            self
        }
    }

    /// A page was turned: what is on screen already is drawn again.
    pub open spec fn list_drawn(self, c: ContextView) -> ContextView {
        if self.needs_load {
            c
        } else {
            c.dirty(self.list()).dirty(self.status_area())
        }
    }

    pub open spec fn reacted(self, e: ActionEvent, c: ContextView) -> (FilesView, ContextView) {
        match e {
            ActionEvent::Press(Action::Prev) | ActionEvent::Repeat(Action::Prev) => self.up(c),
            ActionEvent::Press(Action::Next) | ActionEvent::Repeat(Action::Next) => self.down(c),
            ActionEvent::Press(Action::PrevJump) => (
                self.page_up(),
                self.page_up().list_drawn(c),
            ),
            ActionEvent::Press(Action::NextJump) => (
                self.page_down(),
                self.page_down().list_drawn(c),
            ),
            ActionEvent::Press(Action::Select) => if self.opens_file() {
                (self, c.with_message(self.entries[self.selected as int].name))
            } else {
                (self, c)
            },
            _ => (self, c),
        }
    }

    /// A file is selected.
    pub open spec fn opens_file(self) -> bool {
        self.selected < self.count() && !self.entries[self.selected as int].is_dir
    }

    pub open spec fn led_to(self, e: ActionEvent) -> Transition {
        match e {
            ActionEvent::Press(Action::Back) => Transition::Pop,
            ActionEvent::LongPress(Action::Back) => Transition::Home,
            ActionEvent::Press(Action::Select) => if self.opens_file() {
                Transition::Push(AppId::Reader)
            } else {
                Transition::Stay
            },
            _ => Transition::Stay,
        }
    }

    pub open spec fn with_page(self, entries: Seq<EntryView>, total: usize) -> FilesView {
        let cut = if entries.len() < PAGE_SIZE {
            entries
        } else {
            entries.take(PAGE_SIZE as int)
        };
        FilesView {
            entries: cut,
            total,
            needs_load: false,
            error: None,
            selected: if self.selected >= cut.len() && cut.len() > 0 {
                (cut.len() - 1) as usize
            } else {
                self.selected
            },
            ..self
        }
    }

    pub open spec fn without_page(self, msg: &'static str) -> FilesView {
        FilesView { needs_load: false, error: Some(msg), entries: Seq::empty(), ..self }
    }

    /// What there is to do in the background.
    pub open spec fn work(self) -> FilesWork {
        if self.needs_load {
            FilesWork::LoadPage { offset: self.scroll, refresh: self.stale_cache }
        } else if self.title_scanning {
            FilesWork::ScanTitle { from: self.title_scan_idx }
        } else {
            FilesWork::Idle
        }
    }

    /// A title was looked up, or none is left.
    pub open spec fn scanned(self, outcome: Option<TitleScanResult>) -> FilesView {
        match outcome {
            Some(t) => FilesView {
                title_scan_idx: t.next_idx,
                needs_load: self.needs_load || t.resolved,
                ..self
            },
            None => FilesView { title_scanning: false, ..self },
        }
    }

    /// The page on screen is all that the directory has from there on.
    pub open spec fn in_step(self) -> bool {
        &&& self.scroll + self.count() <= self.total
        &&& self.count() == if self.total - self.scroll < PAGE_SIZE {
            self.total - self.scroll
        } else {
            PAGE_SIZE as int
        }
        &&& self.selected < self.count()
    }

    /// The selected entry's place in the directory.
    pub open spec fn position(self) -> int {
        self.scroll + self.selected
    }

    /// With the page on screen up to date, a step leads to the entry before or
    /// after, and from one end of the directory to the other.
    pub proof fn law_steps_walk_the_directory(self, c: ContextView)
        requires
            self.wf(),
            self.in_step(),
        ensures
            self.down(c).0.position() == if self.position() + 1 < self.total {
                self.position() + 1
            } else {
                0
            },
            self.up(c).0.position() == if self.position() > 0 {
                self.position() - 1
            } else {
                self.total - 1
            },
            self.down(c).0.wf(),
            self.up(c).0.wf(),
    {
    }

    pub open spec fn label(self, i: int, words: Seq<u8>, inverted: bool) -> DrawView {
        DrawView::Label {
            region: self.row(i),
            words: WordsView::Text(words),
            font: UiFont::Body,
            align: Alignment::CenterLeft,
            inverted,
        }
    }

    pub open spec fn rows_picture(self, n: int) -> Seq<DrawView>
        decreases n,
    {
        if n <= 0 {
            Seq::empty()
        } else {
            let i = n - 1;
            self.rows_picture(i).push(
                if i < self.count() {
                    self.label(i, self.entries[i].label, i == self.selected)
                } else {
                    DrawView::Clear(self.row(i))
                },
            )
        }
    }

    pub open spec fn head_picture(self) -> Seq<DrawView> {
        let title = DrawView::Label {
            region: Region {
                x: LIST_X,
                y: (self.screen.content_top + 8) as u16,
                w: 300,
                h: self.ui_fonts.heading,
            },
            words: WordsView::Text(text_bytes("Files")),
            font: UiFont::Heading,
            align: Alignment::CenterLeft,
            inverted: false,
        };
        if self.total > 0 {
            seq![
                title,
                DrawView::Label {
                    region: self.status_area(),
                    words: WordsView::Text(
                        decimal((self.position() + 1) as nat) + text_bytes("/") + decimal(
                            self.total as nat,
                        ),
                    ),
                    font: UiFont::Body,
                    align: Alignment::CenterRight,
                    inverted: false,
                },
            ]
        } else {
            seq![title]
        }
    }

    /// What the browser shows.
    pub open spec fn picture(self) -> Seq<DrawView> {
        self.head_picture() + match self.error {
            Some(msg) => seq![self.label(0, text_bytes(msg), false)],
            None => if self.count() > 0 {
                self.rows_picture(PAGE_SIZE as int)
            } else if self.needs_load {
                seq![self.label(0, text_bytes("Loading..."), false)]
            } else {
                seq![self.label(0, text_bytes("No files found"), false)]
            },
        }
    }
}

impl FilesApp {
    pub fn new(screen: Screen, fonts: UiFonts) -> (r: FilesApp)
        requires
            screen.wf(),
            list_fits(screen, fonts),
        ensures
            r@.wf(),
            r@ == (FilesView {
                entries: Seq::empty(),
                total: 0,
                scroll: 0,
                selected: 0,
                needs_load: false,
                stale_cache: false,
                error: None,
                ui_fonts: fonts,
                list_y: list_top(screen, fonts) as u16,
                title_scan_idx: 0,
                title_scanning: false,
                screen,
            }),
    {
        let r = FilesApp {
            entries: Vec::new(),
            total: 0,
            scroll: 0,
            selected: 0,
            needs_load: false,
            stale_cache: false,
            error: None,
            ui_fonts: fonts,
            list_y: screen.content_top + 8 + fonts.heading + 8,
            title_scan_idx: 0,
            title_scanning: false,
            screen,
        };
        assert(r@.entries =~= Seq::empty());
        r
    }

    /// Takes the fonts of size `idx` out of `sizes`.
    pub fn set_ui_font_size(&mut self, idx: u8, sizes: &[UiFonts])
        requires
            old(self)@.wf(),
            idx < sizes@.len(),
            list_fits(old(self)@.screen, sizes@[idx as int]),
        ensures
            final(self)@.wf(),
            final(self)@ == (FilesView {
                ui_fonts: sizes@[idx as int],
                list_y: list_top(old(self)@.screen, sizes@[idx as int]) as u16,
                ..old(self)@
            }),
    {
        self.ui_fonts = sizes[idx as usize];
        self.list_y = self.screen.content_top + 8 + self.ui_fonts.heading + 8;
    }

    pub fn selected_entry(&self) -> (r: Option<&DirEntry>)
        ensures
            r is Some <==> self@.selected < self@.count(),
            r matches Some(e) ==> e@ == self@.entries[self@.selected as int],
    {
        if self.selected < self.entries.len() {
            Some(&self.entries[self.selected])
        } else {
            None
        }
    }

    /// Takes a page of the directory.
    pub fn load_page(&mut self, entries: Vec<DirEntry>, total: usize)
        requires
            old(self)@.wf(),
            total + 2 * PAGE_SIZE <= usize::MAX,
        ensures
            final(self)@.wf(),
            final(self)@ == old(self)@.with_page(entries_view(entries@), total),
    {
        let ghost all = entries_view(entries@);
        let mut page = entries;
        if page.len() > PAGE_SIZE {
            page.truncate(PAGE_SIZE);
        }
        let ghost cut = if all.len() < PAGE_SIZE {
            all
        } else {
            all.take(PAGE_SIZE as int)
        };
        assert(entries_view(page@) =~= cut);
        let n = page.len();
        self.entries = page;
        self.total = total;
        self.needs_load = false;
        self.error = None;
        if self.selected >= n && n > 0 {
            self.selected = n - 1;
        }
    }

    pub fn load_failed(&mut self, msg: &'static str)
        requires
            old(self)@.wf(),
        ensures
            final(self)@.wf(),
            final(self)@ == old(self)@.without_page(msg),
    {
        self.needs_load = false;
        self.error = Some(msg);
        self.entries = Vec::new();
        assert(self@.entries =~= Seq::empty());
    }

    pub fn row_region(&self, i: usize) -> (r: Region)
        requires
            self@.wf(),
            i < PAGE_SIZE,
        ensures
            r == self@.row(i as int),
    {
        Region::new(LIST_X, self.list_y + i as u16 * ROW_STRIDE, LIST_W, ROW_H)
    }

    pub fn list_region(&self) -> (r: Region)
        ensures
            r == self@.list(),
    {
        Region::new(LIST_X, self.list_y, LIST_W, ROW_STRIDE * 7)
    }

    fn status_region(&self) -> (r: Region)
        requires
            self@.wf(),
        ensures
            r == self@.status_area(),
    {
        Region::new(320, self.screen.content_top + 8, 144, 28)
    }

    fn select_row(&mut self, to: usize, ctx: &mut AppContext)
        requires
            old(self)@.wf(),
            to < PAGE_SIZE,
        ensures
            final(self)@.wf(),
            (final(self)@, final(ctx)@) == old(self)@.row_moved(to as int, old(ctx)@),
    {
        let was = self.row_region(self.selected);
        let is = self.row_region(to);
        let status = self.status_region();
        self.selected = to;
        ctx.mark_dirty(was);
        ctx.mark_dirty(is);
        ctx.mark_dirty(status);
    }

    fn scroll_to(&mut self, scroll: usize, selected: usize)
        requires
            old(self)@.wf(),
            scroll + 2 * PAGE_SIZE <= usize::MAX,
            selected < PAGE_SIZE,
        ensures
            final(self)@.wf(),
            final(self)@ == old(self)@.scrolled(scroll as int, selected as int),
    {
        self.scroll = scroll;
        self.selected = selected;
        self.needs_load = true;
    }

    pub fn move_up(&mut self, ctx: &mut AppContext)
        requires
            old(self)@.wf(),
        ensures
            final(self)@.wf(),
            (final(self)@, final(ctx)@) == old(self)@.up(old(ctx)@),
    {
        let selected = self.selected;
        if selected > 0 {
            self.select_row(selected - 1, ctx);
        } else if self.scroll > 0 {
            self.scroll_to(self.scroll - 1, selected);
        } else if self.total > 0 {
            let last_page = if self.total > PAGE_SIZE {
                self.total - PAGE_SIZE
            } else {
                0
            };
            self.scroll_to(last_page, self.total - last_page - 1);
        }
    }

    pub fn move_down(&mut self, ctx: &mut AppContext)
        requires
            old(self)@.wf(),
        ensures
            final(self)@.wf(),
            (final(self)@, final(ctx)@) == old(self)@.down(old(ctx)@),
    {
        let selected = self.selected;
        if selected + 1 < self.entries.len() {
            self.select_row(selected + 1, ctx);
        } else if self.scroll + self.entries.len() < self.total {
            self.scroll_to(self.scroll + 1, selected);
        } else if self.total > 0 {
            self.scroll_to(0, 0);
        }
    }

    pub fn jump_up(&mut self)
        requires
            old(self)@.wf(),
        ensures
            final(self)@.wf(),
            final(self)@ == old(self)@.page_up(),
    {
        if self.scroll > 0 {
            let scroll = if self.scroll > PAGE_SIZE {
                self.scroll - PAGE_SIZE
            } else {
                0
            };
            self.scroll_to(scroll, 0);
        } else {
            self.selected = 0;
        }
    }

    pub fn jump_down(&mut self)
        requires
            old(self)@.wf(),
        ensures
            final(self)@.wf(),
            final(self)@ == old(self)@.page_down(),
    {
        let count = self.entries.len();
        let behind = self.scroll + count;
        if self.total > behind {
            let room = self.total - behind + count - 1;
            let step = if PAGE_SIZE < room {
                PAGE_SIZE
            } else {
                room
            };
            self.scroll_to(self.scroll + step, 0);
        } else if count > 0 {
            self.selected = count - 1;
        }
    }

    pub fn on_enter(&mut self, ctx: &mut AppContext)
        requires
            old(self)@.wf(),
        ensures
            final(self)@.wf(),
            final(self)@ == (FilesView {
                scroll: 0,
                selected: 0,
                needs_load: true,
                stale_cache: true,
                error: None,
                title_scan_idx: 0,
                title_scanning: true,
                ..old(self)@
            }),
            final(ctx)@ == old(ctx)@.dirty(old(self)@.screen.spec_content()),
    {
        self.scroll = 0;
        self.selected = 0;
        self.needs_load = true;
        self.stale_cache = true;
        self.error = None;
        self.title_scan_idx = 0;
        self.title_scanning = true;
        let region = self.screen.content();
        ctx.mark_dirty(region);
    }

    pub fn on_exit(&mut self)
        requires
            old(self)@.wf(),
        ensures
            final(self)@.wf(),
            final(self)@ == (FilesView {
                entries: Seq::empty(),
                title_scanning: false,
                ..old(self)@
            }),
    {
        self.entries = Vec::new();
        self.title_scanning = false;
        assert(self@.entries =~= Seq::empty());
    }

    pub fn on_suspend(&mut self)
        ensures
            *final(self) == *old(self),
    {
    }

    pub fn on_resume(&mut self, ctx: &mut AppContext)
        requires
            old(self)@.wf(),
        ensures
            *final(self) == *old(self),
            final(ctx)@ == old(ctx)@.dirty(old(self)@.screen.spec_content()),
    {
        let region = self.screen.content();
        ctx.mark_dirty(region);
    }

    /// What to do next in the background.
    pub fn background(&mut self) -> (r: FilesWork)
        requires
            old(self)@.wf(),
        ensures
            final(self)@.wf(),
            final(self)@ == (FilesView {
                stale_cache: old(self)@.stale_cache && !old(self)@.needs_load,
                ..old(self)@
            }),
            r == (if old(self)@.needs_load {
                FilesWork::LoadPage {
                    offset: old(self)@.scroll,
                    refresh: old(self)@.stale_cache,
                }
            } else if old(self)@.title_scanning {
                FilesWork::ScanTitle { from: old(self)@.title_scan_idx }
            } else {
                FilesWork::Idle
            }),
            r == old(self)@.work(),
    {
        if self.needs_load {
            let refresh = self.stale_cache;
            self.stale_cache = false;
            return FilesWork::LoadPage { offset: self.scroll, refresh };
        }
        if self.title_scanning {
            FilesWork::ScanTitle { from: self.title_scan_idx }
        } else {
            FilesWork::Idle
        }
    }

    /// A page was listed, or not.
    pub fn page_loaded(
        &mut self,
        page: Result<(Vec<DirEntry>, usize), &'static str>,
        ctx: &mut AppContext,
    )
        requires
            old(self)@.wf(),
            page matches Ok(p) ==> p.1 + 2 * PAGE_SIZE <= usize::MAX,
        ensures
            final(self)@.wf(),
            final(self)@ == (match page {
                Ok(p) => old(self)@.with_page(entries_view(p.0@), p.1),
                Err(e) => old(self)@.without_page(e),
            }),
            final(ctx)@ == old(ctx)@.dirty(old(self)@.list()).dirty(old(self)@.status_area()),
    {
        match page {
            Ok((entries, total)) => self.load_page(entries, total),
            Err(e) => self.load_failed(e),
        }
        let list = self.list_region();
        let status = self.status_region();
        ctx.mark_dirty(list);
        ctx.mark_dirty(status);
    }

    /// A title was looked up; `None` where no book is left without one. A
    /// title that was found is shown with the next page.
    pub fn title_scanned(&mut self, outcome: Option<TitleScanResult>)
        requires
            old(self)@.wf(),
        ensures
            final(self)@.wf(),
            final(self)@ == (match outcome {
                Some(t) => FilesView {
                    title_scan_idx: t.next_idx,
                    needs_load: old(self)@.needs_load || t.resolved,
                    ..old(self)@
                },
                None => FilesView { title_scanning: false, ..old(self)@ },
            }),
            final(self)@ == old(self)@.scanned(outcome),
    {
        match outcome {
            Some(t) => {
                self.title_scan_idx = t.next_idx;
                if t.resolved {
                    self.needs_load = true;
                }
            },
            None => {
                self.title_scanning = false;
            },
        }
    }

    fn redraw_list(&self, ctx: &mut AppContext)
        requires
            self@.wf(),
        ensures
            final(ctx)@ == self@.list_drawn(old(ctx)@),
    {
        if !self.needs_load {
            let list = self.list_region();
            let status = self.status_region();
            ctx.mark_dirty(list);
            ctx.mark_dirty(status);
        }
    }

    pub fn on_event(&mut self, event: ActionEvent, ctx: &mut AppContext) -> (r: Transition)
        requires
            old(self)@.wf(),
        ensures
            final(self)@.wf(),
            (final(self)@, final(ctx)@) == old(self)@.reacted(event, old(ctx)@),
            r == old(self)@.led_to(event),
    {
        match event {
            ActionEvent::Press(Action::Back) => Transition::Pop,
            ActionEvent::LongPress(Action::Back) => Transition::Home,
            ActionEvent::Press(Action::Prev) | ActionEvent::Repeat(Action::Prev) => {
                self.move_up(ctx);
                Transition::Stay
            },
            ActionEvent::Press(Action::Next) | ActionEvent::Repeat(Action::Next) => {
                self.move_down(ctx);
                Transition::Stay
            },
            ActionEvent::Press(Action::PrevJump) => {
                self.jump_up();
                self.redraw_list(ctx);
                Transition::Stay
            },
            ActionEvent::Press(Action::NextJump) => {
                self.jump_down();
                self.redraw_list(ctx);
                Transition::Stay
            },
            ActionEvent::Press(Action::Select) => {
                if let Some(entry) = self.selected_entry() {
                    if !entry.is_dir {
                        ctx.set_message(entry.name.as_slice());
                        return Transition::Push(AppId::Reader);
                    }
                }
                Transition::Stay
            },
            _ => Transition::Stay,
        }
    }

    fn draw_label(&self, ops: &mut Vec<Draw>, i: usize, words: Vec<u8>, inverted: bool)
        requires
            self@.wf(),
            i < PAGE_SIZE,
        ensures
            shown(final(ops)@) == shown(old(ops)@).push(self@.label(i as int, words@, inverted)),
    {
        put(
            ops,
            Draw::Label {
                region: self.row_region(i),
                words: Words::Text(words),
                font: UiFont::Body,
                align: Alignment::CenterLeft,
                inverted,
            },
        );
    }

    fn draw_head(&self) -> (r: Vec<Draw>)
        requires
            self@.wf(),
        ensures
            shown(r@) == self@.head_picture(),
    {
        let mut ops: Vec<Draw> = Vec::new();
        assert(shown(ops@) =~= Seq::empty());
        put(
            &mut ops,
            Draw::Label {
                region: Region::new(LIST_X, self.screen.content_top + 8, 300, self.ui_fonts.heading),
                words: Words::Text(words_of("Files")),
                font: UiFont::Heading,
                align: Alignment::CenterLeft,
                inverted: false,
            },
        );
        if self.total > 0 {
            let mut t: Vec<u8> = Vec::new();
            push_decimal(&mut t, (self.scroll + self.selected + 1) as u64);
            assert(t@ =~= decimal((self@.position() + 1) as nat));
            push_bytes(&mut t, "/".as_bytes());
            push_decimal(&mut t, self.total as u64);
            put(
                &mut ops,
                Draw::Label {
                    region: self.status_region(),
                    words: Words::Text(t),
                    font: UiFont::Body,
                    align: Alignment::CenterRight,
                    inverted: false,
                },
            );
        }
        assert(shown(ops@) =~= self@.head_picture());
        ops
    }

    /// What to draw, in order.
    pub fn draw(&self) -> (r: Vec<Draw>)
        requires
            self@.wf(),
        ensures
            shown(r@) == self@.picture(),
    {
        let mut ops = self.draw_head();
        let ghost head = shown(ops@);
        if let Some(msg) = self.error {
            self.draw_label(&mut ops, 0, words_of(msg), false);
            assert(shown(ops@) =~= self@.picture());
            return ops;
        }
        if self.entries.len() == 0 {
            let words = if self.needs_load {
                words_of("Loading...")
            } else {
                words_of("No files found")
            };
            self.draw_label(&mut ops, 0, words, false);
            assert(shown(ops@) =~= self@.picture());
            return ops;
        }
        let mut i: usize = 0;
        assert(shown(ops@) =~= head + self@.rows_picture(0));
        while i < PAGE_SIZE
            invariant
                i <= PAGE_SIZE,
                self@.wf(),
                shown(ops@) == head + self@.rows_picture(i as int),
            decreases PAGE_SIZE - i,
        {
            let ghost so_far = self@.rows_picture(i as int);
            if i < self.entries.len() {
                let mut words: Vec<u8> = Vec::new();
                push_bytes(&mut words, self.entries[i].label.as_slice());
                assert(words@ =~= self@.entries[i as int].label);
                self.draw_label(&mut ops, i, words, i == self.selected);
            } else {
                put(&mut ops, Draw::Clear(self.row_region(i)));
            }
            assert(shown(ops@) =~= head + self@.rows_picture(i + 1));
            i += 1;
        }
        ops
    }
}

} // verus!
