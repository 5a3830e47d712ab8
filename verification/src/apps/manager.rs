//! The apps as one: which of them gets an event, what leaving and entering an
//! app takes, and how settings that one app changes reach the others.
//!
//! The home screen, the quick menu and the stack of apps are the caller's:
//! where it is their turn, the functions here say so.

use vstd::prelude::*;

use crate::apps::files::{list_fits, list_top, FilesApp, FilesView};
use crate::apps::reader::app::{
    law_book_reopens_where_it_was_left, usable, QuickAction, ReaderApp, ReaderView, State, QA_FONT_SIZE,
};
use crate::apps::reader::cache::BgCacheState;
use crate::apps::settings::{
    first_row, loaded_config, opt_view, SettingsApp, NUM_ITEMS, ROW_STRIDE,
};
use crate::board::action::{event_of, Action, ActionEvent, ButtonMapper};
use crate::drivers::input::Event;
use crate::fonts::{set_of, FontSet};
use crate::kernel::app::{
    AppContext, AppId, ContextView, NavEvent, PendingSetting, Transition, Wish,
};
use crate::kernel::bookmarks::{self, BookmarkCache};
use crate::kernel::config::{config_of, SystemSettings, WifiConfig, DEFAULT_MAX_FONT_IDX};
use crate::ui::{Region, Screen, UiFonts};

verus! {

/// What became of a button event.
#[derive(Debug, Clone, Copy, PartialEq, Eq, Structural)]
pub enum Dispatch {
    /// An app took it.
    Done(Transition),
    /// The open quick menu takes it; its answer goes to `handle_quick_menu`.
    ToMenu(Action),
    /// Open the quick menu with the `quick_actions`, and report to
    /// `menu_drawn`.
    OpenMenu,
    /// The home screen takes it.
    ToHome(ActionEvent),
}

/// The quick menu's answer to an action.
#[derive(Debug, Clone, Copy, PartialEq, Eq, Structural)]
pub enum MenuResult {
    /// It stays open, and is drawn again where something changed.
    Consumed { changed: bool },
    Close,
    RefreshScreen,
    GoHome,
    AppTrigger(u8),
}

/// What became of the quick menu's answer.
#[derive(Debug, Clone, Copy, PartialEq, Eq, Structural)]
pub enum MenuStep {
    Done(Transition),
    /// The home screen has to carry out the choice; then `menu_drawn`.
    TriggerHome(u8),
}

/// A value that was picked in the quick menu.
#[derive(Debug, Clone, Copy, PartialEq, Eq, Structural)]
pub struct Picked {
    pub id: u8,
    pub value: u8,
}

/// A part of the background work.
#[derive(Debug, Clone, Copy, PartialEq, Eq, Structural)]
pub enum Background {
    Active(AppId),
    /// An app that is not active goes on.
    Suspended(AppId),
}

/// A layer of the screen, the lowest first.
#[derive(Debug, Clone, Copy, PartialEq, Eq, Structural)]
pub enum Layer {
    App(AppId),
    QuickMenu,
    ButtonLabels,
}

/// How the book that the reader enters is known.
#[derive(Debug, Clone, Copy, PartialEq, Eq, Structural)]
pub struct BookKey {
    /// The hash of its name.
    pub key: u32,
    /// Its name is that of an EPUB file.
    pub epub: bool,
    /// The worker's generation after it was reset.
    pub generation: u16,
}

/// What is left to do for an app that was left.
#[derive(Debug, Clone, Copy, PartialEq, Eq, Structural)]
pub enum Left {
    Done,
    /// The worker has to drop what it does for the closed book.
    ResetWorker,
    /// The home screen was left.
    ByHome,
}

/// What is left to do for an app that was entered.
#[derive(Debug, Clone, Copy, PartialEq, Eq, Structural)]
pub enum Entered {
    Done,
    /// The worker's results count under this generation again.
    SetGeneration(u16),
    /// The app has to be entered, or resumed, by the caller.
    ByCaller(AppId),
}

pub struct AppManager {
    pub active: AppId,
    /// The reader has a book open.
    pub reading: bool,
    pub ctx: AppContext,
    pub files: FilesApp,
    pub reader: ReaderApp,
    pub settings: SettingsApp,
    pub mapper: ButtonMapper,
    pub screen: Screen,
}

/// The value of the manager.
pub struct ManagerView {
    pub active: AppId,
    pub reading: bool,
    pub ctx: ContextView,
    pub files: FilesView,
    pub reader: ReaderView,
    pub settings: SettingsApp,
    pub screen: Screen,
}

impl View for AppManager {
    type V = ManagerView;

    open spec fn view(&self) -> ManagerView {
        ManagerView {
            active: self.active,
            reading: self.reading,
            ctx: self.ctx@,
            files: self.files@,
            reader: self.reader@,
            settings: self.settings,
            screen: self.screen,
        }
    }
}

/// The lists of the apps fit on the screen in this size.
pub open spec fn size_fits(screen: Screen, fonts: UiFonts) -> bool {
    &&& list_fits(screen, fonts)
    &&& first_row(screen, fonts) + (NUM_ITEMS - 1) * ROW_STRIDE <= u16::MAX
}

/// The values that were picked in a book's quick menu, one after the other:
/// only the font size means anything. `fonts` are those of all sizes.
pub open spec fn picked(r: ReaderView, picks: Seq<Picked>, fonts: Seq<FontSet>) -> ReaderView {
    match size_picked(picks) {
        Some(v) => r.resized(v, fonts),
        None => r,
    }
}

/// The font size among the values that were picked.
pub open spec fn size_picked(picks: Seq<Picked>) -> Option<u8>
    decreases picks.len(),
{
    if picks.len() == 0 {
        None
    } else if picks[0].id == QA_FONT_SIZE {
        Some(picks[0].value)
    } else {
        size_picked(picks.skip(1))
    }
}

impl ManagerView {
    pub open spec fn wf(self) -> bool {
        &&& self.files.wf()
        &&& self.settings.wf()
        &&& self.reader.sound()
        &&& self.reading ==> self.reader.wf()
        &&& self.active == AppId::Reader ==> self.reading
        &&& self.files.screen == self.screen
        &&& self.settings.screen == self.screen
    }

    pub open spec fn whole(self) -> Region {
        Region { x: 0, y: 0, w: self.screen.w, h: self.screen.h }
    }

    /// The active app takes an event.
    pub open spec fn app_reacted(self, e: ActionEvent) -> (ManagerView, Dispatch) {
        match self.active {
            AppId::Files => {
                let (files, ctx) = self.files.reacted(e, self.ctx);
                (ManagerView { files, ctx, ..self }, Dispatch::Done(self.files.led_to(e)))
            },
            AppId::Reader => {
                let (reader, ctx) = self.reader.reacted(e, self.ctx);
                (
                    ManagerView { reader, ctx, ..self },
                    Dispatch::Done(
                        if self.reader.state == State::ShowToc {
                            Transition::Stay
                        } else {
                            left_by(e)
                        },
                    ),
                )
            },
            AppId::Settings => {
                let (settings, ctx) = self.settings.reacted(e, self.ctx);
                (ManagerView { settings, ctx, ..self }, Dispatch::Done(left_by(e)))
            },
            _ => (self, Dispatch::ToHome(e)),
        }
    }

    /// A button event goes to the open menu, opens it, or goes to the active
    /// app.
    pub open spec fn dispatched(self, hw: Event, menu_open: bool) -> (ManagerView, Dispatch) {
        let e = event_of(hw);
        if menu_open {
            (
                self,
                match e {
                    ActionEvent::Press(a) | ActionEvent::Repeat(a) => Dispatch::ToMenu(a),
                    _ => Dispatch::Done(Transition::Stay),
                },
            )
        } else if e == ActionEvent::Press(Action::Menu) {
            (self, Dispatch::OpenMenu)
        } else {
            self.app_reacted(e)
        }
    }

    /// The font size that the reader changed becomes a setting, to be saved.
    pub open spec fn with_setting(self, pending: Option<PendingSetting>) -> ManagerView {
        match pending {
            Some(PendingSetting::BookFontSize(idx)) => if self.settings.settings.book_font_size_idx
                != idx {
                ManagerView {
                    settings: SettingsApp {
                        settings: SystemSettings {
                            book_font_size_idx: idx,
                            ..self.settings.settings
                        },
                        save_needed: true,
                        ..self.settings
                    },
                    ..self
                }
            } else {
                self
            },
            None => self,
        }
    }

    /// What was picked in the quick menu reaches the active app and the
    /// settings. `home` is what the home screen makes of it.
    pub open spec fn synced(
        self,
        picks: Seq<Picked>,
        fonts: Seq<FontSet>,
        home: Option<PendingSetting>,
    ) -> ManagerView {
        if self.active == AppId::Reader {
            let reader = picked(self.reader, picks, fonts);
            ManagerView { reader, ..self }.with_setting(
                Some(PendingSetting::BookFontSize(reader.book_font_size_idx)),
            )
        } else if self.active == AppId::Home {
            self.with_setting(home)
        } else {
            self
        }
    }

    /// A choice from the quick menu.
    pub open spec fn triggered(self, id: u8, region: Region) -> (ManagerView, MenuStep) {
        if self.active == AppId::Home {
            (self, MenuStep::TriggerHome(id))
        } else {
            let (reader, ctx) = if self.active == AppId::Reader {
                self.reader.triggered(id, self.ctx)
            } else {
                (self.reader, self.ctx)
            };
            (
                ManagerView { reader, ctx: ctx.dirty(region), ..self },
                MenuStep::Done(Transition::Stay),
            )
        }
    }

    /// The quick menu's answer is carried out.
    pub open spec fn answered(
        self,
        result: MenuResult,
        region: Region,
        picks: Seq<Picked>,
        fonts: Seq<FontSet>,
        home: Option<PendingSetting>,
    ) -> (ManagerView, MenuStep) {
        let s = self.synced(picks, fonts, home);
        match result {
            MenuResult::Consumed { changed } => (
                if changed {
                    ManagerView { ctx: self.ctx.dirty(region), ..self }
                } else {
                    self
                },
                MenuStep::Done(Transition::Stay),
            ),
            MenuResult::Close => (
                ManagerView { ctx: s.ctx.dirty(region), ..s },
                MenuStep::Done(Transition::Stay),
            ),
            MenuResult::RefreshScreen => (
                ManagerView { ctx: s.ctx.full(), ..s },
                MenuStep::Done(Transition::Stay),
            ),
            MenuResult::GoHome => (s, MenuStep::Done(Transition::Home)),
            MenuResult::AppTrigger(id) => s.triggered(id, region),
        }
    }

    /// An app is left: closed, or only suspended.
    pub open spec fn left(self, nav: NavEvent) -> ManagerView {
        if nav.suspend {
            self
        } else if nav.from == AppId::Files {
            ManagerView {
                files: FilesView {
                    entries: Seq::empty(),
                    title_scanning: false,
                    ..self.files
                },
                ..self
            }
        } else if nav.from == AppId::Reader {
            ManagerView { reader: self.reader.closed(), reading: false, ..self }
        } else {
            self
        }
    }

    /// What is left to do after an app was left.
    pub open spec fn left_to_do(self, nav: NavEvent) -> Left {
        match nav.from {
            AppId::Home => Left::ByHome,
            AppId::Reader => if !nav.suspend && self.reader.is_epub {
                Left::ResetWorker
            } else {
                Left::Done
            },
            _ => Left::Done,
        }
    }

    /// Every app takes the fonts that the settings ask for.
    pub open spec fn with_fonts(self, sizes: Seq<UiFonts>, fonts: Seq<FontSet>) -> ManagerView {
        let s = self.settings.settings;
        let ui = sizes[s.ui_font_size_idx as int];
        ManagerView {
            files: FilesView {
                ui_fonts: ui,
                list_y: list_top(self.screen, ui) as u16,
                ..self.files
            },
            settings: SettingsApp {
                ui_fonts: ui,
                items_top: first_row(self.screen, ui) as u16,
                ..self.settings
            },
            reader: ReaderView {
                has_chrome_font: true,
                ..ReaderView { book_font_size_idx: s.book_font_size_idx, ..self.reader }.with_fonts(
                    fonts,
                ).with_actions()
            },
            ..self
        }
    }

    /// An app is entered for the first time.
    pub open spec fn entered(
        self,
        to: AppId,
        book: BookKey,
        fonts: Seq<FontSet>,
    ) -> (ManagerView, Entered) {
        match to {
            AppId::Files => (
                ManagerView {
                    files: FilesView {
                        scroll: 0,
                        selected: 0,
                        needs_load: true,
                        stale_cache: true,
                        error: None,
                        title_scan_idx: 0,
                        title_scanning: true,
                        ..self.files
                    },
                    ctx: self.ctx.dirty(self.screen.spec_content()),
                    ..self
                },
                Entered::Done,
            ),
            AppId::Reader => (
                ManagerView {
                    reader: self.reader.opened(
                        self.ctx.message,
                        book.key,
                        book.epub,
                        book.generation,
                        fonts,
                    ),
                    reading: true,
                    ctx: self.ctx.dirty(self.reader.screen.page_area()),
                    ..self
                },
                Entered::Done,
            ),
            AppId::Settings => (
                ManagerView {
                    settings: SettingsApp { selected: 0, save_needed: false, ..self.settings },
                    ctx: self.ctx.dirty(self.screen.spec_content()),
                    ..self
                },
                Entered::Done,
            ),
            AppId::Home => (self, Entered::ByCaller(to)),
            AppId::Upload => (self, Entered::Done),
        }
    }

    /// A suspended app is active again.
    pub open spec fn resumed(self, to: AppId, fonts: Seq<FontSet>) -> (ManagerView, Entered) {
        match to {
            AppId::Files => (
                ManagerView { ctx: self.ctx.dirty(self.screen.spec_content()), ..self },
                Entered::Done,
            ),
            AppId::Reader => {
                let s = self.reader.with_fonts(fonts);
                (
                    ManagerView {
                        reader: if self.reader.book_font_size_idx != self.reader.applied_font_idx {
                            ReaderView { state: s.after_font_change(), ..s.rewound() }
                        } else {
                            s
                        },
                        ctx: self.ctx.dirty(self.reader.screen.page_area()),
                        ..self
                    },
                    if self.reader.work_gen != 0 {
                        Entered::SetGeneration(self.reader.work_gen)
                    } else {
                        Entered::Done
                    },
                )
            },
            AppId::Settings | AppId::Home => (self, Entered::ByCaller(to)),
            AppId::Upload => (self, Entered::Done),
        }
    }

    /// Coming back to an app draws the screen anew; a new app asks for a full
    /// refresh.
    pub open spec fn settled(self, resume: bool) -> ManagerView {
        ManagerView {
            ctx: if resume {
                self.ctx.dirty(self.whole())
            } else {
                self.ctx.full()
            },
            ..self
        }
    }

    /// One app was left, the fonts were handed out, and the other entered.
    pub open spec fn moved_on(
        self,
        nav: NavEvent,
        sizes: Seq<UiFonts>,
        fonts: Seq<FontSet>,
        book: BookKey,
        again: Seq<FontSet>,
    ) -> (ManagerView, Entered) {
        let s = ManagerView { active: nav.to, ..self.left(nav) }.with_fonts(sizes, fonts);
        if nav.resume {
            s.resumed(nav.to, again)
        } else {
            s.entered(nav.to, book, again)
        }
    }

    /// The change from one app to another, and its redraw unless the caller
    /// has to enter the app first.
    pub open spec fn applied(
        self,
        nav: NavEvent,
        sizes: Seq<UiFonts>,
        fonts: Seq<FontSet>,
        book: BookKey,
        again: Seq<FontSet>,
    ) -> ManagerView {
        let (s, e) = self.moved_on(nav, sizes, fonts, book, again);
        if e is ByCaller {
            s
        } else {
            s.settled(nav.resume)
        }
    }

    pub open spec fn background(self) -> Seq<Background> {
        let first = seq![Background::Active(self.active)];
        if self.active != AppId::Reader && self.reader.is_epub && self.reader.cache.bg
            != BgCacheState::Idle {
            first.push(Background::Suspended(AppId::Reader))
        } else {
            first
        }
    }

    /// A book's font size that was picked in its quick menu is the setting
    /// afterwards, and is still the reader's once the settings have been
    /// handed out to all apps.
    pub proof fn law_picked_size_becomes_the_setting(
        self,
        picks: Seq<Picked>,
        fonts: Seq<FontSet>,
        home: Option<PendingSetting>,
        sizes: Seq<UiFonts>,
    )
        requires
            self.wf(),
            self.active == AppId::Reader,
        ensures
            size_picked(picks) matches Some(v) ==> ({
                let s = self.synced(picks, fonts, home);
                &&& s.settings.settings.book_font_size_idx == v
                &&& s.reader.book_font_size_idx == v
                &&& s.with_fonts(sizes, fonts).reader.book_font_size_idx == v
                &&& self.settings.settings.book_font_size_idx != v ==> s.settings.save_needed
            }),
    {
    }

    /// The fonts that are handed out are those of the sizes that are set.
    pub proof fn law_fonts_follow_the_settings(self, sizes: Seq<UiFonts>, fonts: Seq<FontSet>)
        ensures
            ({
                let s = self.with_fonts(sizes, fonts);
                let set = self.settings.settings;
                &&& s.settings.settings == set
                &&& s.files.ui_fonts == sizes[set.ui_font_size_idx as int]
                &&& s.settings.ui_fonts == sizes[set.ui_font_size_idx as int]
                &&& s.reader.pager.face.fonts == set_of(fonts, set.book_font_size_idx as int)
                &&& s.reader.applied_font_idx == set.book_font_size_idx
            }),
    {
    }

    /// With the quick menu open no app sees an event, and nothing changes but
    /// through the menu.
    pub proof fn law_open_menu_takes_all(self, hw: Event)
        ensures
            self.dispatched(hw, true).0 == self,
            self.dispatched(hw, true).1 is ToMenu || self.dispatched(hw, true).1 == Dispatch::Done(
                Transition::Stay,
            ),
    {
    }

    /// With the menu closed an event reaches the active app, and that app alone.
    /// Only the menu button is the menu's.
    pub proof fn law_events_reach_the_active_app(self, hw: Event)
        ensures
            ({
                let e = event_of(hw);
                let (s, d) = self.dispatched(hw, false);
                &&& d == Dispatch::OpenMenu <==> e == ActionEvent::Press(Action::Menu)
                &&& d == Dispatch::OpenMenu ==> s == self
                &&& s.active == self.active && s.reading == self.reading && s.screen == self.screen
                &&& self.active != AppId::Files ==> s.files == self.files
                &&& self.active != AppId::Reader ==> s.reader == self.reader
                &&& self.active != AppId::Settings ==> s.settings == self.settings
                &&& self.active == AppId::Home ==> s == self && (d == Dispatch::ToHome(e) || d
                    == Dispatch::OpenMenu)
                &&& d != Dispatch::OpenMenu && self.active == AppId::Files ==> (s.files, s.ctx)
                    == self.files.reacted(e, self.ctx)
                &&& d != Dispatch::OpenMenu && self.active == AppId::Reader ==> (s.reader, s.ctx)
                    == self.reader.reacted(e, self.ctx)
                &&& d != Dispatch::OpenMenu && self.active == AppId::Settings ==> (
                    s.settings,
                    s.ctx,
                ) == self.settings.reacted(e, self.ctx)
            }),
    {
    }

    /// The back button leads out of every app, a step back where it is pressed
    /// and home where it is held. Only the open contents of a book keep it.
    pub proof fn law_back_leads_out(self, hw: Event)
        requires
            self.active == AppId::Files || self.active == AppId::Reader || self.active
                == AppId::Settings,
            self.active == AppId::Reader ==> self.reader.state != State::ShowToc,
        ensures
            event_of(hw) == ActionEvent::Press(Action::Back) ==> self.dispatched(hw, false).1
                == Dispatch::Done(Transition::Pop),
            event_of(hw) == ActionEvent::LongPress(Action::Back) ==> self.dispatched(hw, false).1
                == Dispatch::Done(Transition::Home),
            event_of(hw).spec_action() != Action::Back ==> self.dispatched(hw, false).1
                != Dispatch::Done(Transition::Pop) && self.dispatched(hw, false).1
                != Dispatch::Done(Transition::Home),
    {
    }

    /// An app that is suspended is left as it is; a book that is closed is closed
    /// with all its work, and a list that is left is let go.
    pub proof fn law_leaving_closes_what_is_left(self, nav: NavEvent)
        ensures
            ({
                let s = self.left(nav);
                &&& nav.suspend ==> s == self
                &&& nav.from != AppId::Reader ==> s.reader == self.reader && s.reading
                    == self.reading
                &&& nav.from != AppId::Files ==> s.files == self.files
                &&& s.settings == self.settings
                &&& !nav.suspend && nav.from == AppId::Reader ==> !s.reading
                    && s.reader.restore_offset is None && s.reader.page_img is None
                    && s.reader.pager.lines.len() == 0 && s.reader.pager.ch_cache.len() == 0
                &&& !nav.suspend && nav.from == AppId::Reader && self.reader.is_epub
                    ==> s.reader.cache.bg == BgCacheState::Idle && s.reader.toc.len() == 0
                    && self.left_to_do(nav) == Left::ResetWorker
                &&& !nav.suspend && nav.from == AppId::Files ==> s.files.count() == 0
                    && !s.files.title_scanning
            }),
    {
    }

    /// The reader opens the book that the message names; the browser begins at
    /// the top, with the directory read anew.
    pub proof fn law_entering_starts_anew(self, book: BookKey, fonts: Seq<FontSet>)
        requires
            self.ctx.message.len() <= crate::apps::reader::app::NAME_CAP,
        ensures
            ({
                let r = self.entered(AppId::Reader, book, fonts).0;
                &&& r.reading
                &&& r.reader.filename =~= self.ctx.message
                &&& r.reader.name_key == book.key
                &&& r.reader.is_epub == book.epub
                &&& r.reader.state == State::NeedBookmark
                &&& r.reader.chapter == 0
                &&& r.reader.pager.page == 0
                &&& r.ctx.message == self.ctx.message
            }),
            ({
                let f = self.entered(AppId::Files, book, fonts).0;
                &&& f.files.position() == 0
                &&& f.files.needs_load
                &&& f.files.stale_cache
                &&& f.files.title_scanning
                &&& f.files.title_scan_idx == 0
                &&& f.files.error is None
                &&& f.reader == self.reader
            }),
    {
    }

    /// A book that is come back to is where it was, unless its font size has
    /// changed meanwhile; then its text is set anew from the start of the
    /// chapter.
    pub proof fn law_resuming_keeps_the_place(self, fonts: Seq<FontSet>)
        ensures
            ({
                let r = self.resumed(AppId::Reader, fonts).0.reader;
                let same = self.reader.book_font_size_idx == self.reader.applied_font_idx;
                &&& r.chapter == self.reader.chapter
                &&& r.filename == self.reader.filename
                &&& r.cache == self.reader.cache
                &&& same ==> r.state == self.reader.state && r.pager.page == self.reader.pager.page
                    && r.pager.offsets == self.reader.pager.offsets && r.pager.lines
                    == self.reader.pager.lines
                &&& !same ==> r.state == if self.reader.is_epub && self.reader.cache.ready {
                    State::NeedIndex
                } else {
                    State::NeedPage
                }
                &&& !same ==> r.pager.page == 0 && r.pager.total_pages == 1
            }),
            self.resumed(AppId::Files, fonts).0.files == self.files,
    {
    }

    /// After a change of apps the new one is active, has the fonts that are set,
    /// and is drawn.
    pub proof fn law_the_new_app_is_active(
        self,
        nav: NavEvent,
        sizes: Seq<UiFonts>,
        fonts: Seq<FontSet>,
        book: BookKey,
        again: Seq<FontSet>,
    )
        ensures
            ({
                let s = self.applied(nav, sizes, fonts, book, again);
                let set = self.settings.settings;
                &&& s.active == nav.to
                &&& s.settings.settings == set
                &&& s.files.ui_fonts == sizes[set.ui_font_size_idx as int]
                &&& s.settings.ui_fonts == sizes[set.ui_font_size_idx as int]
                &&& s.reader.book_font_size_idx == set.book_font_size_idx
                &&& !(nav.to == AppId::Home || nav.to == AppId::Settings && nav.resume)
                    ==> s.ctx.wishes.len() > 0 && s.ctx.wishes.last() == if nav.resume {
                    Wish::MarkDirty(self.whole())
                } else {
                    Wish::FullRedraw
                }
            }),
    {
    }

    /// The active app's background work comes first; a suspended book goes on
    /// with its own as long as there is any.
    pub proof fn law_a_suspended_book_goes_on(self)
        ensures
            self.background()[0] == Background::Active(self.active),
            self.background().contains(Background::Suspended(AppId::Reader)) <==> self.active
                != AppId::Reader && self.reader.is_epub && self.reader.cache.bg
                != BgCacheState::Idle,
            self.background().len() <= 2,
    {
        if self.active != AppId::Reader && self.reader.is_epub && self.reader.cache.bg
            != BgCacheState::Idle {
            assert(self.background()[1] == Background::Suspended(AppId::Reader));
        }
    }

    /// What the menu is left with takes effect: a choice is carried out by the
    /// active app, and where the menu was is drawn again.
    pub proof fn law_menu_answers_are_carried_out(
        self,
        region: Region,
        picks: Seq<Picked>,
        fonts: Seq<FontSet>,
        home: Option<PendingSetting>,
        id: u8,
    )
        ensures
            ({
                let close = self.answered(MenuResult::Close, region, picks, fonts, home);
                let fresh = self.answered(MenuResult::RefreshScreen, region, picks, fonts, home);
                let home_way = self.answered(MenuResult::GoHome, region, picks, fonts, home);
                let chosen = self.answered(MenuResult::AppTrigger(id), region, picks, fonts, home);
                let kept = self.synced(picks, fonts, home);
                &&& close.0.ctx.wishes.last() == Wish::MarkDirty(region)
                &&& fresh.0.ctx.wishes.last() == Wish::FullRedraw
                &&& home_way.1 == MenuStep::Done(Transition::Home)
                &&& close.0.settings == kept.settings && close.0.reader == kept.reader
                &&& fresh.0.settings == kept.settings && fresh.0.reader == kept.reader
                &&& self.active == AppId::Home ==> chosen.1 == MenuStep::TriggerHome(id)
                &&& self.active == AppId::Reader ==> chosen.0.reader == kept.reader.triggered(
                    id,
                    kept.ctx,
                ).0
                &&& self.active != AppId::Home ==> chosen.0.ctx.wishes.last() == Wish::MarkDirty(
                    region,
                )
                &&& self.answered(
                    MenuResult::Consumed { changed: true },
                    region,
                    picks,
                    fonts,
                    home,
                ).0 == (ManagerView { ctx: self.ctx.dirty(region), ..self })
            }),
    {
    }
}

/// Where the back button leads out of an app.
pub open spec fn left_by(e: ActionEvent) -> Transition {
    match e {
        ActionEvent::Press(Action::Back) => Transition::Pop,
        ActionEvent::LongPress(Action::Back) => Transition::Home,
        _ => Transition::Stay,
    }
}

impl AppManager {
    /// The apps at the start, with the home screen active.
    pub fn new(
        files: FilesApp,
        reader: ReaderApp,
        settings: SettingsApp,
        mapper: ButtonMapper,
        screen: Screen,
    ) -> (r: AppManager)
        requires
            files@.wf(),
            reader@.wf(),
            settings.wf(),
            files@.screen == screen,
            settings.screen == screen,
        ensures
            r@.wf(),
            r@.active == AppId::Home,
            !r@.reading,
            r@.files == files@,
            r@.reader == reader@,
            r@.settings == settings,
            r@.ctx == (ContextView { wishes: Seq::empty(), message: Seq::empty() }),
            r@.screen == screen,
    {
        proof {
            reader@.lemma_wf();
        }
        AppManager {
            active: AppId::Home,
            reading: false,
            ctx: AppContext::new(),
            files,
            reader,
            settings,
            mapper,
            screen,
        }
    }

    pub fn active(&self) -> (r: AppId)
        ensures
            r == self@.active,
    {
        self.active
    }

    pub fn ctx(&self) -> (r: &AppContext)
        ensures
            r@ == self@.ctx,
    {
        &self.ctx
    }

    pub fn has_redraw(&self) -> (r: bool)
        ensures
            r == (self@.ctx.wishes.len() > 0),
    {
        self.ctx.wishes.len() > 0
    }

    /// Hands out what the apps ask for on the screen, in order.
    pub fn take_redraw(&mut self) -> (r: Vec<Wish>)
        ensures
            r@ == old(self)@.ctx.wishes,
            final(self)@ == (ManagerView {
                ctx: ContextView { wishes: Seq::empty(), ..old(self)@.ctx },
                ..old(self)@
            }),
    {
        let mut wishes: Vec<Wish> = Vec::new();
        core::mem::swap(&mut wishes, &mut self.ctx.wishes);
        assert(self@.ctx.wishes =~= Seq::empty());
        wishes
    }

    pub fn request_full_redraw(&mut self)
        ensures
            final(self)@ == (ManagerView { ctx: old(self)@.ctx.full(), ..old(self)@ }),
    {
        self.ctx.request_full_redraw();
    }

    /// The quick menu was opened or closed in `region`.
    pub fn menu_drawn(&mut self, region: Region)
        ensures
            final(self)@ == (ManagerView { ctx: old(self)@.ctx.dirty(region), ..old(self)@ }),
    {
        self.ctx.mark_dirty(region);
    }

    /// What the active app puts into the quick menu.
    pub fn quick_actions(&self) -> (r: &[QuickAction])
        ensures
            r@ == (if self@.active == AppId::Reader {
                self@.reader.quick
            } else {
                Seq::empty()
            }),
    {
        let all = self.reader.quick_actions();
        if self.active == AppId::Reader {
            all
        } else {
            let none = &all[0..0];
            assert(none@ =~= Seq::empty());
            none
        }
    }

    fn app_event(&mut self, event: ActionEvent) -> (r: Dispatch)
        requires
            old(self)@.wf(),
            old(self)@.active != AppId::Upload,
        ensures
            final(self)@.wf(),
            (final(self)@, r) == old(self)@.app_reacted(event),
    {
        match self.active {
            AppId::Files => Dispatch::Done(self.files.on_event(event, &mut self.ctx)),
            AppId::Reader => {
                let t = self.reader.on_event(event, &mut self.ctx);
                proof {
                    self.reader@.lemma_wf();
                }
                Dispatch::Done(t)
            },
            AppId::Settings => Dispatch::Done(self.settings.on_event(event, &mut self.ctx)),
            _ => Dispatch::ToHome(event),
        }
    }

    /// Sends a button event where it belongs. A long press of the power button
    /// never comes here.
    pub fn dispatch_event(&mut self, hw_event: Event, menu_open: bool) -> (r: Dispatch)
        requires
            old(self)@.wf(),
            old(self)@.active == AppId::Upload ==> menu_open,
        ensures
            final(self)@.wf(),
            (final(self)@, r) == old(self)@.dispatched(hw_event, menu_open),
    {
        let event = self.mapper.map_event(hw_event);
        if menu_open {
            return match event {
                ActionEvent::Press(a) | ActionEvent::Repeat(a) => Dispatch::ToMenu(a),
                _ => Dispatch::Done(Transition::Stay),
            };
        }
        if let ActionEvent::Press(Action::Menu) = event {
            return Dispatch::OpenMenu;
        }
        self.app_event(event)
    }

    fn store_setting(&mut self, pending: Option<PendingSetting>)
        requires
            old(self)@.wf(),
        ensures
            final(self)@.wf(),
            final(self)@ == old(self)@.with_setting(pending),
    {
        if let Some(PendingSetting::BookFontSize(idx)) = pending {
            let s = self.settings.system_settings_mut();
            if s.book_font_size_idx != idx {
                s.book_font_size_idx = idx;
                self.settings.mark_save_needed();
            }
        }
    }

    fn size_of_picks(picks: &[Picked]) -> (r: Option<u8>)
        ensures
            r == size_picked(picks@),
    {
        let mut i: usize = 0;
        assert(picks@.skip(0) =~= picks@);
        while i < picks.len()
            invariant
                i <= picks@.len(),
                size_picked(picks@) == size_picked(picks@.skip(i as int)),
            decreases picks@.len() - i,
        {
            assert(picks@.skip(i as int).skip(1) =~= picks@.skip(i + 1));
            if picks[i].id == QA_FONT_SIZE {
                return Some(picks[i].value);
            }
            i += 1;
        }
        None
    }

    /// Hands what was picked in the quick menu to the active app and to the
    /// settings. `fonts` are the book fonts of all sizes, and `home` is the
    /// setting that the home screen changed.
    pub fn sync_quick_menu(
        &mut self,
        picks: &[Picked],
        fonts: Vec<FontSet>,
        home: Option<PendingSetting>,
    )
        requires
            old(self)@.wf(),
            old(self)@.active != AppId::Upload,
            usable(fonts@),
        ensures
            final(self)@.wf(),
            final(self)@ == old(self)@.synced(picks@, fonts@, home),
    {
        match self.active {
            AppId::Reader => {
                if let Some(value) = AppManager::size_of_picks(picks) {
                    self.reader.on_quick_cycle_update(QA_FONT_SIZE, value, fonts);
                    proof {
                        self.reader@.lemma_wf();
                    }
                }
                let pending = self.reader.pending_setting();
                self.store_setting(pending);
            },
            AppId::Home => self.store_setting(home),
            _ => {},
        }
    }

    /// Carries out the quick menu's answer to an action; `region` is where
    /// the menu is. A book's place is noted after a choice from its menu.
    pub fn handle_quick_menu(
        &mut self,
        result: MenuResult,
        region: Region,
        picks: &[Picked],
        fonts: Vec<FontSet>,
        home: Option<PendingSetting>,
        bm: &mut BookmarkCache,
    ) -> (r: MenuStep)
        requires
            old(self)@.wf(),
            old(self)@.active == AppId::Upload ==> result is Consumed,
            usable(fonts@),
            old(bm).wf(),
        ensures
            final(self)@.wf(),
            (final(self)@, r) == old(self)@.answered(result, region, picks@, fonts@, home),
            final(bm).wf(),
            if result is AppTrigger && old(self)@.active == AppId::Reader {
                place_kept(final(self)@.reader, old(bm)@, final(bm)@)
            } else {
                *final(bm) == *old(bm)
            },
    {
        match result {
            MenuResult::Consumed { changed } => {
                if changed {
                    self.ctx.mark_dirty(region);
                }
                MenuStep::Done(Transition::Stay)
            },
            MenuResult::Close => {
                self.sync_quick_menu(picks, fonts, home);
                self.ctx.mark_dirty(region);
                MenuStep::Done(Transition::Stay)
            },
            MenuResult::RefreshScreen => {
                self.sync_quick_menu(picks, fonts, home);
                self.ctx.request_full_redraw();
                MenuStep::Done(Transition::Stay)
            },
            MenuResult::GoHome => {
                self.sync_quick_menu(picks, fonts, home);
                MenuStep::Done(Transition::Home)
            },
            MenuResult::AppTrigger(id) => {
                self.sync_quick_menu(picks, fonts, home);
                if self.active == AppId::Home {
                    return MenuStep::TriggerHome(id);
                }
                if self.active == AppId::Reader {
                    self.reader.on_quick_trigger(id, &mut self.ctx);
                    self.reader.save_state(bm);
                    proof {
                        self.reader@.lemma_wf();
                    }
                }
                self.ctx.mark_dirty(region);
                MenuStep::Done(Transition::Stay)
            },
        }
    }

    /// Leaves the app that `nav` starts from. The place in a book is noted.
    fn leave(&mut self, nav: NavEvent, bm: &mut BookmarkCache) -> (r: Left)
        requires
            old(self)@.wf(),
            nav.from == AppId::Reader ==> old(self)@.reading,
            old(bm).wf(),
        ensures
            final(self)@ == (ManagerView { active: nav.to, ..old(self)@.left(nav) }),
            final(self)@.files.wf(),
            final(self)@.reader.sound(),
            final(self)@.reading ==> final(self)@.reader.wf(),
            final(bm).wf(),
            if nav.from == AppId::Reader {
                place_kept(old(self)@.reader, old(bm)@, final(bm)@)
            } else {
                *final(bm) == *old(bm)
            },
            r == old(self)@.left_to_do(nav),
    {
        self.active = nav.to;
        match nav.from {
            AppId::Files => {
                if nav.suspend {
                    self.files.on_suspend();
                } else {
                    self.files.on_exit();
                }
                Left::Done
            },
            AppId::Reader => {
                self.reader.save_state(bm);
                if nav.suspend {
                    self.reader.on_suspend();
                    Left::Done
                } else {
                    self.reading = false;
                    if self.reader.on_exit() {
                        Left::ResetWorker
                    } else {
                        Left::Done
                    }
                }
            },
            AppId::Home => Left::ByHome,
            _ => Left::Done,
        }
    }

    /// Hands the fonts that the settings ask for to every app: those of the
    /// user interface out of `sizes`, and the book's out of `fonts`.
    pub fn propagate_fonts(&mut self, sizes: &[UiFonts], fonts: Vec<FontSet>)
        requires
            old(self)@.files.wf(),
            old(self)@.settings.wf(),
            old(self)@.reader.sound(),
            old(self)@.files.screen == old(self)@.screen,
            old(self)@.settings.screen == old(self)@.screen,
            old(self)@.settings.settings.ui_font_size_idx < sizes@.len(),
            size_fits(
                old(self)@.screen,
                sizes@[old(self)@.settings.settings.ui_font_size_idx as int],
            ),
            usable(fonts@),
        ensures
            final(self)@ == old(self)@.with_fonts(sizes@, fonts@),
            final(self)@.files.wf(),
            final(self)@.settings.wf(),
            final(self)@.reader.sound(),
            old(self)@.reader.wf() ==> final(self)@.reader.wf(),
    {
        let ui_idx = self.settings.system_settings().ui_font_size_idx;
        let book_idx = self.settings.system_settings().book_font_size_idx;
        self.files.set_ui_font_size(ui_idx, sizes);
        self.settings.set_ui_font_size(ui_idx, sizes);
        self.reader.set_book_font_size(book_idx, fonts);
        self.reader.set_chrome_font();
    }

    /// Enters the app that `nav` leads to, or comes back to it.
    fn enter(&mut self, nav: NavEvent, book: BookKey, fonts: Vec<FontSet>) -> (r: Entered)
        requires
            old(self)@.active == nav.to,
            old(self)@.files.wf(),
            old(self)@.settings.wf(),
            old(self)@.reader.sound(),
            old(self)@.files.screen == old(self)@.screen,
            old(self)@.settings.screen == old(self)@.screen,
            old(self)@.reading ==> old(self)@.reader.wf(),
            nav.to == AppId::Reader && nav.resume ==> old(self)@.reading,
            usable(fonts@),
        ensures
            final(self)@.wf(),
            (final(self)@, r) == (if nav.resume {
                old(self)@.resumed(nav.to, fonts@)
            } else {
                old(self)@.entered(nav.to, book, fonts@)
            }),
    {
        match nav.to {
            AppId::Files => {
                if nav.resume {
                    self.files.on_resume(&mut self.ctx);
                } else {
                    self.files.on_enter(&mut self.ctx);
                }
                Entered::Done
            },
            AppId::Reader => {
                if nav.resume {
                    let generation = self.reader.on_resume(&mut self.ctx, fonts);
                    proof {
                        self.reader@.lemma_wf();
                    }
                    match generation {
                        Some(g) => Entered::SetGeneration(g),
                        None => Entered::Done,
                    }
                } else {
                    self.reader.on_enter(
                        &mut self.ctx,
                        book.key,
                        book.epub,
                        book.generation,
                        fonts,
                    );
                    self.reading = true;
                    proof {
                        self.reader@.lemma_wf();
                    }
                    Entered::Done
                }
            },
            AppId::Settings => {
                if nav.resume {
                    return Entered::ByCaller(AppId::Settings);
                }
                self.settings.on_enter(&mut self.ctx);
                Entered::Done
            },
            AppId::Home => Entered::ByCaller(AppId::Home),
            AppId::Upload => Entered::Done,
        }
    }

    /// Changes from one app to another as `nav` says. `fonts` are the book fonts
    /// of all sizes, and `again` the same once more, for a book that is
    /// entered. Where the answer is `ByCaller`, `settle` follows the
    /// caller's entering.
    pub fn apply_transition(
        &mut self,
        nav: NavEvent,
        bm: &mut BookmarkCache,
        sizes: &[UiFonts],
        fonts: Vec<FontSet>,
        book: BookKey,
        again: Vec<FontSet>,
    ) -> (r: (Left, Entered))
        requires
            old(self)@.wf(),
            old(bm).wf(),
            nav.from == AppId::Reader ==> old(self)@.reading,
            nav.to == AppId::Reader && nav.resume ==> old(self)@.reading && (nav.from
                == AppId::Reader ==> nav.suspend),
            old(self)@.settings.settings.ui_font_size_idx < sizes@.len(),
            size_fits(
                old(self)@.screen,
                sizes@[old(self)@.settings.settings.ui_font_size_idx as int],
            ),
            usable(fonts@),
            usable(again@),
        ensures
            final(self)@.wf(),
            final(self)@ == old(self)@.applied(nav, sizes@, fonts@, book, again@),
            r.0 == old(self)@.left_to_do(nav),
            r.1 == old(self)@.moved_on(nav, sizes@, fonts@, book, again@).1,
            final(bm).wf(),
            if nav.from == AppId::Reader {
                place_kept(old(self)@.reader, old(bm)@, final(bm)@)
            } else {
                *final(bm) == *old(bm)
            },
    {
        let left = self.leave(nav, bm);
        self.propagate_fonts(sizes, fonts);
        let entered = self.enter(nav, book, again);
        match entered {
            Entered::ByCaller(_) => {},
            _ => self.settle(nav),
        }
        (left, entered)
    }

    /// Asks for the redraw after a change of apps.
    pub fn settle(&mut self, nav: NavEvent)
        ensures
            final(self)@ == old(self)@.settled(nav.resume),
    {
        if nav.resume {
            let whole = Region::new(0, 0, self.screen.w, self.screen.h);
            self.ctx.mark_dirty(whole);
        } else {
            self.ctx.request_full_redraw();
        }
    }

    /// Loads the settings before anything is shown, and hands out the fonts
    /// that they ask for: those of the user interface out of `sizes`, and the
    /// book's out of `fonts`.
    pub fn load_eager_settings(
        &mut self,
        data: Option<&[u8]>,
        sizes: &[UiFonts],
        fonts: Vec<FontSet>,
    )
        requires
            old(self)@.wf(),
            sizes@.len() > DEFAULT_MAX_FONT_IDX,
            forall|i: int|
                0 <= i <= DEFAULT_MAX_FONT_IDX ==> size_fits(
                    old(self)@.screen,
                    #[trigger] sizes@[i],
                ),
            usable(fonts@),
        ensures
            final(self)@.wf(),
            config_of(final(self)@.settings.settings, final(self)@.settings.wifi) == loaded_config(
                opt_view(data),
            ),
            final(self)@.settings.loaded,
            final(self)@ == (ManagerView {
                settings: SettingsApp {
                    settings: final(self)@.settings.settings,
                    wifi: final(self)@.settings.wifi,
                    loaded: true,
                    ..old(self)@.settings
                },
                ..old(self)@
            }).with_fonts(sizes@, fonts@),
    {
        self.settings.load_eager(data, sizes);
        self.propagate_fonts(sizes, fonts);
    }

    /// What is to be done in the background, in order.
    pub fn run_background(&self) -> (r: Vec<Background>)
        requires
            self@.active != AppId::Upload,
        ensures
            r@ == self@.background(),
    {
        let mut list: Vec<Background> = Vec::new();
        list.push(Background::Active(self.active));
        if self.active != AppId::Reader && self.reader.has_background_when_suspended() {
            list.push(Background::Suspended(AppId::Reader));
        }
        assert(list@ =~= self@.background());
        list
    }

    /// What the screen shows, one over the other.
    pub fn draw(&self, menu_open: bool) -> (r: Vec<Layer>)
        requires
            self@.active != AppId::Upload,
        ensures
            r@ == (if menu_open {
                seq![Layer::App(self@.active), Layer::QuickMenu, Layer::ButtonLabels]
            } else {
                seq![Layer::App(self@.active), Layer::ButtonLabels]
            }),
    {
        let mut list: Vec<Layer> = Vec::new();
        list.push(Layer::App(self.active));
        if menu_open {
            list.push(Layer::QuickMenu);
        }
        list.push(Layer::ButtonLabels);
        assert(list@ =~= if menu_open {
            seq![Layer::App(self@.active), Layer::QuickMenu, Layer::ButtonLabels]
        } else {
            seq![Layer::App(self@.active), Layer::ButtonLabels]
        });
        list
    }

    pub fn system_settings(&self) -> (r: &SystemSettings)
        ensures
            *r == self@.settings.settings,
    {
        self.settings.system_settings()
    }

    pub fn settings_loaded(&self) -> (r: bool)
        ensures
            r == self@.settings.loaded,
    {
        self.settings.is_loaded()
    }

    pub fn wifi_config(&self) -> (r: &WifiConfig)
        ensures
            *r == self@.settings.wifi,
    {
        self.settings.wifi_config()
    }

    /// How many quick refreshes there may be in a row; `default` until the
    /// settings are loaded.
    pub fn ghost_clear_every(&self, default: u32) -> (r: u32)
        ensures
            r == (if self@.settings.loaded {
                self@.settings.settings.ghost_clear_every as u32
            } else {
                default
            }),
    {
        if self.settings.is_loaded() {
            self.settings.system_settings().ghost_clear_every as u32
        } else {
            default
        }
    }

    /// The active app needs the hardware for itself.
    pub fn needs_special_mode(&self) -> (r: bool)
        ensures
            r == (self@.active == AppId::Upload),
    {
        self.active == AppId::Upload
    }
}

/// The bookmark of the open book is at the page on screen, where there is
/// one; else nothing changed.
pub open spec fn place_kept(
    r: ReaderView,
    before: bookmarks::CacheView,
    after: bookmarks::CacheView,
) -> bool {
    if r.state == State::Ready {
        bookmarks::saved(before, after, r.filename, r.name_key, r.pager.offset(), r.chapter)
    } else {
        after == before
    }
}

/// A book that is left from a page on screen opens there again: its bookmark
/// gives back its chapter and its position. Left before a page is on screen, it
/// leaves all bookmarks as they are.
pub proof fn law_a_left_book_is_found_again(
    left: ReaderView,
    again: ReaderView,
    before: bookmarks::CacheView,
    after: bookmarks::CacheView,
)
    requires
        left.wf(),
        before.loaded,
        before.slots.len() <= bookmarks::SLOTS,
        place_kept(left, before, after),
        again.filename == left.filename,
        again.name_key == left.name_key,
        again.is_epub == left.is_epub,
        again.cache.room() == left.cache.room(),
    ensures
        left.state == State::Ready ==> ({
            let r = again.with_bookmark(after.found(again.filename, again.name_key));
            &&& r.chapter == left.chapter
            &&& left.pager.offset() > 0 ==> r.restore_offset == Some(left.pager.offset())
            &&& left.pager.offset() == 0 ==> r.restore_offset is None
            &&& after.dirty
        }),
        left.state != State::Ready ==> after == before,
{
    if left.state == State::Ready {
        law_book_reopens_where_it_was_left(left, again, before, after);
    }
}

} // verus!
