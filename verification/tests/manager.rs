use pulp_os::apps::files::{DirEntry, FilesApp};
use pulp_os::apps::manager::{
    AppManager, Background, BookKey, Dispatch, Entered, Layer, Left, MenuResult, MenuStep, Picked,
};
use pulp_os::apps::reader::app::{ReaderApp, State, QA_FONT_SIZE};
use pulp_os::apps::reader::wrap::Markup;
use pulp_os::apps::settings::SettingsApp;
use pulp_os::board::action::{Action, ActionEvent, ButtonMapper};
use pulp_os::board::button::Button;
use pulp_os::drivers::input::Event;
use pulp_os::fonts::{FontSet, StyleMetrics};
use pulp_os::kernel::app::{AppId, NavEvent, PendingSetting, Transition, Wish};
use pulp_os::kernel::bookmarks::BookmarkCache;
use pulp_os::ui::{Region, Screen, UiFonts};

const SCREEN: Screen = Screen { w: 480, h: 800, content_top: 18, button_bar_h: 24 };

const MENU: Region = Region { x: 40, y: 100, w: 400, h: 300 };

const BOOK: BookKey = BookKey { key: 9, epub: false, generation: 2 };

const M: Markup = Markup {
    marker: 1,
    img_ref: 2,
    bold_on: 3,
    bold_off: 4,
    italic_on: 5,
    italic_off: 6,
    heading_on: 7,
    heading_off: 8,
    quote_on: 9,
    quote_off: 10,
};

fn style(line_height: u16) -> StyleMetrics {
    StyleMetrics { line_height, ascent: 10, bytes: [6; 128], glyphs: vec![], missing: 6 }
}

fn book_fonts() -> Vec<FontSet> {
    let mut all = vec![];
    for h in 20..25 {
        all.push(FontSet {
            regular: style(h),
            bold: style(h),
            italic: style(h),
            heading: style(h),
        });
    }
    all
}

fn sizes() -> Vec<UiFonts> {
    let mut v: Vec<UiFonts> = Vec::new();
    for i in 0..5u16 {
        v.push(UiFonts { heading: 30 + i, body: 20 + i });
    }
    v
}

fn manager() -> AppManager {
    let ui = sizes()[0];
    AppManager::new(
        FilesApp::new(SCREEN, ui),
        ReaderApp::new(SCREEN, M, 8),
        SettingsApp::new(SCREEN, ui, 4),
        ButtonMapper::new(),
        SCREEN,
    )
}

fn bookmarks() -> BookmarkCache {
    let mut bm = BookmarkCache::new();
    bm.ensure_loaded(None);
    bm
}

fn go(m: &mut AppManager, bm: &mut BookmarkCache, nav: NavEvent) -> (Left, Entered) {
    m.apply_transition(nav, bm, &sizes(), vec![], BOOK, vec![])
}

fn to(m: &mut AppManager, bm: &mut BookmarkCache, id: AppId) {
    let nav = NavEvent { from: m.active(), to: id, suspend: true, resume: false };
    go(m, bm, nav);
}

#[test]
fn events_go_to_the_active_app() {
    let mut m = manager();
    let mut bm = bookmarks();
    let e = Event::Press(Button::VolDown);
    let d = m.dispatch_event(e, false);
    assert_eq!(d, Dispatch::ToHome(ActionEvent::Press(Action::Next)));
    to(&mut m, &mut bm, AppId::Settings);
    assert_eq!(m.dispatch_event(e, false), Dispatch::Done(Transition::Stay));
    assert_eq!(m.settings.selected, 1);
    let d = m.dispatch_event(Event::Press(Button::Back), false);
    assert_eq!(d, Dispatch::Done(Transition::Pop));
    to(&mut m, &mut bm, AppId::Files);
    let d = m.dispatch_event(Event::LongPress(Button::Back), false);
    assert_eq!(d, Dispatch::Done(Transition::Home));
}

#[test]
fn the_open_menu_takes_all_events() {
    let mut m = manager();
    let d = m.dispatch_event(Event::Press(Button::Power), false);
    assert_eq!(d, Dispatch::OpenMenu);
    m.menu_drawn(MENU);
    assert_eq!(m.ctx().wishes, vec![Wish::MarkDirty(MENU)]);
    let d = m.dispatch_event(Event::Repeat(Button::VolUp), true);
    assert_eq!(d, Dispatch::ToMenu(Action::Prev));
    let d = m.dispatch_event(Event::Release(Button::VolUp), true);
    assert_eq!(d, Dispatch::Done(Transition::Stay));
}

#[test]
fn answers_of_the_menu() {
    let mut m = manager();
    let mut bm = bookmarks();
    let mut answer = |m: &mut AppManager, r: MenuResult| {
        m.take_redraw();
        m.handle_quick_menu(r, MENU, &[], vec![], None, &mut bm)
    };
    let stay = MenuStep::Done(Transition::Stay);
    assert_eq!(answer(&mut m, MenuResult::Consumed { changed: false }), stay);
    assert!(!m.has_redraw());
    assert_eq!(answer(&mut m, MenuResult::Consumed { changed: true }), stay);
    assert!(m.has_redraw());
    assert_eq!(answer(&mut m, MenuResult::Close), stay);
    assert_eq!(m.ctx().wishes, vec![Wish::MarkDirty(MENU)]);
    assert_eq!(answer(&mut m, MenuResult::RefreshScreen), stay);
    assert_eq!(m.ctx().wishes, vec![Wish::FullRedraw]);
    assert_eq!(answer(&mut m, MenuResult::GoHome), MenuStep::Done(Transition::Home));
    assert_eq!(answer(&mut m, MenuResult::AppTrigger(3)), MenuStep::TriggerHome(3));
}

#[test]
fn a_picked_book_font_becomes_the_setting() {
    let mut m = manager();
    let mut bm = bookmarks();
    m.load_eager_settings(None, &sizes(), vec![]);
    to(&mut m, &mut bm, AppId::Reader);
    assert_eq!(m.reader.book_font_size_idx, 2);
    let picks = [Picked { id: 99, value: 7 }, Picked { id: QA_FONT_SIZE, value: 4 }];
    m.handle_quick_menu(MenuResult::Close, MENU, &picks, book_fonts(), None, &mut bm);
    assert_eq!(m.reader.book_font_size_idx, 4);
    assert_eq!(m.system_settings().book_font_size_idx, 4);
    assert!(m.settings.save_needed);
    assert_eq!(m.reader.pager.face.line_h, 24);
    m.propagate_fonts(&sizes(), book_fonts());
    assert_eq!(m.reader.book_font_size_idx, 4);
    assert_eq!(m.reader.pager.face.line_h, 24);
}

#[test]
fn the_home_screen_can_change_the_setting() {
    let mut m = manager();
    m.sync_quick_menu(&[], vec![], Some(PendingSetting::BookFontSize(2)));
    assert!(!m.settings.save_needed);
    m.sync_quick_menu(&[], vec![], Some(PendingSetting::BookFontSize(1)));
    assert_eq!(m.system_settings().book_font_size_idx, 1);
    assert!(m.settings.save_needed);
}

#[test]
fn from_the_browser_into_a_book_and_back() {
    let mut m = manager();
    let mut bm = bookmarks();
    to(&mut m, &mut bm, AppId::Files);
    assert_eq!(m.take_redraw().last(), Some(&Wish::FullRedraw));
    let entry = DirEntry { name: b"A.TXT".to_vec(), label: b"A".to_vec(), is_dir: false };
    m.files.load_page(vec![entry], 1);
    let d = m.dispatch_event(Event::Press(Button::Confirm), false);
    assert_eq!(d, Dispatch::Done(Transition::Push(AppId::Reader)));
    let nav = NavEvent { from: AppId::Files, to: AppId::Reader, suspend: true, resume: false };
    assert_eq!(go(&mut m, &mut bm, nav), (Left::Done, Entered::Done));
    assert_eq!(m.reader.filename, b"A.TXT".to_vec());
    assert!(m.reading);
    assert_eq!(m.reader.name_key, 9);
    m.reader.state = State::Ready;
    let nav = NavEvent { from: AppId::Reader, to: AppId::Files, suspend: false, resume: true };
    m.take_redraw();
    assert_eq!(go(&mut m, &mut bm, nav), (Left::Done, Entered::Done));
    assert!(!m.reading);
    assert_eq!(m.files.entries.len(), 1);
    assert!(bm.find(b"a.txt", 9).is_some());
    let whole = Wish::MarkDirty(Region::new(0, 0, 480, 800));
    assert_eq!(m.take_redraw().last(), Some(&whole));
}

#[test]
fn leaving_an_epub_resets_the_worker() {
    let mut m = manager();
    let mut bm = bookmarks();
    let nav = NavEvent { from: AppId::Home, to: AppId::Reader, suspend: true, resume: false };
    let book = BookKey { key: 1, epub: true, generation: 7 };
    let r = m.apply_transition(nav, &mut bm, &sizes(), vec![], book, vec![]);
    assert_eq!(r, (Left::ByHome, Entered::Done));
    let nav = NavEvent { from: AppId::Reader, to: AppId::Settings, suspend: true, resume: false };
    assert_eq!(go(&mut m, &mut bm, nav).0, Left::Done);
    let nav = NavEvent { from: AppId::Settings, to: AppId::Reader, suspend: false, resume: true };
    assert_eq!(go(&mut m, &mut bm, nav), (Left::Done, Entered::SetGeneration(7)));
    let nav = NavEvent { from: AppId::Reader, to: AppId::Home, suspend: false, resume: true };
    m.take_redraw();
    let r = go(&mut m, &mut bm, nav);
    assert_eq!(r, (Left::ResetWorker, Entered::ByCaller(AppId::Home)));
    assert!(!m.has_redraw());
    m.settle(nav);
    assert!(m.has_redraw());
}

#[test]
fn fonts_reach_every_app() {
    let mut m = manager();
    m.load_eager_settings(Some(b"ui_font=3\nbook_font=1\n"), &sizes(), book_fonts());
    assert!(m.settings_loaded());
    assert_eq!(m.files.ui_fonts.heading, 33);
    assert_eq!(m.settings.ui_fonts.heading, 33);
    assert_eq!(m.reader.book_font_size_idx, 1);
    assert_eq!(m.reader.pager.face.line_h, 21);
    assert!(m.reader.has_chrome_font);
    assert_eq!(m.wifi_config().ssid(), "");
}

#[test]
fn background_and_layers() {
    let mut m = manager();
    let mut bm = bookmarks();
    assert_eq!(m.run_background(), vec![Background::Active(AppId::Home)]);
    assert_eq!(m.draw(false), vec![Layer::App(AppId::Home), Layer::ButtonLabels]);
    assert_eq!(m.draw(true)[1], Layer::QuickMenu);
    m.reader.is_epub = true;
    m.reader.cache.bg = pulp_os::apps::reader::cache::BgCacheState::CacheImage;
    to(&mut m, &mut bm, AppId::Files);
    assert_eq!(
        m.run_background(),
        vec![Background::Active(AppId::Files), Background::Suspended(AppId::Reader)]
    );
    assert!(m.quick_actions().is_empty());
}

#[test]
fn settings_of_the_display() {
    let mut m = manager();
    assert_eq!(m.ghost_clear_every(8), 8);
    m.load_eager_settings(Some(b"ghost_clear=20\n"), &sizes(), vec![]);
    assert_eq!(m.ghost_clear_every(8), 20);
    assert!(!m.needs_special_mode());
    m.active = AppId::Upload;
    assert!(m.needs_special_mode());
    m.request_full_redraw();
    assert_eq!(m.ctx().wishes, vec![Wish::FullRedraw]);
}
