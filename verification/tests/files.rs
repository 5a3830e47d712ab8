use pulp_os::apps::files::{DirEntry, FilesApp, FilesWork, TitleScanResult, PAGE_SIZE};
use pulp_os::board::action::{Action, ActionEvent};
use pulp_os::kernel::app::{AppContext, AppId, Transition, Wish};
use pulp_os::ui::{Draw, Region, Screen, UiFonts, Words};

const SCREEN: Screen = Screen { w: 480, h: 800, content_top: 18, button_bar_h: 24 };

fn entry(i: usize) -> DirEntry {
    DirEntry {
        name: format!("F{}.TXT", i).into_bytes(),
        label: format!("File {}", i).into_bytes(),
        is_dir: false,
    }
}

fn page(from: usize, total: usize) -> Vec<DirEntry> {
    (from..total.min(from + PAGE_SIZE)).map(entry).collect()
}

fn app(total: usize) -> FilesApp {
    let mut a = FilesApp::new(SCREEN, UiFonts { heading: 30, body: 20 });
    a.load_page(page(0, total), total);
    a
}

fn press(a: &mut FilesApp, act: Action) -> (Transition, AppContext) {
    let mut ctx = AppContext::new();
    let t = a.on_event(ActionEvent::Press(act), &mut ctx);
    if a.needs_load {
        let total = a.total;
        a.load_page(page(a.scroll, total), total);
    }
    (t, ctx)
}

fn text(d: &Draw) -> String {
    match d {
        Draw::Label { words: Words::Text(t), .. } => String::from_utf8(t.clone()).unwrap(),
        Draw::Label { .. } => "size".to_string(),
        Draw::Clear(_) => "clear".to_string(),
    }
}

#[test]
fn list_lies_below_the_heading() {
    let mut a = app(0);
    assert_eq!(a.list_region(), Region::new(16, 64, 448, 392));
    assert_eq!(a.row_region(6), Region::new(16, 400, 448, 52));
    a.set_ui_font_size(1, &[UiFonts { heading: 1, body: 1 }, UiFonts { heading: 40, body: 1 }]);
    assert_eq!(a.list_region().y, 74);
}

#[test]
fn down_walks_through_the_directory_and_round() {
    let mut a = app(10);
    for i in 0..10 {
        assert_eq!(a.scroll + a.selected, i);
        press(&mut a, Action::Next);
    }
    assert_eq!((a.scroll, a.selected), (0, 0));
}

#[test]
fn up_from_the_first_entry_leads_to_the_last() {
    let mut a = app(10);
    press(&mut a, Action::Prev);
    assert_eq!((a.scroll, a.selected), (3, 6));
    for i in (0..9).rev() {
        press(&mut a, Action::Prev);
        assert_eq!(a.scroll + a.selected, i);
    }
    let mut a = app(3);
    press(&mut a, Action::Prev);
    assert_eq!((a.scroll, a.selected), (0, 2));
}

#[test]
fn a_step_on_screen_marks_both_rows() {
    let mut a = app(3);
    let (_, ctx) = press(&mut a, Action::Next);
    assert_eq!(
        ctx.wishes,
        vec![
            Wish::MarkDirty(a.row_region(0)),
            Wish::MarkDirty(a.row_region(1)),
            Wish::MarkDirty(Region::new(320, 26, 144, 28)),
        ]
    );
}

#[test]
fn an_empty_directory_stays_put() {
    let mut a = app(0);
    for act in [Action::Next, Action::Prev, Action::NextJump, Action::PrevJump, Action::Select] {
        let (t, _) = press(&mut a, act);
        assert_eq!(t, Transition::Stay);
        assert_eq!((a.scroll, a.selected), (0, 0));
    }
    assert!(a.selected_entry().is_none());
}

#[test]
fn jumps_by_pages() {
    let mut a = app(20);
    a.jump_down();
    assert_eq!((a.scroll, a.selected, a.needs_load), (7, 0, true));
    a.load_page(page(7, 20), 20);
    a.jump_down();
    a.load_page(page(a.scroll, 20), 20);
    assert_eq!(a.scroll, 14);
    a.jump_down();
    assert_eq!((a.scroll, a.selected, a.needs_load), (14, 5, false));
    a.jump_up();
    assert_eq!((a.scroll, a.selected), (7, 0));
    a.jump_up();
    a.jump_up();
    assert_eq!((a.scroll, a.selected), (0, 0));
}

#[test]
fn jumping_within_the_page_draws_the_list() {
    let mut a = app(3);
    let (_, ctx) = press(&mut a, Action::NextJump);
    assert_eq!(a.selected, 2);
    assert_eq!(ctx.wishes[0], Wish::MarkDirty(a.list_region()));
    assert_eq!(ctx.wishes.len(), 2);
}

#[test]
fn selecting_opens_files_only() {
    let mut a = app(2);
    let (t, ctx) = press(&mut a, Action::Select);
    assert_eq!(t, Transition::Push(AppId::Reader));
    assert_eq!(ctx.message, b"F0.TXT".to_vec());
    a.entries[0].is_dir = true;
    let (t, ctx) = press(&mut a, Action::Select);
    assert_eq!(t, Transition::Stay);
    assert!(ctx.message.is_empty());
    assert_eq!(press(&mut a, Action::Back).0, Transition::Pop);
    let mut ctx = AppContext::new();
    let t = a.on_event(ActionEvent::LongPress(Action::Back), &mut ctx);
    assert_eq!(t, Transition::Home);
}

#[test]
fn pages_are_cut_and_the_selection_kept_in_them() {
    let mut a = app(10);
    a.selected = 6;
    a.load_page(page(0, 3), 3);
    assert_eq!(a.selected, 2);
    let nine: Vec<DirEntry> = (0..9).map(entry).collect();
    a.load_page(nine, 9);
    assert_eq!(a.entries.len(), 7);
    a.load_failed("no card");
    assert_eq!(a.entries.len(), 0);
    assert_eq!(a.error, Some("no card"));
}

#[test]
fn background_lists_first_then_looks_up_titles() {
    let mut a = app(0);
    assert_eq!(a.background(), FilesWork::Idle);
    let mut ctx = AppContext::new();
    a.on_enter(&mut ctx);
    assert_eq!(ctx.wishes, vec![Wish::MarkDirty(Region::new(0, 18, 480, 782))]);
    assert_eq!(a.background(), FilesWork::LoadPage { offset: 0, refresh: true });
    assert_eq!(a.background(), FilesWork::LoadPage { offset: 0, refresh: false });
    let mut ctx = AppContext::new();
    a.page_loaded(Ok((page(0, 4), 4)), &mut ctx);
    assert_eq!(ctx.wishes.len(), 2);
    assert_eq!(a.background(), FilesWork::ScanTitle { from: 0 });
    a.title_scanned(Some(TitleScanResult { next_idx: 3, resolved: false }));
    assert_eq!(a.background(), FilesWork::ScanTitle { from: 3 });
    a.title_scanned(Some(TitleScanResult { next_idx: 4, resolved: true }));
    assert_eq!(a.background(), FilesWork::LoadPage { offset: 0, refresh: false });
    let mut ctx = AppContext::new();
    a.page_loaded(Err("read failed"), &mut ctx);
    assert_eq!(a.error, Some("read failed"));
    a.title_scanned(None);
    assert_eq!(a.background(), FilesWork::Idle);
}

#[test]
fn leaving_and_coming_back() {
    let mut a = app(3);
    a.title_scanning = true;
    a.on_suspend();
    assert_eq!(a.entries.len(), 3);
    let mut ctx = AppContext::new();
    a.on_resume(&mut ctx);
    assert_eq!(ctx.wishes.len(), 1);
    a.on_exit();
    assert_eq!(a.entries.len(), 0);
    assert!(!a.title_scanning);
}

#[test]
fn pictures() {
    let mut a = app(9);
    a.selected = 1;
    let all: Vec<String> = a.draw().iter().map(text).collect();
    assert_eq!(all[0], "Files");
    assert_eq!(all[1], "2/9");
    assert_eq!(all[2], "File 0");
    assert_eq!(all.len(), 9);
    assert!(matches!(a.draw()[3], Draw::Label { inverted: true, .. }));
    let all: Vec<String> = app(2).draw().iter().map(text).collect();
    assert_eq!(all[3], "File 1");
    assert_eq!(all[4], "clear");
    assert_eq!(all.len(), 9);
    let all: Vec<String> = app(0).draw().iter().map(text).collect();
    assert_eq!(all, vec!["Files", "No files found"]);
    let mut b = app(0);
    b.needs_load = true;
    assert_eq!(text(&b.draw()[1]), "Loading...");
    b.load_failed("open dir failed");
    assert_eq!(text(&b.draw()[1]), "open dir failed");
}
