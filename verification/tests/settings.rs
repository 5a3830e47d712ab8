use pulp_os::apps::settings::{SettingsApp, SettingsWork};
use pulp_os::board::action::{Action, ActionEvent};
use pulp_os::kernel::app::{AppContext, Transition, Wish};
use pulp_os::ui::{Draw, Region, Screen, UiFonts, Words};

const SCREEN: Screen = Screen { w: 480, h: 800, content_top: 18, button_bar_h: 24 };

fn sizes() -> Vec<UiFonts> {
    let mut v: Vec<UiFonts> = Vec::new();
    for i in 0..5u16 {
        v.push(UiFonts { heading: 30 + i, body: 20 + i });
    }
    v
}

fn app() -> SettingsApp {
    SettingsApp::new(SCREEN, sizes()[0], 4)
}

fn text(d: &Draw) -> String {
    match d {
        Draw::Label { words: Words::Text(t), .. } => String::from_utf8(t.clone()).unwrap(),
        Draw::Label { words: Words::SizeName(i), .. } => format!("size {}", i),
        Draw::Clear(_) => String::new(),
    }
}

fn press(a: &mut SettingsApp, act: Action) -> (Transition, Vec<Wish>) {
    let mut ctx = AppContext::new();
    let t = a.on_event(ActionEvent::Press(act), &mut ctx);
    (t, ctx.wishes)
}

#[test]
fn rows_below_the_heading() {
    let a = app();
    assert_eq!(a.row_region(0), Region::new(16, 60, 464, 40));
    assert_eq!(a.label_region(1), Region::new(16, 106, 160, 40));
    assert_eq!(a.value_region(3), Region::new(184, 198, 296, 40));
    let mut a = app();
    a.set_ui_font_size(4, &sizes());
    assert_eq!(a.row_region(0).y, 64);
}

#[test]
fn labels_and_values() {
    assert_eq!(SettingsApp::item_label(0), "Sleep After");
    assert_eq!(SettingsApp::item_label(1), "Ghost Clear");
    assert_eq!(SettingsApp::item_label(2), "Book Font");
    assert_eq!(SettingsApp::item_label(3), "UI Font");
    let mut a = app();
    assert!(matches!(a.format_value(0), Words::Text(t) if t == b"10 min"));
    assert!(matches!(a.format_value(1), Words::Text(t) if t == b"Every 10"));
    assert!(matches!(a.format_value(2), Words::SizeName(2)));
    a.settings.sleep_timeout = 0;
    assert!(matches!(a.format_value(0), Words::Text(t) if t == b"Never"));
}

#[test]
fn selection_goes_round() {
    let mut a = app();
    let (_, wishes) = press(&mut a, Action::Prev);
    assert_eq!(a.selected, 3);
    assert_eq!(
        wishes,
        vec![Wish::MarkDirty(a.row_region(0)), Wish::MarkDirty(a.row_region(3))]
    );
    press(&mut a, Action::Next);
    assert_eq!(a.selected, 0);
}

#[test]
fn steps_of_the_sleep_time() {
    let mut a = app();
    a.loaded = true;
    let (_, wishes) = press(&mut a, Action::NextJump);
    assert_eq!(a.settings.sleep_timeout, 15);
    assert_eq!(wishes, vec![Wish::MarkDirty(a.value_region(0))]);
    assert!(a.save_needed);
    a.settings.sleep_timeout = 0;
    a.increment();
    assert_eq!(a.settings.sleep_timeout, 5);
    a.decrement();
    assert_eq!(a.settings.sleep_timeout, 0);
    a.decrement();
    assert_eq!(a.settings.sleep_timeout, 0);
    a.settings.sleep_timeout = 120;
    a.increment();
    assert_eq!(a.settings.sleep_timeout, 120);
}

#[test]
fn steps_of_the_other_items() {
    let mut a = app();
    a.selected = 1;
    a.settings.ghost_clear_every = 50;
    a.increment();
    assert_eq!(a.settings.ghost_clear_every, 50);
    a.settings.ghost_clear_every = 47;
    a.increment();
    assert_eq!(a.settings.ghost_clear_every, 50);
    a.settings.ghost_clear_every = 10;
    a.decrement();
    assert_eq!(a.settings.ghost_clear_every, 5);
    a.decrement();
    assert_eq!(a.settings.ghost_clear_every, 1);
    a.selected = 2;
    a.settings.book_font_size_idx = 4;
    a.increment();
    assert_eq!(a.settings.book_font_size_idx, 4);
    a.decrement();
    assert_eq!(a.settings.book_font_size_idx, 3);
    a.selected = 3;
    a.settings.ui_font_size_idx = 0;
    a.decrement();
    assert_eq!(a.settings.ui_font_size_idx, 0);
    a.increment();
    assert_eq!(a.settings.ui_font_size_idx, 1);
}

#[test]
fn back_leaves() {
    let mut a = app();
    assert_eq!(press(&mut a, Action::Back).0, Transition::Pop);
    let mut ctx = AppContext::new();
    let t = a.on_event(ActionEvent::LongPress(Action::Back), &mut ctx);
    assert_eq!(t, Transition::Home);
    assert_eq!(press(&mut a, Action::Select).0, Transition::Stay);
}

#[test]
fn background_loads_then_saves() {
    let mut a = app();
    assert_eq!(a.background(), SettingsWork::Load);
    let mut ctx = AppContext::new();
    a.background_loaded(Some(b"sleep_timeout=30\nui_font=9\n"), &mut ctx);
    assert_eq!(a.settings.sleep_timeout, 30);
    assert_eq!(a.settings.ui_font_size_idx, 4);
    assert_eq!(ctx.wishes, vec![Wish::FullRedraw]);
    assert_eq!(a.background(), SettingsWork::Idle);
    a.mark_save_needed();
    assert_eq!(a.background(), SettingsWork::Save);
    a.background_saved(false);
    assert_eq!(a.background(), SettingsWork::Save);
    a.background_saved(true);
    assert_eq!(a.background(), SettingsWork::Idle);
}

#[test]
fn no_file_gives_the_defaults() {
    let mut a = app();
    a.settings.sleep_timeout = 99;
    a.load(None);
    assert_eq!(a.settings.sleep_timeout, 10);
    a.settings.sleep_timeout = 99;
    a.load(Some(b""));
    assert_eq!(a.settings.sleep_timeout, 10);
}

#[test]
fn saved_settings_are_loaded_again() {
    let mut a = app();
    a.load_eager(Some(b"book_font=1\nui_font=3\nwifi_ssid=n e t\n"), &sizes());
    assert!(a.is_loaded());
    assert_eq!(a.ui_fonts.heading, 33);
    let saved = a.save_text();
    let mut b = app();
    b.load(Some(&saved));
    assert_eq!(b.system_settings().book_font_size_idx, 1);
    assert_eq!(b.system_settings().ui_font_size_idx, 3);
    assert_eq!(b.wifi_config().ssid(), "n e t");
    b.system_settings_mut().sleep_timeout = 45;
    assert_eq!(b.settings.sleep_timeout, 45);
}

#[test]
fn entering_starts_at_the_top() {
    let mut a = app();
    a.selected = 2;
    a.save_needed = true;
    let mut ctx = AppContext::new();
    a.on_enter(&mut ctx);
    assert_eq!(a.selected, 0);
    assert!(!a.save_needed);
    assert_eq!(ctx.wishes, vec![Wish::MarkDirty(Region::new(0, 18, 480, 782))]);
}

#[test]
fn picture() {
    let mut a = app();
    let first = a.draw();
    assert_eq!(text(&first[0]), "Settings");
    assert_eq!(text(&first[1]), "Loading...");
    assert_eq!(first.len(), 2);
    a.load(None);
    let all: Vec<String> = a.draw().iter().map(text).collect();
    assert_eq!(all[0], "Settings");
    assert!(all.contains(&"Sleep After".to_string()));
    assert!(all.contains(&"10 min".to_string()));
    assert!(all.contains(&"Every 10".to_string()));
    assert!(all.contains(&"size 2".to_string()));
}
