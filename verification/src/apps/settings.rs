//! The settings app.

use vstd::prelude::*;

use crate::board::action::{Action, ActionEvent};
use crate::bytes::{decimal, push_bytes, push_decimal, text_bytes};
use crate::kernel::app::{AppContext, ContextView, Transition};
use crate::kernel::config::{
    config_of, default_settings, law_settings_round_trip, law_settings_text_is_short,
    lemma_text_is_not_empty, no_wifi, parse_settings_txt, plain_value,
    settings_text, write_settings_txt, Config, SystemSettings, WifiConfig, DEFAULT_MAX_FONT_IDX,
};
use crate::ui::{
    after, before, put, shown, wrap_next, wrap_prev, Alignment, Draw, DrawView, Region, Screen,
    UiFont, UiFonts, Words, WordsView,
};

verus! {

pub const ROW_H: u16 = 40;

pub const ROW_STRIDE: u16 = 46;

pub const LABEL_X: u16 = 16;

pub const LABEL_W: u16 = 160;

pub const COL_GAP: u16 = 8;

pub const VALUE_X: u16 = 184;

pub const VALUE_W: u16 = 296;

pub const ROW_W: u16 = 464;

pub const NUM_ITEMS: usize = 4;

/// What the app has to do with storage in the background.
#[derive(Debug, Clone, Copy, PartialEq, Eq, Structural)]
pub enum SettingsWork {
    Idle,
    /// Read the settings file and hand it to `load`.
    Load,
    /// Write `save_text` to the settings file and report to `saved`.
    Save,
}

pub struct SettingsApp {
    pub settings: SystemSettings,
    pub wifi: WifiConfig,
    pub selected: usize,
    pub loaded: bool,
    pub save_needed: bool,
    pub ui_fonts: UiFonts,
    pub items_top: u16,
    /// The largest font size there is.
    pub max_size: u8,
    pub screen: Screen,
}

/// The configuration that a settings file gives. Without a file, or with an
/// empty one, it is the default.
pub open spec fn loaded_config(data: Option<Seq<u8>>) -> Config {
    let fresh = Config { settings: default_settings(), wifi: no_wifi() };
    match data {
        Some(d) => if d.len() > 0 {
            let c = fresh.with_text(d);
            Config { settings: c.settings.sanitized(DEFAULT_MAX_FONT_IDX), ..c }
        } else {
            fresh
        },
        None => fresh,
    }
}

/// A number of minutes, one step up.
pub open spec fn longer_sleep(t: u16) -> u16 {
    if t == 0 {
        5
    } else if t >= 120 {
        120
    } else {
        (t + 5) as u16
    }
}

/// A number of minutes, one step down.
pub open spec fn shorter_sleep(t: u16) -> u16 {
    if t <= 5 {
        0
    } else {
        (t - 5) as u16
    }
}

/// The settings with item `i` one step up.
pub open spec fn stepped_up(s: SystemSettings, i: int, max_size: u8) -> SystemSettings {
    if i == 0 {
        SystemSettings { sleep_timeout: longer_sleep(s.sleep_timeout), ..s }
    } else if i == 1 {
        SystemSettings {
            ghost_clear_every: if s.ghost_clear_every < 45 {
                (s.ghost_clear_every + 5) as u8
            } else {
                50
            },
            ..s
        }
    } else if i == 2 && s.book_font_size_idx < max_size {
        SystemSettings { book_font_size_idx: (s.book_font_size_idx + 1) as u8, ..s }
    } else if i == 3 && s.ui_font_size_idx < max_size {
        SystemSettings { ui_font_size_idx: (s.ui_font_size_idx + 1) as u8, ..s }
    } else {
        s
    }
}

/// The settings with item `i` one step down.
pub open spec fn stepped_down(s: SystemSettings, i: int) -> SystemSettings {
    if i == 0 {
        SystemSettings { sleep_timeout: shorter_sleep(s.sleep_timeout), ..s }
    } else if i == 1 {
        SystemSettings {
            ghost_clear_every: if s.ghost_clear_every > 6 {
                (s.ghost_clear_every - 5) as u8
            } else {
                1
            },
            ..s
        }
    } else if i == 2 && s.book_font_size_idx > 0 {
        SystemSettings { book_font_size_idx: (s.book_font_size_idx - 1) as u8, ..s }
    } else if i == 3 && s.ui_font_size_idx > 0 {
        SystemSettings { ui_font_size_idx: (s.ui_font_size_idx - 1) as u8, ..s }
    } else {
        s
    }
}

pub open spec fn label_text(i: int) -> &'static str {
    if i == 0 {
        "Sleep After"
    } else if i == 1 {
        "Ghost Clear"
    } else if i == 2 {
        "Book Font"
    } else if i == 3 {
        "UI Font"
    } else {
        ""
    }
}

/// The value of item `i`, in words.
pub open spec fn value_words(s: SystemSettings, i: int) -> WordsView {
    if i == 0 {
        if s.sleep_timeout == 0 {
            WordsView::Text(text_bytes("Never"))
        } else {
            WordsView::Text(decimal(s.sleep_timeout as nat) + text_bytes(" min"))
        }
    } else if i == 1 {
        WordsView::Text(text_bytes("Every ") + decimal(s.ghost_clear_every as nat))
    } else if i == 2 {
        WordsView::SizeName(s.book_font_size_idx)
    } else if i == 3 {
        WordsView::SizeName(s.ui_font_size_idx)
    } else {
        WordsView::Text(Seq::empty())
    }
}

/// Where the first row starts.
pub open spec fn first_row(screen: Screen, fonts: UiFonts) -> int {
    screen.content_top + 4 + fonts.heading + 8
}

impl SettingsApp {
    /// An item is selected, and the rows fit in the coordinates there are.
    pub open spec fn wf(self) -> bool {
        &&& self.selected < NUM_ITEMS
        &&& self.wifi.wf()
        &&& self.screen.wf()
        &&& self.items_top == first_row(self.screen, self.ui_fonts)
        &&& self.items_top + (NUM_ITEMS - 1) * ROW_STRIDE <= u16::MAX
    }

    pub open spec fn row_y(self, i: int) -> u16 {
        (self.items_top + i * ROW_STRIDE) as u16
    }

    pub open spec fn spec_row(self, i: int) -> Region {
        Region { x: LABEL_X, y: self.row_y(i), w: ROW_W, h: ROW_H }
    }

    pub open spec fn spec_label(self, i: int) -> Region {
        Region { x: LABEL_X, y: self.row_y(i), w: LABEL_W, h: ROW_H }
    }

    pub open spec fn spec_value(self, i: int) -> Region {
        Region { x: VALUE_X, y: self.row_y(i), w: VALUE_W, h: ROW_H }
    }

    /// The app before anything is loaded, on the smallest of the sizes.
    pub fn new(screen: Screen, fonts: UiFonts, max_size: u8) -> (r: SettingsApp)
        requires
            screen.wf(),
            first_row(screen, fonts) + (NUM_ITEMS - 1) * ROW_STRIDE <= u16::MAX,
        ensures
            r.wf(),
            r.settings == default_settings(),
            r.wifi@ == no_wifi(),
            r.selected == 0,
            !r.loaded,
            !r.save_needed,
            r.ui_fonts == fonts,
            r.max_size == max_size,
            r.screen == screen,
    {
        SettingsApp {
            settings: SystemSettings::defaults(),
            wifi: WifiConfig::empty(),
            selected: 0,
            loaded: false,
            save_needed: false,
            ui_fonts: fonts,
            items_top: screen.content_top + 4 + fonts.heading + 8,
            max_size,
            screen,
        }
    }

    /// Takes the fonts of size `idx` out of `sizes`.
    pub fn set_ui_font_size(&mut self, idx: u8, sizes: &[UiFonts])
        requires
            old(self).wf(),
            idx < sizes@.len(),
            first_row(old(self).screen, sizes@[idx as int]) + (NUM_ITEMS - 1) * ROW_STRIDE
                <= u16::MAX,
        ensures
            final(self).wf(),
            *final(self) == (SettingsApp {
                ui_fonts: sizes@[idx as int],
                items_top: first_row(old(self).screen, sizes@[idx as int]) as u16,
                ..*old(self)
            }),
    {
        self.ui_fonts = sizes[idx as usize];
        self.items_top = self.screen.content_top + 4 + self.ui_fonts.heading + 8;
    }

    pub fn system_settings(&self) -> (r: &SystemSettings)
        ensures
            *r == self.settings,
    {
        &self.settings
    }

    pub fn system_settings_mut(&mut self) -> (r: &mut SystemSettings)
        ensures
            *r == old(self).settings,
            *final(self) == (SettingsApp { settings: *final(r), ..*old(self) }),
    {
        &mut self.settings
    }

    pub fn wifi_config(&self) -> (r: &WifiConfig)
        ensures
            *r == self.wifi,
    {
        &self.wifi
    }

    pub fn mark_save_needed(&mut self)
        ensures
            *final(self) == (SettingsApp { save_needed: true, ..*old(self) }),
    {
        self.save_needed = true;
    }

    pub fn is_loaded(&self) -> (r: bool)
        ensures
            r == self.loaded,
    {
        self.loaded
    }

    /// Loads before anything is shown, and takes the fonts that the settings
    /// ask for.
    pub fn load_eager(&mut self, data: Option<&[u8]>, sizes: &[UiFonts])
        requires
            old(self).wf(),
            sizes@.len() > DEFAULT_MAX_FONT_IDX,
            forall|i: int|
                0 <= i <= DEFAULT_MAX_FONT_IDX ==> first_row(old(self).screen, #[trigger] sizes@[i])
                    + (NUM_ITEMS - 1) * ROW_STRIDE <= u16::MAX,
        ensures
            final(self).wf(),
            config_of(final(self).settings, final(self).wifi) == loaded_config(opt_view(data)),
            final(self).loaded,
            final(self).ui_fonts == sizes@[final(self).settings.ui_font_size_idx as int],
            *final(self) == (SettingsApp {
                settings: final(self).settings,
                wifi: final(self).wifi,
                loaded: true,
                ui_fonts: final(self).ui_fonts,
                items_top: final(self).items_top,
                ..*old(self)
            }),
    {
        self.load(data);
        let idx = self.settings.ui_font_size_idx;
        self.set_ui_font_size(idx, sizes);
    }

    /// Takes what the settings file holds; `None` where it could not be read.
    pub fn load(&mut self, data: Option<&[u8]>)
        requires
            old(self).wf(),
        ensures
            final(self).wf(),
            config_of(final(self).settings, final(self).wifi) == loaded_config(opt_view(data)),
            final(self).settings.ui_font_size_idx <= DEFAULT_MAX_FONT_IDX,
            *final(self) == (SettingsApp {
                settings: final(self).settings,
                wifi: final(self).wifi,
                loaded: true,
                ..*old(self)
            }),
    {
        self.settings = SystemSettings::defaults();
        self.wifi = WifiConfig::empty();
        if let Some(d) = data {
            if d.len() > 0 {
                let mut s = self.settings;
                let mut w = WifiConfig::empty();
                parse_settings_txt(d, &mut s, &mut w);
                s.sanitize();
                self.settings = s;
                self.wifi = w;
            }
        }
        self.loaded = true;
    }

    /// The text to write to the settings file.
    pub fn save_text(&self) -> (r: Vec<u8>)
        requires
            self.wf(),
        ensures
            r@ == settings_text(config_of(self.settings, self.wifi)),
    {
        let mut buf: [u8; 512] = [0u8; 512];
        let ghost text = settings_text(config_of(self.settings, self.wifi));
        let room: &mut [u8] = &mut buf;
        let len = write_settings_txt(&self.settings, &self.wifi, room);
        let mut out: Vec<u8> = Vec::new();
        let all: &[u8] = &buf;
        proof {
            self.wifi.lemma_wf();
            law_settings_text_is_short(
                config_of(self.settings, self.wifi),
            );
            assert(text.take(len as int) =~= text);
        }
        push_bytes(&mut out, &all[0..len]);
        assert(out@ =~= text);
        out
    }

    /// The label of item `i`.
    pub fn item_label(i: usize) -> (r: &'static str)
        ensures
            r@ == label_text(i as int)@,
    {
        match i {
            0 => "Sleep After",
            1 => "Ghost Clear",
            2 => "Book Font",
            3 => "UI Font",
            _ => "",
        }
    }

    /// The value of item `i`, in words.
    pub fn format_value(&self, i: usize) -> (r: Words)
        ensures
            r@ == value_words(self.settings, i as int),
    {
        let mut t: Vec<u8> = Vec::new();
        assert(t@ =~= Seq::<u8>::empty());
        match i {
            0 => {
                if self.settings.sleep_timeout == 0 {
                    push_bytes(&mut t, "Never".as_bytes());
                    assert(t@ =~= text_bytes("Never"));
                } else {
                    push_decimal(&mut t, self.settings.sleep_timeout as u64);
                    push_bytes(&mut t, " min".as_bytes());
                    assert(t@ =~= decimal(self.settings.sleep_timeout as nat) + text_bytes(" min"));
                }
                Words::Text(t)
            },
            1 => {
                push_bytes(&mut t, "Every ".as_bytes());
                push_decimal(&mut t, self.settings.ghost_clear_every as u64);
                assert(t@ =~= text_bytes("Every ") + decimal(
                    self.settings.ghost_clear_every as nat,
                ));
                Words::Text(t)
            },
            2 => Words::SizeName(self.settings.book_font_size_idx),
            3 => Words::SizeName(self.settings.ui_font_size_idx),
            _ => Words::Text(t),
        }
    }

    pub fn increment(&mut self)
        ensures
            *final(self) == (SettingsApp {
                settings: stepped_up(
                    old(self).settings,
                    old(self).selected as int,
                    old(self).max_size,
                ),
                save_needed: old(self).save_needed || old(self).selected < NUM_ITEMS,
                ..*old(self)
            }),
    {
        match self.selected {
            0 => {
                let t = self.settings.sleep_timeout;
                self.settings.sleep_timeout = if t == 0 {
                    5
                } else if t >= 120 {
                    120
                } else {
                    t + 5
                };
            },
            1 => {
                let g = self.settings.ghost_clear_every;
                self.settings.ghost_clear_every = if g < 45 {
                    g + 5
                } else {
                    50
                };
            },
            2 => {
                if self.settings.book_font_size_idx < self.max_size {
                    self.settings.book_font_size_idx = self.settings.book_font_size_idx + 1;
                }
            },
            3 => {
                if self.settings.ui_font_size_idx < self.max_size {
                    self.settings.ui_font_size_idx = self.settings.ui_font_size_idx + 1;
                }
            },
            _ => {
                return ;
            },
        }
        self.save_needed = true;
    }

    pub fn decrement(&mut self)
        ensures
            *final(self) == (SettingsApp {
                settings: stepped_down(old(self).settings, old(self).selected as int),
                save_needed: old(self).save_needed || old(self).selected < NUM_ITEMS,
                ..*old(self)
            }),
    {
        match self.selected {
            0 => {
                let t = self.settings.sleep_timeout;
                self.settings.sleep_timeout = if t <= 5 {
                    0
                } else {
                    t - 5
                };
            },
            1 => {
                let g = self.settings.ghost_clear_every;
                self.settings.ghost_clear_every = if g > 6 {
                    g - 5
                } else {
                    1
                };
            },
            2 => {
                if self.settings.book_font_size_idx > 0 {
                    self.settings.book_font_size_idx = self.settings.book_font_size_idx - 1;
                }
            },
            3 => {
                if self.settings.ui_font_size_idx > 0 {
                    self.settings.ui_font_size_idx = self.settings.ui_font_size_idx - 1;
                }
            },
            _ => {
                return ;
            },
        }
        self.save_needed = true;
    }

    fn row_top(&self, i: usize) -> (r: u16)
        requires
            self.wf(),
            i < NUM_ITEMS,
        ensures
            r == self.row_y(i as int),
    {
        self.items_top + i as u16 * ROW_STRIDE
    }

    pub fn label_region(&self, i: usize) -> (r: Region)
        requires
            self.wf(),
            i < NUM_ITEMS,
        ensures
            r == self.spec_label(i as int),
    {
        Region::new(LABEL_X, self.row_top(i), LABEL_W, ROW_H)
    }

    pub fn value_region(&self, i: usize) -> (r: Region)
        requires
            self.wf(),
            i < NUM_ITEMS,
        ensures
            r == self.spec_value(i as int),
    {
        Region::new(VALUE_X, self.row_top(i), VALUE_W, ROW_H)
    }

    pub fn row_region(&self, i: usize) -> (r: Region)
        requires
            self.wf(),
            i < NUM_ITEMS,
        ensures
            r == self.spec_row(i as int),
    {
        Region::new(LABEL_X, self.row_top(i), LABEL_W + COL_GAP + VALUE_W, ROW_H)
    }

    pub fn on_enter(&mut self, ctx: &mut AppContext)
        requires
            old(self).wf(),
        ensures
            final(self).wf(),
            *final(self) == (SettingsApp { selected: 0, save_needed: false, ..*old(self) }),
            final(ctx)@ == old(ctx)@.dirty(old(self).screen.spec_content()),
    {
        self.selected = 0;
        self.save_needed = false;
        let content = self.screen.content();
        ctx.mark_dirty(content);
    }

    /// The app after the selection moved to `to`, and what it asks for.
    pub open spec fn moved(self, to: int, c: ContextView) -> (SettingsApp, ContextView) {
        (
            SettingsApp { selected: to as usize, ..self },
            c.dirty(self.spec_row(self.selected as int)).dirty(self.spec_row(to)),
        )
    }

    /// What an event makes of the app and its context.
    pub open spec fn reacted(self, e: ActionEvent, c: ContextView) -> (SettingsApp, ContextView) {
        let i = self.selected as int;
        match e {
            ActionEvent::Press(Action::Next) => self.moved(after(i, NUM_ITEMS as int), c),
            ActionEvent::Press(Action::Prev) => self.moved(before(i, NUM_ITEMS as int), c),
            ActionEvent::Press(Action::NextJump) | ActionEvent::Repeat(Action::NextJump) => (
                SettingsApp {
                    settings: stepped_up(self.settings, i, self.max_size),
                    save_needed: true,
                    ..self
                },
                c.dirty(self.spec_value(i)),
            ),
            ActionEvent::Press(Action::PrevJump) | ActionEvent::Repeat(Action::PrevJump) => (
                SettingsApp {
                    settings: stepped_down(self.settings, i),
                    save_needed: true,
                    ..self
                },
                c.dirty(self.spec_value(i)),
            ),
            _ => (self, c),
        }
    }

    pub fn on_event(&mut self, event: ActionEvent, ctx: &mut AppContext) -> (r: Transition)
        requires
            old(self).wf(),
        ensures
            final(self).wf(),
            (*final(self), final(ctx)@) == old(self).reacted(event, old(ctx)@),
            r == (match event {
                ActionEvent::Press(Action::Back) => Transition::Pop,
                ActionEvent::LongPress(Action::Back) => Transition::Home,
                _ => Transition::Stay,
            }),
    {
        match event {
            ActionEvent::Press(Action::Back) => Transition::Pop,
            ActionEvent::LongPress(Action::Back) => Transition::Home,
            ActionEvent::Press(Action::Next) => {
                let from = self.selected;
                let to = wrap_next(from, NUM_ITEMS);
                self.select(from, to, ctx);
                Transition::Stay
            },
            ActionEvent::Press(Action::Prev) => {
                let from = self.selected;
                let to = wrap_prev(from, NUM_ITEMS);
                self.select(from, to, ctx);
                Transition::Stay
            },
            ActionEvent::Press(Action::NextJump) | ActionEvent::Repeat(Action::NextJump) => {
                self.increment();
                let region = self.value_region(self.selected);
                ctx.mark_dirty(region);
                Transition::Stay
            },
            ActionEvent::Press(Action::PrevJump) | ActionEvent::Repeat(Action::PrevJump) => {
                self.decrement();
                let region = self.value_region(self.selected);
                ctx.mark_dirty(region);
                Transition::Stay
            },
            _ => Transition::Stay,
        }
    }

    fn select(&mut self, from: usize, to: usize, ctx: &mut AppContext)
        requires
            old(self).wf(),
            old(self).selected == from,
            to < NUM_ITEMS,
        ensures
            final(self).wf(),
            (*final(self), final(ctx)@) == old(self).moved(to as int, old(ctx)@),
    {
        self.selected = to;
        let was = self.row_region(from);
        let is = self.row_region(to);
        ctx.mark_dirty(was);
        ctx.mark_dirty(is);
    }

    /// What there is to do in the background.
    pub open spec fn work(self) -> SettingsWork {
        if !self.loaded {
            SettingsWork::Load
        } else if self.save_needed {
            SettingsWork::Save
        } else {
            SettingsWork::Idle
        }
    }

    /// The app after the settings file was written, or not.
    pub open spec fn written(self, ok: bool) -> SettingsApp {
        SettingsApp { save_needed: self.save_needed && !ok, ..self }
    }

    /// What to do in the background: load once, then save what changed.
    pub fn background(&self) -> (r: SettingsWork)
        ensures
            r == (if !self.loaded {
                SettingsWork::Load
            } else if self.save_needed {
                SettingsWork::Save
            } else {
                SettingsWork::Idle
            }),
            r == self.work(),
    {
        if !self.loaded {
            SettingsWork::Load
        } else if self.save_needed {
            SettingsWork::Save
        } else {
            SettingsWork::Idle
        }
    }

    /// The settings file was read in the background.
    pub fn background_loaded(&mut self, data: Option<&[u8]>, ctx: &mut AppContext)
        requires
            old(self).wf(),
        ensures
            final(self).wf(),
            config_of(final(self).settings, final(self).wifi) == loaded_config(opt_view(data)),
            *final(self) == (SettingsApp {
                settings: final(self).settings,
                wifi: final(self).wifi,
                loaded: true,
                ..*old(self)
            }),
            final(ctx)@ == old(ctx)@.full(),
    {
        self.load(data);
        ctx.request_full_redraw();
    }

    /// The settings file was written, or not; what was not is tried again.
    pub fn background_saved(&mut self, ok: bool)
        ensures
            *final(self) == (SettingsApp {
                save_needed: old(self).save_needed && !ok,
                ..*old(self)
            }),
            *final(self) == old(self).written(ok),
    {
        if ok {
            self.save_needed = false;
        }
    }

    /// The two labels of item `i`.
    pub open spec fn item_picture(self, i: int) -> Seq<DrawView> {
        seq![
            DrawView::Label {
                region: self.spec_label(i),
                words: WordsView::Text(text_bytes(label_text(i))),
                font: UiFont::Body,
                align: Alignment::CenterLeft,
                inverted: i == self.selected,
            },
            DrawView::Label {
                region: self.spec_value(i),
                words: value_words(self.settings, i),
                font: UiFont::Body,
                align: Alignment::Center,
                inverted: i == self.selected,
            },
        ]
    }

    /// The labels of the first `n` items.
    pub open spec fn items_picture(self, n: int) -> Seq<DrawView>
        decreases n,
    {
        if n <= 0 {
            Seq::empty()
        } else {
            self.items_picture(n - 1) + self.item_picture(n - 1)
        }
    }

    /// What the app shows.
    pub open spec fn picture(self) -> Seq<DrawView> {
        let title = DrawView::Label {
            region: Region {
                x: 16,
                y: (self.screen.content_top + 4) as u16,
                w: 448,
                h: self.ui_fonts.heading,
            },
            words: WordsView::Text(text_bytes("Settings")),
            font: UiFont::Heading,
            align: Alignment::CenterLeft,
            inverted: false,
        };
        if !self.loaded {
            seq![
                title,
                DrawView::Label {
                    region: Region { x: LABEL_X, y: self.items_top, w: 200, h: ROW_H },
                    words: WordsView::Text(text_bytes("Loading...")),
                    font: UiFont::Body,
                    align: Alignment::CenterLeft,
                    inverted: false,
                },
            ]
        } else {
            seq![title] + self.items_picture(NUM_ITEMS as int)
        }
    }

    pub fn draw(&self) -> (r: Vec<Draw>)
        requires
            self.wf(),
        ensures
            shown(r@) == self.picture(),
    {
        let mut ops: Vec<Draw> = Vec::new();
        assert(shown(ops@) =~= Seq::empty());
        put(
            &mut ops,
            Draw::Label {
                region: Region::new(16, self.screen.content_top + 4, 448, self.ui_fonts.heading),
                words: Words::Text(words_of("Settings")),
                font: UiFont::Heading,
                align: Alignment::CenterLeft,
                inverted: false,
            },
        );
        let ghost title = shown(ops@);
        if !self.loaded {
            put(
                &mut ops,
                Draw::Label {
                    region: Region::new(LABEL_X, self.items_top, 200, ROW_H),
                    words: Words::Text(words_of("Loading...")),
                    font: UiFont::Body,
                    align: Alignment::CenterLeft,
                    inverted: false,
                },
            );
            assert(shown(ops@) =~= self.picture());
            return ops;
        }
        let mut i: usize = 0;
        assert(shown(ops@) =~= title + self.items_picture(0));
        while i < NUM_ITEMS
            invariant
                i <= NUM_ITEMS,
                self.wf(),
                shown(ops@) == title + self.items_picture(i as int),
            decreases NUM_ITEMS - i,
        {
            let inverted = i == self.selected;
            put(
                &mut ops,
                Draw::Label {
                    region: self.label_region(i),
                    words: Words::Text(words_of(SettingsApp::item_label(i))),
                    font: UiFont::Body,
                    align: Alignment::CenterLeft,
                    inverted,
                },
            );
            put(
                &mut ops,
                Draw::Label {
                    region: self.value_region(i),
                    words: self.format_value(i),
                    font: UiFont::Body,
                    align: Alignment::Center,
                    inverted,
                },
            );
            proof {
                assert(shown(ops@) =~= title + self.items_picture(i as int) + self.item_picture(
                    i as int,
                ));
                assert(title + self.items_picture(i as int) + self.item_picture(i as int)
                    =~= title + (self.items_picture(i as int) + self.item_picture(i as int)));
            }
            i += 1;
        }
        ops
    }
}

/// A read that may have failed, as a value.
pub open spec fn opt_view(data: Option<&[u8]>) -> Option<Seq<u8>> {
    match data {
        Some(d) => Some(d@),
        None => None,
    }
}

pub(crate) fn words_of(s: &str) -> (r: Vec<u8>)
    ensures
        r@ == text_bytes(s),
{
    let mut t: Vec<u8> = Vec::new();
    push_bytes(&mut t, s.as_bytes());
    assert(t@ =~= text_bytes(s));
    t
}

/// Settings in range, with credentials that fit on a line, are what the next
/// start loads after they were saved.
pub proof fn law_saved_settings_are_loaded(c: Config)
    requires
        c.settings.sanitized(DEFAULT_MAX_FONT_IDX) == c.settings,
        c.wifi.ssid.len() <= 32,
        c.wifi.pass.len() <= 63,
        plain_value(c.wifi.ssid),
        plain_value(c.wifi.pass),
    ensures
        loaded_config(Some(settings_text(c))) == c,
{
    let fresh = Config { settings: default_settings(), wifi: no_wifi() };
    law_settings_round_trip(c, fresh);
    lemma_text_is_not_empty(c);
}

/// A step up or down keeps settings in range. The one exception is a sleep
/// time between two steps just below the largest.
pub proof fn law_steps_stay_in_range(s: SystemSettings, i: int, max_size: u8)
    requires
        s.sanitized(DEFAULT_MAX_FONT_IDX) == s,
        max_size <= DEFAULT_MAX_FONT_IDX,
        s.sleep_timeout <= 115 || s.sleep_timeout == 120,
    ensures
        stepped_up(s, i, max_size).sanitized(DEFAULT_MAX_FONT_IDX) == stepped_up(s, i, max_size),
        stepped_down(s, i).sanitized(DEFAULT_MAX_FONT_IDX) == stepped_down(s, i),
{
}

} // verus!
