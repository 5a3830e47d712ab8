//! What the lists of the apps promise: every entry and every setting in its
//! place, selections that walk them, and values that are what they say.

use vstd::prelude::*;

use crate::apps::files::{EntryView, FilesView, FilesWork, TitleScanResult, PAGE_SIZE};
use crate::apps::settings::{
    stepped_down, stepped_up, value_words, SettingsApp, SettingsWork, NUM_ITEMS,
};
use crate::board::action::{Action, ActionEvent};
use crate::bytes::{decimal, text_bytes};
use crate::kernel::app::{AppId, ContextView, Transition, Wish};
use crate::kernel::config::SystemSettings;
use crate::ui::{Alignment, DrawView, Region, UiFont, WordsView};

verus! {

/// The first region lies above the second.
pub open spec fn above(a: Region, b: Region) -> bool {
    a.y + a.h <= b.y
}

impl FilesView {
    /// A jump down leads to the first entry below those on screen, and from the
    /// last of them to the last entry; a jump up leads a page back, or as far as
    /// there are entries, with none left out between.
    pub proof fn law_jumps_turn_pages(self)
        requires
            self.wf(),
            self.in_step(),
        ensures
            ({
                let d = self.page_down();
                &&& self.scroll + self.count() < self.total ==> d.position() == self.scroll
                    + self.count() && d.scroll == d.position() && d.needs_load
                &&& self.scroll + self.count() == self.total ==> d.position() == self.total - 1
                    && d.scroll == self.scroll
                &&& d.wf()
            }),
            ({
                let u = self.page_up();
                &&& self.scroll > 0 ==> u.scroll < self.scroll <= u.scroll + PAGE_SIZE && (u.scroll
                    == 0 || u.scroll + PAGE_SIZE == self.scroll) && u.position() == u.scroll
                    && u.needs_load
                &&& self.scroll == 0 ==> u.position() == 0 && u.scroll == 0
                &&& u.wf()
            }),
    {
    }

    /// The buttons walk the directory: entry by entry, and page by page.
    pub proof fn law_buttons_walk_the_directory(self, c: ContextView)
        requires
            self.wf(),
            self.in_step(),
        ensures
            self.reacted(ActionEvent::Press(Action::Next), c).0.position() == if self.position() + 1
                < self.total {
                self.position() + 1
            } else {
                0
            },
            self.reacted(ActionEvent::Press(Action::Prev), c).0.position() == if self.position()
                > 0 {
                self.position() - 1
            } else {
                self.total - 1
            },
            self.reacted(ActionEvent::Repeat(Action::Next), c) == self.reacted(
                ActionEvent::Press(Action::Next),
                c,
            ),
            self.reacted(ActionEvent::Repeat(Action::Prev), c) == self.reacted(
                ActionEvent::Press(Action::Prev),
                c,
            ),
            self.reacted(ActionEvent::Press(Action::NextJump), c).0.position() >= self.position(),
            self.reacted(ActionEvent::Press(Action::PrevJump), c).0.position() <= self.position(),
    {
        self.law_steps_walk_the_directory(c);
        self.law_jumps_turn_pages();
    }

    /// Whatever moves the selection has the change drawn: at once, both rows and
    /// the count, or with the page that is loaded then.
    pub proof fn law_moves_are_drawn(self, e: ActionEvent, c: ContextView)
        requires
            self.wf(),
            self.in_step(),
        ensures
            ({
                let (after, drawn) = self.reacted(e, c);
                after.position() != self.position() ==> {
                    ||| after.needs_load
                    ||| drawn.wishes.contains(Wish::MarkDirty(self.list())) && drawn.wishes.contains(
                        Wish::MarkDirty(self.status_area()),
                    )
                    ||| drawn.wishes.contains(Wish::MarkDirty(self.row(self.selected as int)))
                        && drawn.wishes.contains(Wish::MarkDirty(self.row(after.selected as int)))
                        && drawn.wishes.contains(Wish::MarkDirty(self.status_area()))
                }
            }),
            self.reacted(e, c).0.scroll != self.scroll ==> self.reacted(e, c).0.needs_load,
    {
        let (after, drawn) = self.reacted(e, c);
        let n = c.wishes.len() as int;
        if after.position() != self.position() && !after.needs_load {
            if e == ActionEvent::Press(Action::PrevJump) || e == ActionEvent::Press(
                Action::NextJump,
            ) {
                assert(drawn.wishes[n] == Wish::MarkDirty(self.list()));
                assert(drawn.wishes[n + 1] == Wish::MarkDirty(self.status_area()));
            } else {
                assert(drawn.wishes[n] == Wish::MarkDirty(self.row(self.selected as int)));
                assert(drawn.wishes[n + 1] == Wish::MarkDirty(self.row(after.selected as int)));
                assert(drawn.wishes[n + 2] == Wish::MarkDirty(self.status_area()));
            }
        }
    }

    /// Selecting a file opens it, by its name, in the reader; a directory does
    /// not open, and nothing else does.
    pub proof fn law_the_selected_file_is_opened(self, e: ActionEvent, c: ContextView)
        requires
            self.wf(),
            self.in_step(),
        ensures
            ({
                let chosen = self.entries[self.selected as int];
                let opens = e == ActionEvent::Press(Action::Select) && !chosen.is_dir;
                &&& opens ==> self.led_to(e) == Transition::Push(AppId::Reader)
                &&& opens ==> self.reacted(e, c) == (
                    self,
                    ContextView { message: chosen.name, wishes: c.wishes },
                )
                &&& !opens ==> self.led_to(e) != Transition::Push(AppId::Reader)
                &&& !opens ==> self.reacted(e, c).1.message == c.message
            }),
    {
    }

    /// Of a page that was listed, all that fits is kept, in its order, and the
    /// selection stays on an entry.
    pub proof fn law_the_page_is_taken_whole(self, entries: Seq<EntryView>, total: usize)
        ensures
            ({
                let p = self.with_page(entries, total);
                &&& p.count() <= PAGE_SIZE
                &&& p.count() == entries.len() || p.count() == PAGE_SIZE
                &&& p.count() <= entries.len()
                &&& forall|i: int| 0 <= i < p.count() ==> #[trigger] p.entries[i] == entries[i]
                &&& p.total == total
                &&& p.count() > 0 ==> p.selected < p.count()
                &&& self.selected < p.count() ==> p.selected == self.selected
                &&& p.scroll == self.scroll
                &&& !p.needs_load
                &&& p.error is None
            }),
    {
    }

    /// What is on screen is what was asked for: a page is listed from the first
    /// entry on screen on, and again after each title that was found. Titles are
    /// looked up one after the other until none is left.
    pub proof fn law_pages_and_titles_are_fetched(self, t: TitleScanResult)
        ensures
            self.needs_load ==> (self.work() matches FilesWork::LoadPage { offset, refresh }
                && offset == self.scroll && refresh == self.stale_cache),
            !self.needs_load && self.title_scanning ==> self.work() == (FilesWork::ScanTitle {
                from: self.title_scan_idx,
            }),
            self.scanned(Some(t)).title_scan_idx == t.next_idx,
            t.resolved ==> self.scanned(Some(t)).work() is LoadPage,
            !t.resolved && !self.needs_load && self.title_scanning ==> self.scanned(
                Some(t),
            ).work() == (FilesWork::ScanTitle { from: t.next_idx }),
            !self.needs_load ==> self.scanned(None).work() == FilesWork::Idle,
            self.scanned(Some(t)).position() == self.position(),
            self.scanned(Some(t)).entries == self.entries,
            self.scanned(None).entries == self.entries,
    {
    }

    proof fn lemma_rows(self, n: int, i: int)
        requires
            0 <= i < n,
        ensures
            self.rows_picture(n).len() == n,
            self.rows_picture(n)[i] == if i < self.count() {
                self.label(i, self.entries[i].label, i == self.selected)
            } else {
                DrawView::Clear(self.row(i))
            },
        decreases n,
    {
        reveal_with_fuel(FilesView::rows_picture, 2);
        if i < n - 1 {
            self.lemma_rows(n - 1, i);
        } else if n > 1 {
            self.lemma_rows(n - 1, 0);
        }
    }

    /// Every entry on the page is shown by its label, in a row of its own below
    /// the one before, and stands out exactly where it is selected. Rows without
    /// an entry are cleared.
    pub proof fn law_every_entry_is_shown(self, i: int)
        requires
            self.wf(),
            self.error is None,
            self.count() > 0,
            0 <= i < PAGE_SIZE,
        ensures
            i < self.count() ==> self.picture().contains(
                DrawView::Label {
                    region: self.row(i),
                    words: WordsView::Text(self.entries[i].label),
                    font: UiFont::Body,
                    align: Alignment::CenterLeft,
                    inverted: i == self.selected,
                },
            ),
            i >= self.count() ==> self.picture().contains(DrawView::Clear(self.row(i))),
            i + 1 < PAGE_SIZE ==> above(self.row(i), self.row(i + 1)),
            self.list().y <= self.row(i).y,
            self.row(i).y + self.row(i).h <= self.list().y + self.list().h,
            self.row(i).x == self.list().x,
            self.row(i).w == self.list().w,
            self.screen.content_top + self.ui_fonts.heading <= self.list().y,
    {
        self.lemma_rows(PAGE_SIZE as int, i);
        let at = self.head_picture().len() + i;
        assert(self.picture()[at] == self.rows_picture(PAGE_SIZE as int)[i]);
    }

    /// The place of the selected entry and the number of all stand above the
    /// list.
    pub proof fn law_the_place_is_shown(self)
        requires
            self.wf(),
            self.total > 0,
        ensures
            self.picture().contains(
                DrawView::Label {
                    region: self.status_area(),
                    words: WordsView::Text(
                        decimal((self.scroll + self.selected + 1) as nat) + text_bytes("/")
                            + decimal(self.total as nat),
                    ),
                    font: UiFont::Body,
                    align: Alignment::CenterRight,
                    inverted: false,
                },
            ),
    {
        assert(self.picture()[1] == self.head_picture()[1]);
    }
}

/// The value of item `i`: minutes, page turns, and two font sizes.
pub open spec fn value_of(s: SystemSettings, i: int) -> int {
    if i == 0 {
        s.sleep_timeout as int
    } else if i == 1 {
        s.ghost_clear_every as int
    } else if i == 2 {
        s.book_font_size_idx as int
    } else {
        s.ui_font_size_idx as int
    }
}

/// A step up makes an item's value larger, or leaves the largest; a step down
/// makes it smaller, or leaves the smallest. No other item changes.
pub proof fn law_steps_change_one_item(s: SystemSettings, i: int, j: int, max_size: u8)
    requires
        0 <= i < NUM_ITEMS,
        0 <= j < NUM_ITEMS,
        s.sleep_timeout <= 120,
        1 <= s.ghost_clear_every <= 50,
    ensures
        ({
            let (u, d) = (stepped_up(s, i, max_size), stepped_down(s, i));
            &&& i != j ==> value_of(u, j) == value_of(s, j) && value_of(d, j) == value_of(s, j)
            &&& value_of(u, i) >= value_of(s, i)
            &&& value_of(u, i) == value_of(s, i) ==> {
                ||| i == 0 && s.sleep_timeout == 120
                ||| i == 1 && s.ghost_clear_every == 50
                ||| i >= 2 && value_of(s, i) >= max_size
            }
            &&& value_of(u, i) - value_of(s, i) <= if i < 2 {
                5int
            } else {
                1
            }
            &&& i >= 2 && value_of(s, i) <= max_size ==> value_of(u, i) <= max_size
            &&& value_of(d, i) <= value_of(s, i)
            &&& value_of(d, i) == value_of(s, i) ==> value_of(s, i) == if i == 1 {
                1int
            } else {
                0
            }
            &&& value_of(s, i) - value_of(d, i) <= if i < 2 {
                5int
            } else {
                1
            }
        }),
{
}

/// Away from the ends a step down undoes a step up, and the other way round.
pub proof fn law_steps_undo(s: SystemSettings, i: int, max_size: u8)
    requires
        0 <= i < NUM_ITEMS,
    ensures
        (if i == 0 {
            s.sleep_timeout < 120
        } else if i == 1 {
            1 <= s.ghost_clear_every <= 45
        } else {
            value_of(s, i) < max_size
        }) ==> stepped_down(stepped_up(s, i, max_size), i) == s,
        (if i == 0 {
            5 <= s.sleep_timeout <= 120
        } else if i == 1 {
            6 <= s.ghost_clear_every <= 50
        } else {
            0 < value_of(s, i) <= max_size
        }) ==> stepped_up(stepped_down(s, i), i, max_size) == s,
{
}

impl SettingsApp {
    /// The buttons walk the items in a ring, and step the value of the selected
    /// item alone; what was changed is drawn again and asks to be saved.
    pub proof fn law_buttons_change_settings(self, c: ContextView)
        requires
            self.wf(),
        ensures
            ({
                let (s, d) = self.reacted(ActionEvent::Press(Action::Next), c);
                &&& s == (SettingsApp { selected: s.selected, ..self })
                &&& s.selected == if self.selected + 1 < NUM_ITEMS {
                    self.selected + 1
                } else {
                    0
                }
                &&& d.wishes.contains(Wish::MarkDirty(self.spec_row(self.selected as int)))
                &&& d.wishes.contains(Wish::MarkDirty(self.spec_row(s.selected as int)))
            }),
            ({
                let (s, d) = self.reacted(ActionEvent::Press(Action::Prev), c);
                &&& s == (SettingsApp { selected: s.selected, ..self })
                &&& s.selected == if self.selected > 0 {
                    self.selected - 1
                } else {
                    NUM_ITEMS - 1
                }
                &&& d.wishes.contains(Wish::MarkDirty(self.spec_row(self.selected as int)))
                &&& d.wishes.contains(Wish::MarkDirty(self.spec_row(s.selected as int)))
            }),
            forall|up: bool, held: bool|
                #[trigger] self.changes_by(jump(up, held), up, c),
    {
        let n = c.wishes.len() as int;
        let d = self.reacted(ActionEvent::Press(Action::Next), c).1;
        assert(d.wishes[n] == Wish::MarkDirty(self.spec_row(self.selected as int)));
        let s = self.reacted(ActionEvent::Press(Action::Next), c).0;
        assert(d.wishes[n + 1] == Wish::MarkDirty(self.spec_row(s.selected as int)));
        let d = self.reacted(ActionEvent::Press(Action::Prev), c).1;
        assert(d.wishes[n] == Wish::MarkDirty(self.spec_row(self.selected as int)));
        let s = self.reacted(ActionEvent::Press(Action::Prev), c).0;
        assert(d.wishes[n + 1] == Wish::MarkDirty(self.spec_row(s.selected as int)));
        assert forall|up: bool, held: bool|
            #[trigger] self.changes_by(jump(up, held), up, c) by {
            let d = self.reacted(jump(up, held), c).1;
            assert(d.wishes[n] == Wish::MarkDirty(self.spec_value(self.selected as int)));
        }
    }

    /// Settings are loaded before anything is saved, and what was changed is
    /// saved until it could be.
    pub proof fn law_changes_are_saved(self, up: bool, held: bool, c: ContextView)
        requires
            self.wf(),
        ensures
            !self.loaded ==> self.work() == SettingsWork::Load,
            self.loaded ==> ({
                let s = self.reacted(jump(up, held), c).0;
                &&& s.work() == SettingsWork::Save
                &&& s.written(false).work() == SettingsWork::Save
                &&& s.written(true).work() == SettingsWork::Idle
                &&& s.written(true).settings == s.settings
            }),
            self.loaded && !self.save_needed ==> self.work() == SettingsWork::Idle,
    {
    }

    /// The event steps the selected item up or down.
    pub open spec fn changes_by(self, e: ActionEvent, up: bool, c: ContextView) -> bool {
        let (s, d) = self.reacted(e, c);
        &&& s.settings == if up {
            stepped_up(self.settings, self.selected as int, self.max_size)
        } else {
            stepped_down(self.settings, self.selected as int)
        }
        &&& s.save_needed
        &&& s == (SettingsApp { settings: s.settings, save_needed: true, ..self })
        &&& d.wishes.contains(Wish::MarkDirty(self.spec_value(self.selected as int)))
    }

    proof fn lemma_items(self, n: int, i: int)
        requires
            0 <= i < n,
        ensures
            self.items_picture(n).len() == 2 * n,
            self.items_picture(n)[2 * i] == self.item_picture(i)[0],
            self.items_picture(n)[2 * i + 1] == self.item_picture(i)[1],
        decreases n,
    {
        reveal_with_fuel(SettingsApp::items_picture, 2);
        if i < n - 1 {
            self.lemma_items(n - 1, i);
        } else if n > 1 {
            self.lemma_items(n - 1, 0);
        }
    }

    /// Once loaded, every setting is shown: its name at the left, its value at
    /// the right, in a row of its own, which stands out exactly where it is
    /// selected.
    pub proof fn law_every_setting_is_shown(self, i: int)
        requires
            self.wf(),
            self.loaded,
            0 <= i < NUM_ITEMS,
        ensures
            self.picture().contains(
                DrawView::Label {
                    region: self.spec_label(i),
                    words: WordsView::Text(
                        text_bytes(
                            if i == 0 {
                                "Sleep After"
                            } else if i == 1 {
                                "Ghost Clear"
                            } else if i == 2 {
                                "Book Font"
                            } else {
                                "UI Font"
                            },
                        ),
                    ),
                    font: UiFont::Body,
                    align: Alignment::CenterLeft,
                    inverted: i == self.selected,
                },
            ),
            self.picture().contains(
                DrawView::Label {
                    region: self.spec_value(i),
                    words: value_words(self.settings, i),
                    font: UiFont::Body,
                    align: Alignment::Center,
                    inverted: i == self.selected,
                },
            ),
            i >= 2 ==> value_words(self.settings, i) == WordsView::SizeName(
                value_of(self.settings, i) as u8,
            ),
            i == 0 && self.settings.sleep_timeout > 0 ==> value_words(self.settings, i)
                == WordsView::Text(
                decimal(value_of(self.settings, i) as nat) + text_bytes(" min"),
            ),
            i == 1 ==> value_words(self.settings, i) == WordsView::Text(
                text_bytes("Every ") + decimal(value_of(self.settings, i) as nat),
            ),
            self.spec_label(i).y == self.spec_value(i).y,
            self.spec_label(i).x + self.spec_label(i).w <= self.spec_value(i).x,
            i + 1 < NUM_ITEMS ==> above(self.spec_row(i), self.spec_row(i + 1)),
            self.spec_row(i).x <= self.spec_label(i).x,
            self.spec_value(i).x + self.spec_value(i).w <= self.spec_row(i).x + self.spec_row(i).w,
            self.spec_row(i).y == self.spec_label(i).y,
            self.spec_row(i).h == self.spec_label(i).h,
    {
        self.lemma_items(NUM_ITEMS as int, i);
        assert(self.picture()[1 + 2 * i] == self.item_picture(i)[0]);
        assert(self.picture()[2 + 2 * i] == self.item_picture(i)[1]);
    }
}

/// The button that steps a value up or down, pressed or held.
pub open spec fn jump(up: bool, held: bool) -> ActionEvent {
    let a = if up {
        Action::NextJump
    } else {
        Action::PrevJump
    };
    if held {
        ActionEvent::Repeat(a)
    } else {
        ActionEvent::Press(a)
    }
}

} // verus!
