//! Moving about in a book: pages and chapters in their order, the table of
//! contents, and how far the book is read.

use vstd::prelude::*;

use crate::apps::reader::app::{
    percent, ReaderView, State, NO_CHAPTER, QA_NEXT_CHAPTER, QA_PREV_CHAPTER, QA_TOC,
};
use crate::board::action::{Action, ActionEvent};
use crate::fonts::FontSet;
use crate::kernel::app::{ContextView, Wish};

verus! {

impl ReaderView {
    /// The page on screen is the last of its chapter.
    pub open spec fn at_chapter_end(self) -> bool {
        self.pager.fully_indexed && self.pager.page + 1 >= self.pager.total_pages
    }

    /// A page on is the page after the one on screen, and behind the last page
    /// of a chapter the first of the chapter after it. Only at the end of the
    /// book, or of what is known of it, there is none. Nothing else changes.
    pub proof fn law_a_page_on_is_the_next(self)
        requires
            self.wf(),
            self.state == State::Ready,
        ensures
            self.pager.page + 1 < self.pager.total_pages ==> self.page_on() == Some(
                ReaderView {
                    pager: (crate::apps::reader::pages::PagerView {
                        page: (self.pager.page + 1) as usize,
                        ..self.pager
                    }),
                    state: State::NeedPage,
                    ..self
                },
            ),
            self.is_epub && self.at_chapter_end() && self.chapter + 1 < self.spine.len()
                ==> self.page_on() == Some(
                ReaderView {
                    chapter: (self.chapter + 1) as u16,
                    goto_last_page: false,
                    state: State::NeedIndex,
                    ..self
                },
            ),
            self.pager.page + 1 >= self.pager.total_pages && !(self.is_epub
                && self.at_chapter_end() && self.chapter + 1 < self.spine.len())
                ==> self.page_on() is None,
    {
        self.lemma_wf();
    }

    /// A page back is the page before, and before the first page of a chapter
    /// the last of the chapter before it. Only at the start of the book there is
    /// none.
    pub proof fn law_a_page_back_is_the_one_before(self)
        requires
            self.wf(),
            self.state == State::Ready,
        ensures
            self.pager.page > 0 ==> self.page_back() == Some(
                ReaderView {
                    pager: (crate::apps::reader::pages::PagerView {
                        page: (self.pager.page - 1) as usize,
                        ..self.pager
                    }),
                    state: State::NeedPage,
                    ..self
                },
            ),
            self.pager.page == 0 && self.is_epub && self.chapter > 0 ==> self.page_back() == Some(
                ReaderView {
                    chapter: (self.chapter - 1) as u16,
                    goto_last_page: true,
                    state: State::NeedIndex,
                    ..self
                },
            ),
            self.pager.page == 0 && !(self.is_epub && self.chapter > 0) ==> self.page_back()
                is None,
    {
    }

    /// A chapter that is gone to is shown from its first page, or, where that was
    /// asked for, from its last; the pages known are its own.
    pub proof fn law_a_chapter_is_entered_at_its_start(self)
        requires
            self.wf(),
        ensures
            ({
                let r = self.at_chapter();
                &&& r.pager.page == 0
                &&& r.pager.offsets[0] == 0
                &&& r.pager.total_pages == 1
                &&& !r.pager.fully_indexed
                &&& r.pager.ch_cache.len() == 0
                &&& r.pager.prefetch_page is None
                &&& r.chapter == self.chapter
                &&& self.is_epub ==> r.pager.file_size == self.cache.sizes[self.chapter as int]
                &&& r.page_img is None
                &&& !r.goto_last_page
            }),
    {
        self.lemma_wf();
    }

    /// A jump in a book with chapters leads to the start of the one after or
    /// before; in another book ten pages on or back, or as far as it goes.
    pub proof fn law_jumps(self)
        requires
            self.wf(),
            self.state == State::Ready,
        ensures
            self.is_epub ==> (self.jump_on() matches Some(r) ==> r.chapter == self.chapter + 1
                && !r.goto_last_page && r.state == State::NeedIndex),
            self.is_epub ==> (self.jump_on() is Some <==> self.chapter + 1 < self.spine.len()),
            self.is_epub ==> (self.jump_back() matches Some(r) ==> r.chapter == self.chapter - 1
                && !r.goto_last_page && r.state == State::NeedIndex),
            self.is_epub ==> (self.jump_back() is Some <==> self.chapter > 0),
            !self.is_epub ==> (self.jump_on() matches Some(r) ==> r.pager.page > self.pager.page
                && r.pager.page <= self.pager.page + 10 && (r.pager.page == self.pager.page + 10
                || r.pager.page + 1 == self.pager.total_pages) && r.state == State::NeedPage),
            !self.is_epub ==> (self.jump_on() is Some <==> self.pager.page + 1
                < self.pager.total_pages),
            !self.is_epub ==> (self.jump_back() matches Some(r) ==> r.pager.page < self.pager.page
                && r.pager.page + 10 >= self.pager.page && (r.pager.page + 10 == self.pager.page
                || r.pager.page == 0) && r.state == State::NeedPage),
            !self.is_epub ==> (self.jump_back() is Some <==> self.pager.page > 0),
    {
        self.lemma_wf();
    }

    /// The buttons lead where they say: on and back by a page, on and back by a
    /// jump. Where a press leads anywhere the page is drawn again, and where it
    /// leads nowhere nothing happens.
    pub proof fn law_buttons_turn_pages(self, c: ContextView)
        requires
            self.state != State::ShowToc,
        ensures
            forall|to: Option<ReaderView>, e: ActionEvent|
                ({
                    ||| e == ActionEvent::Press(Action::Next) && to == self.page_on()
                    ||| e == ActionEvent::Repeat(Action::Next) && to == self.page_on()
                    ||| e == ActionEvent::Press(Action::Prev) && to == self.page_back()
                    ||| e == ActionEvent::Repeat(Action::Prev) && to == self.page_back()
                    ||| e == ActionEvent::Press(Action::NextJump) && to == self.jump_on()
                    ||| e == ActionEvent::Press(Action::PrevJump) && to == self.jump_back()
                }) ==> #[trigger] reaction_is(self, e, c, to),
    {
    }

    /// The position is shown as long as a button is held, and no longer.
    pub proof fn law_the_position_is_shown_while_held(self, c: ContextView)
        requires
            self.state == State::Ready,
        ensures
            self.reacted(ActionEvent::LongPress(Action::Next), c).0.show_position,
            self.reacted(ActionEvent::LongPress(Action::Prev), c).0.show_position,
            !self.reacted(ActionEvent::Release(Action::Next), c).0.show_position,
            !self.reacted(ActionEvent::Release(Action::Prev), c).0.show_position,
            self.show_position ==> self.reacted(
                ActionEvent::Release(Action::Next),
                c,
            ).1.wishes.len() == c.wishes.len() + 1,
    {
    }

    proof fn lemma_entry_here(self, i: int)
        requires
            0 <= i <= self.toc.len(),
        ensures
            match self.toc_entry_here(i) {
                Some(k) => i <= k < self.toc.len() && self.toc[k].spine_idx == self.chapter
                    && forall|j: int|
                    i <= j < k ==> (#[trigger] self.toc[j]).spine_idx != self.chapter,
                None => forall|j: int|
                    i <= j < self.toc.len() ==> (#[trigger] self.toc[j]).spine_idx != self.chapter,
            },
        decreases self.toc.len() - i,
    {
        if i < self.toc.len() && self.toc[i].spine_idx != self.chapter {
            self.lemma_entry_here(i + 1);
        }
    }

    /// The table of contents opens at the first entry of the chapter on screen,
    /// and at its top where there is none.
    pub proof fn law_the_contents_open_at_the_chapter(self, c: ContextView)
        requires
            self.wf(),
            self.is_epub,
            self.toc.len() > 0,
            self.toc.len() <= usize::MAX,
        ensures
            ({
                let r = self.triggered(QA_TOC, c).0;
                &&& r.state == State::ShowToc
                &&& r.chapter == self.chapter
                &&& r.pager == self.pager
                &&& r.toc == self.toc
                &&& r.toc_selected < self.toc.len()
                &&& forall|j: int|
                    0 <= j < r.toc_selected ==> (#[trigger] self.toc[j]).spine_idx != self.chapter
                &&& (exists|j: int|
                    0 <= j < self.toc.len() && (#[trigger] self.toc[j]).spine_idx == self.chapter)
                    ==> self.toc[r.toc_selected as int].spine_idx == self.chapter
                &&& (forall|j: int|
                    0 <= j < self.toc.len() ==> (#[trigger] self.toc[j]).spine_idx != self.chapter)
                    ==> r.toc_selected == 0
            }),
    {
        self.lemma_entry_here(0);
    }

    /// Choosing an entry of the contents leads to the start of its chapter; one
    /// without a chapter, and going back, lead to the page that was on screen.
    pub proof fn law_contents_lead_to_their_chapter(self, c: ContextView)
        requires
            self.wf(),
            self.state == State::ShowToc,
        ensures
            ({
                let r = self.reacted(ActionEvent::Press(Action::Select), c).0;
                let ch = self.toc[self.toc_selected as int].spine_idx;
                &&& ch != NO_CHAPTER ==> {
                    &&& r.chapter == ch
                    &&& r.pager.page == 0
                    &&& !r.goto_last_page
                    &&& r.state == State::NeedIndex
                }
                &&& ch == NO_CHAPTER ==> r == (ReaderView { state: State::Ready, ..self })
                &&& self.reacted(ActionEvent::Press(Action::Back), c).0 == (ReaderView {
                    state: State::Ready,
                    ..self
                })
            }),
    {
    }

    /// The selection goes round the contents entry by entry, down and up.
    pub proof fn law_contents_go_round(self, c: ContextView)
        requires
            self.state == State::ShowToc,
            self.toc_selected < self.toc.len(),
            self.toc.len() <= usize::MAX,
        ensures
            ({
                let n = self.toc.len() as int;
                let down = self.reacted(ActionEvent::Press(Action::Next), c).0;
                let up = self.reacted(ActionEvent::Press(Action::Prev), c).0;
                &&& down.toc_selected == if self.toc_selected + 1 < n {
                    self.toc_selected + 1
                } else {
                    0
                }
                &&& up.toc_selected == if self.toc_selected > 0 {
                    self.toc_selected - 1
                } else {
                    n - 1
                }
                &&& down.state == State::ShowToc
                &&& up.state == State::ShowToc
                &&& down.toc == self.toc
                &&& up.toc == self.toc
                &&& down.chapter == self.chapter
                &&& up.chapter == self.chapter
            }),
    {
    }

    /// The menu's chapters are the one before and the one after.
    pub proof fn law_the_menu_turns_chapters(self, c: ContextView)
        requires
            self.wf(),
            self.is_epub,
        ensures
            self.chapter > 0 ==> self.triggered(QA_PREV_CHAPTER, c).0 == (ReaderView {
                chapter: (self.chapter - 1) as u16,
                goto_last_page: false,
                state: State::NeedIndex,
                ..self
            }),
            self.chapter == 0 ==> self.triggered(QA_PREV_CHAPTER, c).0 == self,
            self.chapter + 1 < self.spine.len() ==> self.triggered(QA_NEXT_CHAPTER, c).0 == (
            ReaderView {
                chapter: (self.chapter + 1) as u16,
                goto_last_page: false,
                state: State::NeedIndex,
                ..self
            }),
            self.chapter + 1 >= self.spine.len() ==> self.triggered(QA_NEXT_CHAPTER, c).0 == self,
    {
        self.lemma_wf();
    }

    /// A new font size is taken over, with its fonts, and the text on screen is
    /// set anew; the book and the chapter stay.
    pub proof fn law_a_new_size_sets_the_text_anew(self, value: u8, fonts: Seq<FontSet>)
        requires
            self.state == State::Ready,
        ensures
            ({
                let r = self.resized(value, fonts);
                &&& r.book_font_size_idx == value
                &&& r.applied_font_idx == value
                &&& value < fonts.len() ==> r.pager.face.fonts == Some(fonts[value as int])
                &&& r.state == if self.is_epub && self.cache.ready {
                    State::NeedIndex
                } else {
                    State::NeedPage
                }
                &&& r.chapter == self.chapter
                &&& r.filename == self.filename
                &&& r.pager.page == self.pager.page
            }),
    {
    }
}

impl ReaderView {
    /// The last page of the book is on screen.
    pub open spec fn at_book_end(self) -> bool {
        &&& self.at_chapter_end()
        &&& self.is_epub && self.spine.len() > 0 ==> self.chapter + 1 >= self.spine.len()
    }

    /// This reader's page lies before the other's, in the same book.
    pub open spec fn earlier_than(self, other: ReaderView) -> bool {
        &&& self.is_epub == other.is_epub
        &&& self.spine.len() == other.spine.len()
        &&& {
            ||| self.is_epub && self.chapter < other.chapter
            ||| self.chapter == other.chapter && self.pager.file_size == other.pager.file_size
                && self.pager.offset() <= other.pager.offset()
        }
    }

    /// How far the book is read runs from none of it to all of it, is all of it
    /// on the last page, and never falls on the way there.
    pub proof fn law_progress_grows(self, other: ReaderView)
        requires
            self.earlier_than(other),
            !self.at_book_end(),
            self.is_epub ==> other.chapter < other.spine.len(),
        ensures
            0 <= self.progress() <= other.progress() <= 100,
            other.at_book_end() ==> other.progress() == 100,
            self.pager.file_size > 0 && self.pager.offset() == 0 && (self.is_epub ==> self.chapter
                == 0) ==> self.progress() == 0,
    {
        let (p, q) = (self.pager, other.pager);
        let n = self.spine.len() as int;
        lemma_percent(p.offset() as int, p.file_size as int);
        lemma_percent(q.offset() as int, q.file_size as int);
        if p.file_size == q.file_size && p.file_size > 0 && p.offset() <= q.offset() {
            lemma_percent_ordered(p.offset() as int, q.offset() as int, p.file_size as int);
        }
        if self.is_epub && n > 0 {
            let a = self.chapter * 100 + if p.file_size == 0 {
                0
            } else {
                percent(p.offset() as int, p.file_size as int)
            };
            let b = other.chapter * 100 + if q.file_size == 0 {
                0
            } else {
                percent(q.offset() as int, q.file_size as int)
            };
            assert(0 <= a <= b);
            assert(0 <= a / n <= b / n) by (nonlinear_arith)
                requires
                    0 <= a <= b,
                    n > 0,
            ;
            if a == 0 {
                assert(a / n == 0) by (nonlinear_arith)
                    requires
                        a == 0,
                        n > 0,
                ;
            }
        }
    }
}

proof fn lemma_percent(a: int, whole: int)
    requires
        0 <= a,
    ensures
        whole > 0 ==> 0 <= percent(a, whole) <= 100,
        whole > 0 && a == 0 ==> percent(a, whole) == 0,
{
    if whole > 0 {
        assert(0 <= (a * 100) / whole) by (nonlinear_arith)
            requires
                0 <= a,
                whole > 0,
        ;
        assert(a == 0 ==> (a * 100) / whole == 0) by (nonlinear_arith)
            requires
                whole > 0,
        ;
    }
}

proof fn lemma_percent_ordered(a: int, b: int, whole: int)
    requires
        0 <= a <= b,
        whole > 0,
    ensures
        percent(a, whole) <= percent(b, whole),
{
    assert((a * 100) / whole <= (b * 100) / whole) by (nonlinear_arith)
        requires
            0 <= a <= b,
            whole > 0,
    ;
}

/// The event leads to `to` and has the page drawn, or does nothing where that is
/// nowhere.
pub open spec fn reaction_is(
    r: ReaderView,
    e: ActionEvent,
    c: ContextView,
    to: Option<ReaderView>,
) -> bool {
    match to {
        Some(next) => r.reacted(e, c) == (
            next,
            ContextView {
                wishes: c.wishes.push(Wish::MarkDirty(r.screen.page_area())),
                message: c.message,
            },
        ),
        None => r.reacted(e, c) == (r, c),
    }
}

/// A share in percent is what it should be: no more than the whole, nothing of
/// nothing, all of all, and more where there is more.
pub proof fn law_percent_grows(a: int, b: int, whole: int)
    requires
        0 <= a <= b <= whole,
        whole > 0,
    ensures
        0 <= percent(a, whole) <= percent(b, whole) <= 100,
        percent(0, whole) == 0,
        percent(whole, whole) == 100,
        percent(a, whole) * whole <= a * 100 < (percent(a, whole) + 1) * whole,
{
    assert((whole * 100) / whole == 100) by (nonlinear_arith)
        requires
            whole > 0,
    ;
    assert((0int * 100) / whole == 0) by (nonlinear_arith)
        requires
            whole > 0,
    ;
    assert(0 <= (a * 100) / whole <= (b * 100) / whole <= 100) by (nonlinear_arith)
        requires
            0 <= a <= b <= whole,
            whole > 0,
    ;
    assert(((a * 100) / whole) * whole <= a * 100 < (((a * 100) / whole) + 1) * whole)
        by (nonlinear_arith)
        requires
            0 <= a,
            whole > 0,
    ;
}

} // verus!
