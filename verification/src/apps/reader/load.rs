//! Loading the page on screen, and reading ahead.

use vstd::prelude::*;

use crate::apps::reader::pages::{PagerView, MAX_PAGES, MAX_TEXT, PAGE_BUF};
use crate::apps::reader::work::{AfterLoad, Ask, Reply, Task};
use crate::apps::reader::app::{ReaderApp, ReaderView, State};

verus! {

impl ReaderView {
    /// The question for the text at `offset`: of the chapter where chapters
    /// are cached, of the book's file otherwise.
    pub open spec fn text_at(self, offset: u32) -> Ask {
        if self.is_epub && self.cache.ready {
            Ask::ReadChapter { ch: self.chapter, offset, len: PAGE_BUF }
        } else {
            Ask::ReadBook { offset, len: PAGE_BUF }
        }
    }

    /// The page on screen is loaded: out of memory where the chapter is
    /// there, out of what was read ahead, or out of storage.
    pub open spec fn load_begun(self, next: AfterLoad) -> (ReaderView, Ask) {
        let p = self.pager;
        if p.ch_cache.len() > 0 {
            ReaderView { pager: p.from_memory(), ..self }.go_on(Task::PageImage { next })
        } else if p.prefetch_page == Some(p.page) {
            ReaderView { pager: p.from_prefetch(), ..self }.paged(next)
        } else if !(self.is_epub && self.cache.ready) && p.file_size == 0 {
            self.pose(Task::Open { next }, Ask::OpenBook { len: PAGE_BUF })
        } else {
            self.pose(Task::PageRead { next }, self.text_at(p.offset()))
        }
    }

    /// The text of the page is in the buffer: it is set in lines, and the page
    /// after it is read ahead.
    pub open spec fn paged(self, next: AfterLoad) -> (ReaderView, Ask) {
        let p = self.pager.noted();
        if p.page + 1 < p.total_pages {
            ReaderView { pager: p, ..self }.pose(
                Task::Prefetch { next },
                self.text_at(p.offsets[p.page + 1]),
            )
        } else {
            ReaderView { pager: p.without_prefetch(), ..self }.go_on(Task::PageImage { next })
        }
    }

    pub open spec fn page_read(self, next: AfterLoad, reply: Reply) -> (ReaderView, Ask) {
        match reply {
            Reply::Bytes(Ok(d)) => ReaderView { pager: self.pager.with_bytes(d@), ..self }.paged(
                next,
            ),
            Reply::Bytes(Err(e)) => self.failed(e),
            _ => (self, Ask::Idle),
        }
    }

    /// The first bytes of a book's file; an empty file has one empty page.
    pub open spec fn book_opened(self, next: AfterLoad, reply: Reply) -> (ReaderView, Ask) {
        match reply {
            Reply::Start(Ok(s)) => {
                let p = PagerView { file_size: s.0, ..self.pager.with_bytes(s.1@) };
                if s.0 == 0 {
                    ReaderView {
                        pager: PagerView { fully_indexed: true, lines: Seq::empty(), ..p },
                        ..self
                    }.go_on(Task::Loaded { next })
                } else {
                    ReaderView { pager: p, ..self }.paged(next)
                }
            },
            Reply::Start(Err(e)) => self.failed(e),
            _ => (self, Ask::Idle),
        }
    }

    pub open spec fn prefetched(self, next: AfterLoad, reply: Reply) -> (ReaderView, Ask) {
        match reply {
            Reply::Bytes(Ok(d)) => ReaderView {
                pager: self.pager.with_prefetch(d@),
                ..self
            }.go_on(Task::PageImage { next }),
            Reply::Bytes(Err(e)) => ReaderView {
                pager: self.pager.without_prefetch(),
                ..self
            }.go_on(Task::PageImage { next }),
            _ => (self, Ask::Idle),
        }
    }

    /// The page is shown.
    pub open spec fn page_ready(self) -> (ReaderView, Ask) {
        ReaderView { state: State::Ready, dirty: true, ..self }.go_on(Task::Tail)
    }

    pub open spec fn with_page(self, page: int) -> ReaderView {
        ReaderView { pager: PagerView { page: page as usize, ..self.pager }, ..self }
    }

    pub open spec fn load_done(self, next: AfterLoad) -> (ReaderView, Ask) {
        let p = self.pager;
        match next {
            AfterLoad::Page => self.page_ready(),
            AfterLoad::LastFinal => self.page_ready(),
            AfterLoad::Restore(target) => if p.page + 1 >= p.total_pages || p.offsets[p.page + 1]
                > target {
                self.page_ready()
            } else {
                self.with_page(p.page + 1).go_on(Task::Restore { target })
            },
            AfterLoad::LastScan => if p.page + 1 < p.total_pages {
                self.with_page(p.page + 1).go_on(Task::Last)
            } else {
                self.go_on(Task::LastEnd)
            },
        }
    }

    /// The search for the last page: as long as not all pages are known, the
    /// last known one is loaded.
    pub open spec fn last_sought(self) -> (ReaderView, Ask) {
        let p = self.pager;
        if !p.fully_indexed && p.total_pages < MAX_PAGES {
            self.with_page(p.last_page()).load_begun(AfterLoad::LastScan)
        } else {
            self.last_shown()
        }
    }

    pub open spec fn last_shown(self) -> (ReaderView, Ask) {
        let r = self.with_page(self.pager.last_page());
        ReaderView { pager: PagerView { prefetch_page: None, ..r.pager }, ..r }.load_begun(
            AfterLoad::LastFinal,
        )
    }
}

impl ReaderApp {
    fn ask_text(&self, offset: u32) -> (r: Ask)
        ensures
            r == self@.text_at(offset),
    {
        if self.is_epub() && self.cache().ready {
            Ask::ReadChapter { ch: self.chapter(), offset, len: PAGE_BUF }
        } else {
            Ask::ReadBook { offset, len: PAGE_BUF }
        }
    }

    /// Starts loading the page on screen and the page after it.
    pub fn load_and_prefetch(&mut self, next: AfterLoad) -> (r: Ask)
        requires
            old(self)@.wf(),
        ensures
            final(self)@.steady(),
            (final(self)@, r) == old(self)@.load_begun(next),
    {
        proof {
            self@.lemma_wf();
        }
        if self.pager().ch_cache.len() > 0 {
            self.pager_mut().load_from_memory();
            return self.go_on(Task::PageImage { next });
        }
        if self.pager().prefetch_page == Some(self.pager().page) {
            self.pager_mut().load_from_prefetch();
            return self.page_in_buffer(next);
        }
        if !(self.is_epub() && self.cache().ready) && self.pager().file_size == 0 {
            return self.pose(Task::Open { next }, Ask::OpenBook { len: PAGE_BUF });
        }
        let ask = self.ask_text(self.pager().offsets[self.pager().page]);
        self.pose(Task::PageRead { next }, ask)
    }

    fn page_in_buffer(&mut self, next: AfterLoad) -> (r: Ask)
        requires
            old(self)@.wf(),
        ensures
            final(self)@.steady(),
            (final(self)@, r) == old(self)@.paged(next),
    {
        proof {
            self@.lemma_wf();
        }
        self.pager_mut().note_page();
        if self.pager().page + 1 < self.pager().total_pages {
            let ask = self.ask_text(self.pager().offsets[self.pager().page + 1]);
            self.pose(Task::Prefetch { next }, ask)
        } else {
            self.pager_mut().drop_prefetch();
            self.go_on(Task::PageImage { next })
        }
    }

    pub(crate) fn on_page_read(&mut self, next: AfterLoad, reply: Reply) -> (r: Ask)
        requires
            old(self)@.steady(),
            reply matches Reply::Bytes(Ok(d)) ==> d@.len() <= PAGE_BUF,
            old(self)@.task == (Task::PageRead { next }),
        ensures
            final(self)@.steady(),
            (final(self)@, r) == old(self)@.page_read(next, reply),
    {
        proof {
            self@.lemma_wf();
        }
        match reply {
            Reply::Bytes(Ok(d)) => {
                self.pager_mut().load_bytes(d.as_slice());
                self.page_in_buffer(next)
            },
            Reply::Bytes(Err(e)) => self.fail(e),
            _ => Ask::Idle,
        }
    }

    pub(crate) fn on_book_opened(&mut self, next: AfterLoad, reply: Reply) -> (r: Ask)
        requires
            old(self)@.steady(),
            reply matches Reply::Start(Ok(s)) ==> s.0 <= MAX_TEXT && s.1@.len() <= PAGE_BUF,
            old(self)@.task == (Task::Open { next }),
        ensures
            final(self)@.steady(),
            (final(self)@, r) == old(self)@.book_opened(next, reply),
    {
        proof {
            self@.lemma_wf();
        }
        match reply {
            Reply::Start(Ok((size, d))) => {
                self.pager_mut().load_bytes(d.as_slice());
                self.pager_mut().set_file_size(size);
                if size == 0 {
                    self.pager_mut().show_nothing();
                    self.go_on(Task::Loaded { next })
                } else {
                    self.page_in_buffer(next)
                }
            },
            Reply::Start(Err(e)) => self.fail(e),
            _ => Ask::Idle,
        }
    }

    pub(crate) fn on_prefetched(&mut self, next: AfterLoad, reply: Reply) -> (r: Ask)
        requires
            old(self)@.steady(),
            reply matches Reply::Bytes(Ok(d)) ==> d@.len() <= PAGE_BUF,
            old(self)@.task == (Task::Prefetch { next }),
        ensures
            final(self)@.steady(),
            (final(self)@, r) == old(self)@.prefetched(next, reply),
    {
        proof {
            self@.lemma_wf();
        }
        match reply {
            Reply::Bytes(Ok(d)) => {
                self.pager_mut().load_prefetch(d.as_slice());
                self.go_on(Task::PageImage { next })
            },
            Reply::Bytes(Err(_)) => {
                self.pager_mut().drop_prefetch();
                self.go_on(Task::PageImage { next })
            },
            _ => Ask::Idle,
        }
    }

    pub(crate) fn show_page(&mut self) -> (r: Ask)
        requires
            old(self)@.wf(),
        ensures
            final(self)@.steady(),
            (final(self)@, r) == old(self)@.page_ready(),
    {
        proof {
            self@.lemma_wf();
        }
        self.set_state(State::Ready);
        self.set_dirty(true);
        self.go_on(Task::Tail)
    }

    pub(crate) fn on_loaded(&mut self, next: AfterLoad) -> (r: Ask)
        requires
            old(self)@.wf(),
        ensures
            final(self)@.steady(),
            (final(self)@, r) == old(self)@.load_done(next),
    {
        proof {
            self@.lemma_wf();
        }
        let page = self.pager().page;
        match next {
            AfterLoad::Page => self.show_page(),
            AfterLoad::LastFinal => self.show_page(),
            AfterLoad::Restore(target) => {
                if page + 1 >= self.pager().total_pages || self.pager().offsets[page + 1] > target {
                    self.show_page()
                } else {
                    self.pager_mut().go_to(page + 1);
                    self.go_on(Task::Restore { target })
                }
            },
            AfterLoad::LastScan => {
                if page + 1 < self.pager().total_pages {
                    self.pager_mut().go_to(page + 1);
                    self.go_on(Task::Last)
                } else {
                    self.go_on(Task::LastEnd)
                }
            },
        }
    }

    /// Loads pages until the last one is known, and shows it.
    pub fn scan_to_last_page(&mut self) -> (r: Ask)
        requires
            old(self)@.wf(),
        ensures
            final(self)@.steady(),
            (final(self)@, r) == old(self)@.last_sought(),
    {
        proof {
            self@.lemma_wf();
        }
        if !self.pager().fully_indexed && self.pager().total_pages < MAX_PAGES {
            let last = self.pager().last_known_page();
            self.pager_mut().go_to(last);
            self.load_and_prefetch(AfterLoad::LastScan)
        } else {
            self.show_last_page()
        }
    }

    pub(crate) fn show_last_page(&mut self) -> (r: Ask)
        requires
            old(self)@.wf(),
        ensures
            final(self)@.steady(),
            (final(self)@, r) == old(self)@.last_shown(),
    {
        proof {
            self@.lemma_wf();
        }
        let last = self.pager().last_known_page();
        self.pager_mut().go_to(last);
        self.pager_mut().ignore_prefetch();
        self.load_and_prefetch(AfterLoad::LastFinal)
    }
}

} // verus!
