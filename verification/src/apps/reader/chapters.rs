//! Caching the chapters of a book, in the background and on demand.

use vstd::prelude::*;

use crate::apps::reader::app::{ReaderApp, ReaderView, State};
use crate::apps::reader::cache::{count_up, counted_up, BgCacheState, CacheView};
use crate::apps::reader::pages::MAX_TEXT;
use crate::apps::reader::work::{
    AfterStrip, Ask, Reply, Task, WorkOutcome, ASYNC_THRESHOLD,
};

verus! {

impl ReaderView {
    /// Chapter `ch` is cached, unless it is or there is no such chapter.
    pub open spec fn strip_begun(self, ch: int, after: AfterStrip) -> (ReaderView, Ask) {
        if ch >= self.spine.len() || self.cache.done[ch] {
            self.go_on(Task::Stripped { after })
        } else {
            self.pose(
                Task::Truncate { ch: ch as u16, after },
                Ask::TruncateChapter { ch: ch as u16 },
            )
        }
    }

    pub open spec fn truncated(self, ch: u16, after: AfterStrip, reply: Reply) -> (
        ReaderView,
        Ask,
    ) {
        match reply {
            Reply::Outcome(Ok(_)) => self.pose(
                Task::Strip { ch, after },
                Ask::StripChapter { ch },
            ),
            Reply::Outcome(Err(e)) => self.strip_failed(after, e),
            _ => (self, Ask::Idle),
        }
    }

    pub open spec fn stripped(self, ch: u16, after: AfterStrip, reply: Reply) -> (
        ReaderView,
        Ask,
    ) {
        match reply {
            Reply::Size(Ok(size)) => ReaderView {
                cache: self.cache.with_chapter(ch as int, size),
                ..self
            }.go_on(Task::Stripped { after }),
            Reply::Size(Err(e)) => self.strip_failed(after, e),
            _ => (self, Ask::Idle),
        }
    }

    pub open spec fn with_next(self, next: u16) -> ReaderView {
        ReaderView { cache: CacheView { next, ..self.cache }, ..self }
    }

    pub open spec fn strip_done(self, after: AfterStrip) -> (ReaderView, Ask) {
        match after {
            AfterStrip::Cache => ReaderView {
                cache: CacheView { ready: true, next: 0, ..self.cache },
                ..self
            }.go_on(Task::Nearby { k: 0, opening: true }),
            AfterStrip::Index => self.indexing(),
            AfterStrip::Adjacent { second } => self.adjacent_done(second),
            AfterStrip::Instead => self.with_next(counted_up(self.cache.next)).with_bg(
                BgCacheState::CacheChapter,
            ).rest(),
            AfterStrip::Worker => self.received(),
        }
    }

    pub open spec fn strip_failed(self, after: AfterStrip, e: &'static str) -> (ReaderView, Ask) {
        match after {
            AfterStrip::Cache => self.failed(e),
            AfterStrip::Index => self.failed(e),
            AfterStrip::Adjacent { second } => self.adjacent_done(second),
            AfterStrip::Instead => self.dispatch_failed(),
            AfterStrip::Worker => self.received(),
        }
    }

    pub open spec fn adjacent_done(self, second: bool) -> (ReaderView, Ask) {
        if second {
            self.go_on(Task::DispatchNext)
        } else {
            self.go_on(Task::Adjacent { second: true })
        }
    }

    /// The chapters next to that on screen come first: the next one, then the
    /// one before.
    pub open spec fn adjacent(self, second: bool) -> (ReaderView, Ask) {
        let adj = if !second {
            self.chapter + 1
        } else if self.chapter > 0 {
            self.chapter - 1
        } else {
            0
        };
        if adj < self.spine.len() && adj != self.chapter && !self.cache.done[adj] {
            self.strip_begun(adj, AfterStrip::Adjacent { second })
        } else {
            self.adjacent_done(second)
        }
    }

    /// The reader whose next chapter is the first from there on that is not
    /// cached.
    pub open spec fn past_cached(self) -> ReaderView {
        self.with_next(
            self.cache.next_open(self.cache.next as int, self.spine.len() as int) as u16,
        )
    }

    /// The next chapter that is not cached goes to the worker, or is cached at
    /// once where it is large. After the last one the record of the cache is
    /// written.
    pub open spec fn dispatched_next(self) -> (ReaderView, Ask) {
        self.past_cached().dispatched()
    }

    pub open spec fn dispatched(self) -> (ReaderView, Ask) {
        let ch = self.cache.next;
        if ch >= self.spine.len() {
            self.pose(Task::Finish { received: false }, Ask::WriteMeta)
        } else if self.spine[ch as int] > ASYNC_THRESHOLD {
            self.strip_begun(ch as int, AfterStrip::Instead)
        } else {
            self.pose(Task::DispatchTruncate { ch }, Ask::TruncateChapter { ch })
        }
    }

    /// The chapter is passed over; the next tick tries the one after it.
    pub open spec fn dispatch_failed(self) -> (ReaderView, Ask) {
        self.with_next(counted_up(self.cache.next)).rest()
    }

    pub open spec fn dispatch_truncated(self, ch: u16, reply: Reply) -> (ReaderView, Ask) {
        match reply {
            Reply::Outcome(Ok(_)) => self.pose(
                Task::DispatchExtract { ch },
                Ask::ExtractChapter { ch },
            ),
            Reply::Outcome(Err(_)) => self.dispatch_failed(),
            _ => (self, Ask::Idle),
        }
    }

    pub open spec fn dispatch_extracted(self, ch: u16, reply: Reply) -> (ReaderView, Ask) {
        match reply {
            Reply::Outcome(Ok(_)) => self.pose(Task::DispatchSubmit, Ask::SubmitChapter { ch }),
            Reply::Outcome(Err(_)) => self.strip_begun(ch as int, AfterStrip::Instead),
            _ => (self, Ask::Idle),
        }
    }

    pub open spec fn dispatch_submitted(self, reply: Reply) -> (ReaderView, Ask) {
        match reply {
            Reply::Flag(ok) => if ok {
                self.with_bg(BgCacheState::WaitChapter).rest()
            } else {
                self.dispatch_failed()
            },
            _ => (self, Ask::Idle),
        }
    }

    /// All chapters are cached: the search for images begins at the chapter on
    /// screen.
    pub open spec fn cache_finished(self, received: bool, reply: Reply) -> (ReaderView, Ask) {
        match reply {
            Reply::Outcome(Ok(_)) => ReaderView {
                cache: CacheView { ready: true, ..self.cache }.image_search(self.chapter),
                ..self
            }.rest(),
            Reply::Outcome(Err(_)) => if received {
                self.with_bg(BgCacheState::CacheChapter).rest()
            } else {
                self.dispatch_failed()
            },
            _ => (self, Ask::Idle),
        }
    }

    /// What the worker made of a chapter. Results for another book, and of
    /// another kind, are passed over.
    pub open spec fn chapter_received(self, reply: Reply) -> (ReaderView, Ask) {
        match reply {
            Reply::Worker(Some(w)) => if !w.current {
                self.rest()
            } else {
                match w.outcome {
                    WorkOutcome::ChapterReady { ch, text } => if self.cache.done[ch as int] {
                        self.received()
                    } else {
                        ReaderView { scratch: text@, ..self }.pose(
                            Task::RecvWrite { ch, size: text@.len() as u32 },
                            Ask::WriteChapter { ch },
                        )
                    },
                    WorkOutcome::ChapterFailed { ch } => self.strip_begun(
                        ch as int,
                        AfterStrip::Worker,
                    ),
                    _ => self.rest(),
                }
            },
            Reply::Worker(None) => self.rest(),
            _ => (self, Ask::Idle),
        }
    }

    pub open spec fn chapter_written(self, ch: u16, size: u32, reply: Reply) -> (ReaderView, Ask) {
        match reply {
            Reply::Outcome(Ok(_)) => ReaderView {
                cache: self.cache.with_chapter(ch as int, size),
                ..self
            }.received(),
            Reply::Outcome(Err(_)) => self.with_bg(BgCacheState::CacheChapter).rest(),
            _ => (self, Ask::Idle),
        }
    }

    /// One chapter is behind: images near that on screen come next, and after
    /// the last chapter the record of the cache.
    pub open spec fn received(self) -> (ReaderView, Ask) {
        let r = self.with_next(counted_up(self.cache.next));
        if r.cache.next < r.spine.len() {
            r.go_on(Task::Nearby { k: 0, opening: false })
        } else {
            r.pose(Task::Finish { received: true }, Ask::WriteMeta)
        }
    }

    /// One step of the work that goes on while the user reads.
    pub open spec fn bg_stepped(self) -> (ReaderView, Ask) {
        match self.cache.bg {
            BgCacheState::CacheChapter => self.past_cached().go_on(
                Task::Adjacent { second: false },
            ),
            BgCacheState::WaitChapter => self.pose(Task::RecvChapter, Ask::PollWorker),
            BgCacheState::WaitNearbyImage => self.pose(
                Task::RecvImage { nearby: true },
                Ask::PollWorker,
            ),
            BgCacheState::CacheImage => self.go_on(Task::Find),
            BgCacheState::WaitImage => self.pose(
                Task::RecvImage { nearby: false },
                Ask::PollWorker,
            ),
            BgCacheState::Idle => self.rest(),
        }
    }

    /// The end of a tick: with a page or the table of contents on screen,
    /// there is time for the background work.
    pub open spec fn tailed(self) -> (ReaderView, Ask) {
        if (self.state == State::Ready || self.state == State::ShowToc) && self.cache.bg
            != BgCacheState::Idle {
            self.bg_stepped()
        } else {
            self.rest()
        }
    }
}

impl ReaderApp {
    /// Caches chapter `ch`.
    pub(crate) fn strip(&mut self, ch: usize, after: AfterStrip) -> (r: Ask)
        requires
            old(self)@.wf(),
        ensures
            final(self)@.steady(),
            (final(self)@, r) == old(self)@.strip_begun(ch as int, after),
    {
        proof {
            self@.lemma_wf();
        }
        if ch >= self.spine().len() || self.cache().done[ch] {
            self.go_on(Task::Stripped { after })
        } else {
            let ch = ch as u16;
            self.pose_bound(Task::Truncate { ch, after }, Ask::TruncateChapter { ch })
        }
    }

    pub(crate) fn on_truncated(&mut self, ch: u16, after: AfterStrip, reply: Reply) -> (r: Ask)
        requires
            old(self)@.steady(),
            ch < old(self)@.cache.room(),
        ensures
            final(self)@.steady(),
            (final(self)@, r) == old(self)@.truncated(ch, after, reply),
    {
        match reply {
            Reply::Outcome(Ok(_)) => self.pose_bound(
                Task::Strip { ch, after },
                Ask::StripChapter { ch },
            ),
            Reply::Outcome(Err(e)) => self.fail_strip(after, e),
            _ => Ask::Idle,
        }
    }

    pub(crate) fn on_stripped(&mut self, ch: u16, after: AfterStrip, reply: Reply) -> (r: Ask)
        requires
            old(self)@.steady(),
            ch < old(self)@.cache.room(),
            reply matches Reply::Size(Ok(n)) ==> n <= MAX_TEXT,
        ensures
            final(self)@.steady(),
            (final(self)@, r) == old(self)@.stripped(ch, after, reply),
    {
        match reply {
            Reply::Size(Ok(size)) => {
                proof {
                    self@.lemma_wf();
                }
                self.cache_mut().set_chapter(ch as usize, size);
                self.go_on(Task::Stripped { after })
            },
            Reply::Size(Err(e)) => self.fail_strip(after, e),
            _ => Ask::Idle,
        }
    }

    fn count_chapter(&mut self)
        requires
            old(self)@.wf(),
        ensures
            final(self)@.wf(),
            final(self)@ == old(self)@.with_next(counted_up(old(self)@.cache.next)),
    {
        proof {
            self@.lemma_wf();
        }
        let next = count_up(self.cache().next);
        self.cache_mut().set_next(next);
    }

    pub(crate) fn set_bg(&mut self, bg: BgCacheState)
        requires
            old(self)@.wf(),
        ensures
            final(self)@.wf(),
            final(self)@ == old(self)@.with_bg(bg),
    {
        proof {
            self@.lemma_wf();
        }
        self.cache_mut().set_bg(bg);
    }

    pub(crate) fn end_strip(&mut self, after: AfterStrip) -> (r: Ask)
        requires
            old(self)@.wf(),
        ensures
            final(self)@.steady(),
            (final(self)@, r) == old(self)@.strip_done(after),
    {
        match after {
            AfterStrip::Cache => {
                proof {
                    self@.lemma_wf();
                }
                self.cache_mut().set_ready(true);
                self.cache_mut().set_next(0);
                self.go_on(Task::Nearby { k: 0, opening: true })
            },
            AfterStrip::Index => self.index_chapter(),
            AfterStrip::Adjacent { second } => self.end_adjacent(second),
            AfterStrip::Instead => {
                self.count_chapter();
                self.set_bg(BgCacheState::CacheChapter);
                self.rest()
            },
            AfterStrip::Worker => self.receive(),
        }
    }

    fn fail_strip(&mut self, after: AfterStrip, e: &'static str) -> (r: Ask)
        requires
            old(self)@.wf(),
        ensures
            final(self)@.steady(),
            (final(self)@, r) == old(self)@.strip_failed(after, e),
    {
        match after {
            AfterStrip::Cache => self.fail(e),
            AfterStrip::Index => self.fail(e),
            AfterStrip::Adjacent { second } => self.end_adjacent(second),
            AfterStrip::Instead => self.fail_dispatch(),
            AfterStrip::Worker => self.receive(),
        }
    }

    fn end_adjacent(&mut self, second: bool) -> (r: Ask)
        requires
            old(self)@.wf(),
        ensures
            final(self)@.steady(),
            (final(self)@, r) == old(self)@.adjacent_done(second),
    {
        if second {
            self.go_on(Task::DispatchNext)
        } else {
            self.go_on(Task::Adjacent { second: true })
        }
    }

    pub(crate) fn strip_adjacent(&mut self, second: bool) -> (r: Ask)
        requires
            old(self)@.wf(),
        ensures
            final(self)@.steady(),
            (final(self)@, r) == old(self)@.adjacent(second),
    {
        proof {
            self@.lemma_wf();
        }
        let here = self.chapter() as usize;
        let adj = if !second {
            here + 1
        } else if here > 0 {
            here - 1
        } else {
            0
        };
        if adj < self.spine().len() && adj != here && !self.cache().done[adj] {
            self.strip(adj, AfterStrip::Adjacent { second })
        } else {
            self.end_adjacent(second)
        }
    }

    /// Hands the next chapter to the worker.
    pub(crate) fn epub_dispatch_chapter_strip(&mut self) -> (r: Ask)
        requires
            old(self)@.wf(),
        ensures
            final(self)@.steady(),
            (final(self)@, r) == old(self)@.dispatched_next(),
    {
        proof {
            self@.lemma_wf();
        }
        let end = self.spine().len();
        self.cache_mut().skip_done(end);
        let ch = self.cache().next;
        if ch as usize >= self.spine().len() {
            return self.pose(Task::Finish { received: false }, Ask::WriteMeta);
        }
        if self.spine()[ch as usize] > ASYNC_THRESHOLD {
            return self.strip(ch as usize, AfterStrip::Instead);
        }
        self.pose_bound(Task::DispatchTruncate { ch }, Ask::TruncateChapter { ch })
    }

    fn fail_dispatch(&mut self) -> (r: Ask)
        requires
            old(self)@.wf(),
        ensures
            final(self)@.steady(),
            (final(self)@, r) == old(self)@.dispatch_failed(),
    {
        self.count_chapter();
        self.rest()
    }

    pub(crate) fn on_dispatch_truncated(&mut self, ch: u16, reply: Reply) -> (r: Ask)
        requires
            old(self)@.steady(),
            ch < old(self)@.cache.room(),
        ensures
            final(self)@.steady(),
            (final(self)@, r) == old(self)@.dispatch_truncated(ch, reply),
    {
        match reply {
            Reply::Outcome(Ok(_)) => self.pose_bound(
                Task::DispatchExtract { ch },
                Ask::ExtractChapter { ch },
            ),
            Reply::Outcome(Err(_)) => self.fail_dispatch(),
            _ => Ask::Idle,
        }
    }

    pub(crate) fn on_dispatch_extracted(&mut self, ch: u16, reply: Reply) -> (r: Ask)
        requires
            old(self)@.steady(),
        ensures
            final(self)@.steady(),
            (final(self)@, r) == old(self)@.dispatch_extracted(ch, reply),
    {
        match reply {
            Reply::Outcome(Ok(_)) => self.pose(Task::DispatchSubmit, Ask::SubmitChapter { ch }),
            Reply::Outcome(Err(_)) => self.strip(ch as usize, AfterStrip::Instead),
            _ => Ask::Idle,
        }
    }

    pub(crate) fn on_dispatch_submitted(&mut self, reply: Reply) -> (r: Ask)
        requires
            old(self)@.steady(),
        ensures
            final(self)@.steady(),
            (final(self)@, r) == old(self)@.dispatch_submitted(reply),
    {
        match reply {
            Reply::Flag(ok) => {
                if ok {
                    self.set_bg(BgCacheState::WaitChapter);
                    self.rest()
                } else {
                    self.fail_dispatch()
                }
            },
            _ => Ask::Idle,
        }
    }

    pub(crate) fn epub_finish_cache(&mut self, received: bool, reply: Reply) -> (r: Ask)
        requires
            old(self)@.steady(),
        ensures
            final(self)@.steady(),
            (final(self)@, r) == old(self)@.cache_finished(received, reply),
    {
        match reply {
            Reply::Outcome(Ok(_)) => {
                proof {
                    self@.lemma_wf();
                }
                let ch = self.chapter();
                self.cache_mut().set_ready(true);
                self.cache_mut().search_images(ch);
                self.rest()
            },
            Reply::Outcome(Err(_)) => {
                if received {
                    self.set_bg(BgCacheState::CacheChapter);
                    self.rest()
                } else {
                    self.fail_dispatch()
                }
            },
            _ => Ask::Idle,
        }
    }

    /// Takes the worker's result for a chapter.
    pub(crate) fn epub_recv_chapter_strip(&mut self, reply: Reply) -> (r: Ask)
        requires
            old(self)@.steady(),
            reply matches Reply::Worker(Some(w)) ==> match w.outcome {
                WorkOutcome::ChapterReady { ch, text } => ch < old(self)@.cache.room()
                    && text@.len() <= MAX_TEXT,
                WorkOutcome::ChapterFailed { ch } => ch < old(self)@.cache.room(),
                _ => true,
            },
        ensures
            final(self)@.steady(),
            (final(self)@, r) == old(self)@.chapter_received(reply),
    {
        proof {
            self@.lemma_wf();
        }
        match reply {
            Reply::Worker(Some(w)) => {
                if !w.current {
                    return self.rest();
                }
                match w.outcome {
                    WorkOutcome::ChapterReady { ch, text } => {
                        if self.cache().done[ch as usize] {
                            self.receive()
                        } else {
                            let size = text.len() as u32;
                            self.set_scratch(text);
                            self.pose_bound(
                                Task::RecvWrite { ch, size },
                                Ask::WriteChapter { ch },
                            )
                        }
                    },
                    WorkOutcome::ChapterFailed { ch } => self.strip(
                        ch as usize,
                        AfterStrip::Worker,
                    ),
                    _ => self.rest(),
                }
            },
            Reply::Worker(None) => self.rest(),
            _ => Ask::Idle,
        }
    }

    pub(crate) fn on_chapter_written(&mut self, ch: u16, size: u32, reply: Reply) -> (r: Ask)
        requires
            old(self)@.steady(),
            ch < old(self)@.cache.room(),
            size <= MAX_TEXT,
        ensures
            final(self)@.steady(),
            (final(self)@, r) == old(self)@.chapter_written(ch, size, reply),
    {
        match reply {
            Reply::Outcome(Ok(_)) => {
                proof {
                    self@.lemma_wf();
                }
                self.cache_mut().set_chapter(ch as usize, size);
                self.receive()
            },
            Reply::Outcome(Err(_)) => {
                self.set_bg(BgCacheState::CacheChapter);
                self.rest()
            },
            _ => Ask::Idle,
        }
    }

    fn receive(&mut self) -> (r: Ask)
        requires
            old(self)@.wf(),
        ensures
            final(self)@.steady(),
            (final(self)@, r) == old(self)@.received(),
    {
        self.count_chapter();
        if (self.cache().next as usize) < self.spine().len() {
            self.go_on(Task::Nearby { k: 0, opening: false })
        } else {
            self.pose(Task::Finish { received: true }, Ask::WriteMeta)
        }
    }

    /// One step of the background work.
    pub fn bg_cache_step(&mut self) -> (r: Ask)
        requires
            old(self)@.wf(),
        ensures
            final(self)@.steady(),
            (final(self)@, r) == old(self)@.bg_stepped(),
    {
        match self.cache().bg {
            BgCacheState::CacheChapter => {
                proof {
                    self@.lemma_wf();
                }
                let end = self.spine().len();
                self.cache_mut().skip_done(end);
                self.go_on(Task::Adjacent { second: false })
            },
            BgCacheState::WaitChapter => self.pose(Task::RecvChapter, Ask::PollWorker),
            BgCacheState::WaitNearbyImage => self.pose(
                Task::RecvImage { nearby: true },
                Ask::PollWorker,
            ),
            BgCacheState::CacheImage => self.go_on(Task::Find),
            BgCacheState::WaitImage => self.pose(
                Task::RecvImage { nearby: false },
                Ask::PollWorker,
            ),
            BgCacheState::Idle => self.rest(),
        }
    }

    /// One step of the background work while another app is active.
    pub fn bg_work_tick(&mut self) -> (r: Ask)
        requires
            old(self)@.wf(),
        ensures
            final(self)@.steady(),
            (final(self)@, r) == old(self)@.bg_stepped(),
    {
        self.bg_cache_step()
    }

    pub(crate) fn end_tick(&mut self) -> (r: Ask)
        requires
            old(self)@.wf(),
        ensures
            final(self)@.steady(),
            (final(self)@, r) == old(self)@.tailed(),
    {
        let state = self.state();
        if (state == State::Ready || state == State::ShowToc) && self.cache().bg
            != BgCacheState::Idle {
            self.bg_cache_step()
        } else {
            self.rest()
        }
    }
}

} // verus!
