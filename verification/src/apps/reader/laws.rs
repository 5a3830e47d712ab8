//! What the reader's background work keeps, whatever the answers are.

use vstd::prelude::*;

use crate::apps::reader::app::{ReaderView, State};
use crate::apps::reader::cache::{law_next_open, BgCacheState, CacheView};
use crate::apps::reader::images::padded;
use crate::apps::reader::paged::lemma_pages_alike;
use crate::apps::reader::pages::PagerView;
use crate::apps::reader::work::{
    AfterLoad, AfterScan, AfterStrip, Ask, ImgStep, Reply, ScanAt, ScanStep, Task, ZipEntry,
};

verus! {

/// Whatever was cached before is cached later.
pub open spec fn keeps_cached(before: CacheView, later: CacheView) -> bool {
    &&& later.done.len() == before.done.len()
    &&& forall|i: int|
        0 <= i < before.done.len() && #[trigger] before.done[i] ==> later.done[i]
}

/// No text that is cached is cut off or written anew.
pub open spec fn spares_cached(before: CacheView, ask: Ask) -> bool {
    &&& ask matches Ask::TruncateChapter { ch } ==> !before.done[ch as int]
    &&& ask matches Ask::WriteChapter { ch } ==> !before.done[ch as int]
}

/// Nothing goes on before the worker has answered.
pub open spec fn waits(bg: BgCacheState) -> bool {
    bg == BgCacheState::WaitChapter || bg == BgCacheState::WaitNearbyImage || bg
        == BgCacheState::WaitImage
}

/// Work that fails leaves the reason, has the page drawn again, and rests.
pub open spec fn fails_openly(before: ReaderView, later: ReaderView, ask: Ask) -> bool {
    before.state != State::Error && later.state == State::Error ==> {
        &&& later.error is Some
        &&& later.dirty
        &&& ask == Ask::Idle
    }
}

/// The page on screen is the same, and so is the place in the book.
pub open spec fn same_page(before: ReaderView, later: ReaderView) -> bool {
    &&& later.state == before.state
    &&& later.chapter == before.chapter
    &&& later.pager.page == before.pager.page
    &&& later.pager.offsets == before.pager.offsets
    &&& later.pager.buf == before.pager.buf
    &&& later.pager.buf_len == before.pager.buf_len
    &&& later.pager.lines == before.pager.lines
    &&& later.page_img == before.page_img
    &&& later.fullscreen_img == before.fullscreen_img
    &&& later.error == before.error
    &&& later.dirty == before.dirty
}

/// What follows belongs to the background.
pub open spec fn behind_the_page(after: AfterStrip) -> bool {
    after is Adjacent || after is Instead || after is Worker
}

/// The search for images belongs to the background.
pub open spec fn goal_behind(goal: AfterScan) -> bool {
    match goal {
        AfterScan::Nearby { k, opening } => !opening,
        AfterScan::Find => true,
    }
}

/// The tasks of the work that goes on while the user reads.
pub open spec fn in_background(task: Task) -> bool {
    match task {
        Task::Rest => true,
        Task::Truncate { ch, after } => behind_the_page(after),
        Task::Strip { ch, after } => behind_the_page(after),
        Task::Stripped { after } => behind_the_page(after),
        Task::Adjacent { second } => true,
        Task::DispatchNext => true,
        Task::DispatchTruncate { ch } => true,
        Task::DispatchExtract { ch } => true,
        Task::DispatchSubmit => true,
        Task::Finish { received } => true,
        Task::RecvChapter => true,
        Task::RecvWrite { ch, size } => true,
        Task::RecvImage { nearby } => true,
        Task::SaveHead { hash, nearby } => true,
        Task::SaveData { nearby } => true,
        Task::Nearby { k, opening } => !opening,
        Task::ScanRead { ch, offset, goal } => goal_behind(goal),
        Task::Scan { at, scan } => goal_behind(at.goal),
        Task::Find => true,
        Task::FindBusy => true,
        _ => false,
    }
}

/// The book is the same, the place in it that was saved is not forgotten before
/// its page is looked for, and the text is set as before.
pub open spec fn keeps_the_book(before: ReaderView, later: ReaderView) -> bool {
    &&& later.filename == before.filename
    &&& later.name_key == before.name_key
    &&& later.is_epub == before.is_epub
    &&& later.chapter == before.chapter
    &&& before.state != State::NeedPage ==> later.restore_offset == before.restore_offset
    &&& later.work_gen == before.work_gen
    &&& later.screen == before.screen
    &&& later.book_font_size_idx == before.book_font_size_idx
    &&& later.applied_font_idx == before.applied_font_idx
    &&& later.pager.face == before.pager.face
    &&& later.pager.text_w == before.pager.text_w
    &&& later.pager.markup == before.pager.markup
    &&& later.show_position == before.show_position
    &&& later.toc_selected == before.toc_selected
    &&& later.toc_scroll == before.toc_scroll
}

/// A step that keeps what is cached, and fails openly.
spec fn safe_step(before: ReaderView, out: (ReaderView, Ask)) -> bool {
    &&& keeps_the_book(before, out.0)
    &&& keeps_cached(before.cache, out.0.cache)
    &&& spares_cached(before.cache, out.1)
    &&& fails_openly(before, out.0, out.1)
}

/// The same of a step that does not begin to wait for the worker.
spec fn sound_step(before: ReaderView, out: (ReaderView, Ask)) -> bool {
    safe_step(before, out) && (waits(out.0.cache.bg) ==> out.0.cache.bg == before.cache.bg)
}

/// A step that leaves the page alone and stays in the background.
spec fn quiet_step(before: ReaderView, out: (ReaderView, Ask)) -> bool {
    same_page(before, out.0) && in_background(out.0.task)
}

proof fn lemma_indexed(p: PagerView)
    ensures
        p.indexed().face == p.face,
        p.indexed().text_w == p.text_w,
        p.indexed().markup == p.markup,
{
    lemma_pages_alike(PagerView { offsets: p.offsets.update(0, 0), total_pages: 1, ..p }, 0);
}

impl ReaderView {
    /// The worker has taken a chapter or an image, or is found at work.
    pub open spec fn told_to_wait(self, reply: Reply) -> bool {
        match self.task {
            Task::DispatchSubmit => reply == Reply::Flag(true),
            Task::Scan { at, scan: ScanStep::Submit } => reply == Reply::Flag(true),
            Task::FindBusy => reply == Reply::Flag(false),
            _ => false,
        }
    }

    #[verifier::rlimit(60)]
    proof fn lemma_entered(self)
        requires
            self.steady(),
        ensures
            sound_step(self, self.entered()),
    {
        self.lemma_wf();
    }

    proof fn lemma_archive(self, reply: Reply)
        requires
            self.steady(),
        ensures
            sound_step(self, self.recent_noted(reply)),
            sound_step(self, self.archive_sized(reply)),
            sound_step(self, self.tail_read(reply)),
            sound_step(self, self.directory_placed(reply)),
    {
        self.lemma_wf();
    }

    proof fn lemma_directory(self, offset: u32, size: u32, reply: Reply)
        requires
            self.steady(),
        ensures
            sound_step(self, self.directory_roomed(offset, size, reply)),
            sound_step(self, self.directory_read(offset, size, reply)),
            sound_step(self, self.directory_parsed(reply)),
    {
        self.lemma_wf();
    }

    proof fn lemma_opf(self, icase: bool, reply: Reply)
        requires
            self.steady(),
        ensures
            sound_step(self, self.container_found(reply)),
            sound_step(self, self.opf_named(reply)),
            sound_step(self, self.opf_found(icase, reply)),
            sound_step(self, self.opf_parsed(reply)),
            sound_step(self, self.title_saved(reply)),
    {
        self.lemma_wf();
    }

    proof fn lemma_meta(self, reply: Reply)
        requires
            self.steady(),
        ensures
            sound_step(self, self.toc_read(reply)),
            sound_step(self, self.meta_read(reply)),
            sound_step(self, self.meta_parsed(reply)),
            sound_step(self, self.cache_set_up(reply)),
    {
        self.lemma_wf();
    }

    proof fn lemma_chapter_room(self, want_last: bool, reply: Reply)
        requires
            self.steady(),
        ensures
            sound_step(self, self.chapter_roomed(want_last, reply)),
    {
        self.lemma_wf();
    }

    proof fn lemma_in_memory(self, text: Seq<u8>, want_last: bool)
        requires
            self.steady(),
        ensures
            sound_step(self, self.chapter_in_memory(text, want_last)),
    {
        self.lemma_wf();
        let p = PagerView { ch_cache: text, ..self.pager };
        lemma_indexed(p);
        let done = p.indexed();
        let r = ReaderView { pager: done, scratch: Seq::empty(), ..self };
        assert(self.chapter_in_memory(text, want_last) == r.chapter_placed(want_last));
        assert(r.cache == self.cache);
    }

    proof fn lemma_chapter(self, size: u32, want_last: bool, reply: Reply)
        requires
            self.steady(),
        ensures
            sound_step(self, self.chapter_read(size, want_last, reply)),
    {
        self.lemma_wf();
        if let Reply::Bytes(Ok(d)) = reply {
            if d@.len() == 0 {
                self.lemma_in_memory(padded(self.scratch, size as int), want_last);
            } else {
                self.lemma_in_memory(self.scratch + d@, want_last);
            }
        }
    }

    proof fn lemma_load(self, next: AfterLoad, reply: Reply)
        requires
            self.steady(),
        ensures
            sound_step(self, self.load_begun(next)),
            sound_step(self, self.book_opened(next, reply)),
            sound_step(self, self.page_read(next, reply)),
    {
        self.lemma_wf();
    }

    proof fn lemma_loaded(self, next: AfterLoad, reply: Reply)
        requires
            self.steady(),
        ensures
            sound_step(self, self.prefetched(next, reply)),
            sound_step(self, self.load_done(next)),
    {
        self.lemma_wf();
    }

    proof fn lemma_last(self)
        requires
            self.steady(),
        ensures
            sound_step(self, self.last_sought()),
            sound_step(self, self.last_shown()),
    {
        self.lemma_wf();
    }

    proof fn lemma_image(self, next: AfterLoad)
        requires
            self.steady(),
        ensures
            sound_step(self, self.image_begun(next)),
    {
        self.lemma_wf();
    }

    proof fn lemma_img_cached(self, next: AfterLoad, step: ImgStep, reply: Reply)
        requires
            self.steady(),
            step is Resolve || step is Size || step is Head || step is Room || step is Data,
        ensures
            sound_step(self, self.img_step(next, step, reply)),
    {
        self.lemma_wf();
    }

    proof fn lemma_img_found(self, next: AfterLoad, step: ImgStep, reply: Reply)
        requires
            self.steady(),
            step is Find || step is Local || step is Magic,
        ensures
            sound_step(self, self.img_step(next, step, reply)),
    {
        self.lemma_wf();
    }

    proof fn lemma_img(self, next: AfterLoad, step: ImgStep, reply: Reply)
        requires
            self.steady(),
        ensures
            sound_step(self, self.img_step(next, step, reply)),
    {
        self.lemma_wf();
        match step {
            ImgStep::Resolve
            | ImgStep::Size { .. }
            | ImgStep::Head { .. }
            | ImgStep::Room { .. }
            | ImgStep::Data { .. } => self.lemma_img_cached(next, step, reply),
            ImgStep::Find { .. } | ImgStep::Local { .. } | ImgStep::Magic { .. } => {
                self.lemma_img_found(next, step, reply)
            },
            _ => {},
        }
    }

    proof fn lemma_tail(self)
        requires
            self.steady(),
        ensures
            sound_step(self, self.tailed()),
    {
        self.lemma_wf();
    }

    proof fn lemma_strip(self, ch: u16, after: AfterStrip, reply: Reply)
        requires
            self.steady(),
            ch < self.cache.room(),
        ensures
            sound_step(self, self.truncated(ch, after, reply)),
            sound_step(self, self.stripped(ch, after, reply)),
            in_background(self.task) && behind_the_page(after) ==> {
                &&& quiet_step(self, self.truncated(ch, after, reply))
                &&& quiet_step(self, self.stripped(ch, after, reply))
            },
    {
        self.lemma_wf();
    }

    proof fn lemma_stripped(self, after: AfterStrip)
        requires
            self.steady(),
        ensures
            sound_step(self, self.strip_done(after)),
            in_background(self.task) && behind_the_page(after) ==> {
                &&& quiet_step(self, self.strip_done(after))
            },
    {
        self.lemma_wf();
    }

    proof fn lemma_dispatch(self, ch: u16, second: bool, reply: Reply)
        requires
            self.steady(),
        ensures
            sound_step(self, self.adjacent(second)),
            sound_step(self, self.dispatched_next()),
            sound_step(self, self.dispatch_truncated(ch, reply)),
            sound_step(self, self.dispatch_extracted(ch, reply)),
            safe_step(self, self.dispatch_submitted(reply)),
            in_background(self.task) ==> {
                &&& quiet_step(self, self.adjacent(second))
                &&& quiet_step(self, self.dispatched_next())
                &&& quiet_step(self, self.dispatch_truncated(ch, reply))
                &&& quiet_step(self, self.dispatch_extracted(ch, reply))
                &&& quiet_step(self, self.dispatch_submitted(reply))
            },
    {
        self.lemma_wf();
        law_next_open(self.cache, self.cache.next as int, self.spine.len() as int);
    }

    proof fn lemma_finish(self, received: bool, reply: Reply)
        requires
            self.steady(),
        ensures
            sound_step(self, self.cache_finished(received, reply)),
            in_background(self.task) ==> {
                &&& quiet_step(self, self.cache_finished(received, reply))
            },
    {
        self.lemma_wf();
    }

    proof fn lemma_received(self, reply: Reply)
        requires
            self.steady(),
        ensures
            sound_step(self, self.chapter_received(reply)),
            in_background(self.task) ==> {
                &&& quiet_step(self, self.chapter_received(reply))
            },
    {
        self.lemma_wf();
    }

    proof fn lemma_written(self, ch: u16, size: u32, reply: Reply)
        requires
            self.steady(),
            ch < self.cache.room(),
        ensures
            sound_step(self, self.chapter_written(ch, size, reply)),
            in_background(self.task) ==> {
                &&& quiet_step(self, self.chapter_written(ch, size, reply))
            },
    {
        self.lemma_wf();
    }

    proof fn lemma_image_received(self, hash: u32, nearby: bool, reply: Reply)
        requires
            self.steady(),
        ensures
            sound_step(self, self.image_received(nearby, reply)),
            sound_step(self, self.image_head_saved(hash, nearby, reply)),
            sound_step(self, self.image_data_saved(nearby, reply)),
            in_background(self.task) ==> {
                &&& quiet_step(self, self.image_received(nearby, reply))
                &&& quiet_step(self, self.image_head_saved(hash, nearby, reply))
                &&& quiet_step(self, self.image_data_saved(nearby, reply))
            },
    {
        self.lemma_wf();
    }

    proof fn lemma_nearby(self, k: u8, opening: bool)
        requires
            self.steady(),
        ensures
            sound_step(self, self.nearby(k, opening)),
            in_background(self.task) && !opening ==> {
                &&& quiet_step(self, self.nearby(k, opening))
            },
    {
        self.lemma_wf();
    }

    proof fn lemma_find(self, reply: Reply)
        requires
            self.steady(),
        ensures
            sound_step(self, self.found_next()),
            safe_step(self, self.found_busy(reply)),
            in_background(self.task) ==> {
                &&& quiet_step(self, self.found_next())
                &&& quiet_step(self, self.found_busy(reply))
            },
    {
        self.lemma_wf();
    }

    proof fn lemma_scan_read(self, ch: u16, offset: u32, goal: AfterScan, reply: Reply)
        requires
            self.steady(),
        ensures
            sound_step(self, self.scan_chunk_read(ch, offset, goal, reply)),
            in_background(self.task) && goal_behind(goal) ==> {
                &&& quiet_step(self, self.scan_chunk_read(ch, offset, goal, reply))
            },
    {
        self.lemma_wf();
    }

    proof fn lemma_scan_chunk(self, at: ScanAt)
        requires
            self.steady(),
        ensures
            sound_step(self, self.scan_chunk(at)),
            in_background(self.task) && goal_behind(at.goal) ==> {
                &&& quiet_step(self, self.scan_chunk(at))
            },
    {
        self.lemma_wf();
    }

    proof fn lemma_scan_seen(self, at: ScanAt, hash: u32, reply: Reply)
        requires
            self.steady(),
        ensures
            sound_step(self, self.scan_resolved(at, reply)),
            sound_step(self, self.scan_sized(at, hash, reply)),
            sound_step(self, self.scan_skipped(at, reply)),
            in_background(self.task) && goal_behind(at.goal) ==> {
                &&& quiet_step(self, self.scan_resolved(at, reply))
                &&& quiet_step(self, self.scan_sized(at, hash, reply))
                &&& quiet_step(self, self.scan_skipped(at, reply))
            },
    {
        self.lemma_wf();
    }

    proof fn lemma_scan_found(self, at: ScanAt, hash: u32, icase: bool, reply: Reply)
        requires
            self.steady(),
        ensures
            sound_step(self, self.scan_found(at, hash, icase, reply)),
            in_background(self.task) && goal_behind(at.goal) ==> {
                &&& quiet_step(self, self.scan_found(at, hash, icase, reply))
            },
    {
        self.lemma_wf();
    }

    proof fn lemma_scan_located(self, at: ScanAt, hash: u32, entry: ZipEntry, reply: Reply)
        requires
            self.steady(),
        ensures
            sound_step(self, self.scan_located(at, hash, entry, reply)),
            in_background(self.task) && goal_behind(at.goal) ==> {
                &&& quiet_step(self, self.scan_located(at, hash, entry, reply))
            },
    {
        self.lemma_wf();
    }

    proof fn lemma_scan_kept(self, at: ScanAt, hash: u32, reply: Reply)
        requires
            self.steady(),
        ensures
            sound_step(self, self.scan_head_written(at, hash, reply)),
            sound_step(self, self.scan_data_written(at, reply)),
            sound_step(self, self.scan_marked(at, reply)),
            in_background(self.task) && goal_behind(at.goal) ==> {
                &&& quiet_step(self, self.scan_head_written(at, hash, reply))
                &&& quiet_step(self, self.scan_data_written(at, reply))
                &&& quiet_step(self, self.scan_marked(at, reply))
            },
    {
        self.lemma_wf();
    }

    proof fn lemma_scan_sent(self, at: ScanAt, hash: u32, reply: Reply)
        requires
            self.steady(),
        ensures
            sound_step(self, self.scan_extracted(at, hash, reply)),
            safe_step(self, self.scan_submitted(at, reply)),
            in_background(self.task) && goal_behind(at.goal) ==> {
                &&& quiet_step(self, self.scan_extracted(at, hash, reply))
                &&& quiet_step(self, self.scan_submitted(at, reply))
            },
    {
        self.lemma_wf();
    }

    proof fn lemma_scan_decoded(self, at: ScanAt, hash: u32, reply: Reply)
        requires
            self.steady(),
        ensures
            sound_step(self, self.scan_decoded(at, hash, reply)),
            in_background(self.task) && goal_behind(at.goal) ==> {
                &&& quiet_step(self, self.scan_decoded(at, hash, reply))
            },
    {
        self.lemma_wf();
    }

    proof fn lemma_scan(self, at: ScanAt, scan: ScanStep, reply: Reply)
        requires
            self.steady(),
        ensures
            safe_step(self, self.scan_step(at, scan, reply)),
            !(scan is Submit) ==> sound_step(self, self.scan_step(at, scan, reply)),
            in_background(self.task) && goal_behind(at.goal) ==> quiet_step(
                self,
                self.scan_step(at, scan, reply),
            ),
    {
        match scan {
            ScanStep::Chunk => self.lemma_scan_chunk(at),
            ScanStep::Resolve | ScanStep::Skip => self.lemma_scan_seen(at, 0, reply),
            ScanStep::Size { hash } => self.lemma_scan_seen(at, hash, reply),
            ScanStep::Find { hash, icase } => self.lemma_scan_found(at, hash, icase, reply),
            ScanStep::Local { hash, entry } => self.lemma_scan_located(at, hash, entry, reply),
            ScanStep::Decode { hash } => self.lemma_scan_decoded(at, hash, reply),
            ScanStep::HeadWrite { hash } => self.lemma_scan_kept(at, hash, reply),
            ScanStep::DataWrite | ScanStep::Mark => self.lemma_scan_kept(at, 0, reply),
            ScanStep::Extract { hash } => self.lemma_scan_sent(at, hash, reply),
            ScanStep::Submit => self.lemma_scan_sent(at, 0, reply),
        }
    }

    proof fn lemma_step(self, reply: Reply)
        requires
            self.steady(),
            self.fits(reply),
        ensures
            safe_step(self, self.resumed(reply)),
            sound_step(self, self.resumed(reply)) || self.told_to_wait(reply),
            in_background(self.task) ==> quiet_step(self, self.resumed(reply)),
    {
        match self.task {
            Task::Rest => {},
            Task::Loop => self.lemma_entered(),
            Task::Tail => self.lemma_tail(),
            Task::Recent | Task::ZipSize | Task::ZipTail { .. } | Task::ZipEocd => {
                self.lemma_archive(reply)
            },
            Task::ZipRoom { offset, size } => self.lemma_directory(offset, size, reply),
            Task::ZipRead { offset, size } => self.lemma_directory(offset, size, reply),
            Task::ZipParse => self.lemma_directory(0, 0, reply),
            Task::OpfFind { icase } => self.lemma_opf(icase, reply),
            Task::OpfContainer | Task::OpfPath | Task::OpfParse | Task::OpfTitle => {
                self.lemma_opf(false, reply)
            },
            Task::Toc | Task::MetaRead | Task::MetaParse | Task::MetaDir => self.lemma_meta(reply),
            Task::ChapterRoom { want_last } => self.lemma_chapter_room(want_last, reply),
            Task::ChapterRead { size, want_last } => self.lemma_chapter(size, want_last, reply),
            Task::Restore { target } => self.lemma_load(AfterLoad::Restore(target), reply),
            Task::Open { next } => self.lemma_load(next, reply),
            Task::PageRead { next } => self.lemma_load(next, reply),
            Task::Prefetch { next } => self.lemma_loaded(next, reply),
            Task::Loaded { next } => self.lemma_loaded(next, reply),
            Task::Last | Task::LastEnd => self.lemma_last(),
            Task::PageImage { next } => self.lemma_image(next),
            Task::Img { next, step } => self.lemma_img(next, step, reply),
            Task::Truncate { ch, after } => self.lemma_strip(ch, after, reply),
            Task::Strip { ch, after } => self.lemma_strip(ch, after, reply),
            Task::Stripped { after } => self.lemma_stripped(after),
            Task::Adjacent { second } => self.lemma_dispatch(0, second, reply),
            Task::DispatchTruncate { ch } => self.lemma_dispatch(ch, false, reply),
            Task::DispatchExtract { ch } => self.lemma_dispatch(ch, false, reply),
            Task::DispatchNext | Task::DispatchSubmit => self.lemma_dispatch(0, false, reply),
            Task::Finish { received } => self.lemma_finish(received, reply),
            Task::RecvChapter => self.lemma_received(reply),
            Task::RecvWrite { ch, size } => self.lemma_written(ch, size, reply),
            Task::RecvImage { nearby } => self.lemma_image_received(0, nearby, reply),
            Task::SaveHead { hash, nearby } => self.lemma_image_received(hash, nearby, reply),
            Task::SaveData { nearby } => self.lemma_image_received(0, nearby, reply),
            Task::Nearby { k, opening } => self.lemma_nearby(k, opening),
            Task::ScanRead { ch, offset, goal } => self.lemma_scan_read(ch, offset, goal, reply),
            Task::Scan { at, scan } => self.lemma_scan(at, scan, reply),
            Task::Find | Task::FindBusy => self.lemma_find(reply),
        }
    }

    /// A chapter that is cached stays cached while the book is open, whatever
    /// storage, the archive and the worker answer.
    pub proof fn law_cached_stays_cached(self, reply: Reply)
        requires
            self.steady(),
            self.fits(reply),
        ensures
            keeps_cached(self.cache, self.resumed(reply).0.cache),
    {
        self.lemma_step(reply);
    }

    /// Work in the background leaves the book as it is. The place that was taken
    /// over from a bookmark, above all, is kept through every step of opening the
    /// book, until its page is looked for.
    pub proof fn law_the_saved_place_is_kept(self, reply: Reply)
        requires
            self.steady(),
            self.fits(reply),
        ensures
            keeps_the_book(self, self.resumed(reply).0),
    {
        self.lemma_step(reply);
    }

    /// The text of a chapter that is cached is never cut off or written anew.
    pub proof fn law_cached_text_is_kept(self, reply: Reply)
        requires
            self.steady(),
            self.fits(reply),
        ensures
            spares_cached(self.cache, self.resumed(reply).1),
    {
        self.lemma_step(reply);
    }

    /// Caching carries on in the background: it begins to wait only where the
    /// worker has something to answer.
    pub proof fn law_only_the_worker_is_waited_for(self, reply: Reply)
        requires
            self.steady(),
            self.fits(reply),
            waits(self.resumed(reply).0.cache.bg),
        ensures
            self.resumed(reply).0.cache.bg == self.cache.bg || self.told_to_wait(reply),
    {
        self.lemma_step(reply);
    }

    /// Caching in the background leaves the page on screen as it is, and goes
    /// on in the background until it rests.
    pub proof fn law_background_leaves_the_page(self, reply: Reply)
        requires
            self.steady(),
            self.fits(reply),
            in_background(self.task),
        ensures
            same_page(self, self.resumed(reply).0),
            in_background(self.resumed(reply).0.task),
    {
        self.lemma_step(reply);
    }

    /// A tick for a suspended book, too, leaves the page as it is.
    pub proof fn law_suspended_tick_leaves_the_page(self)
        ensures
            same_page(self, self.bg_stepped().0),
            in_background(self.bg_stepped().0.task),
            keeps_cached(self.cache, self.bg_stepped().0.cache),
    {
    }

    /// Work that fails leaves the reason, has the page drawn again, and rests.
    pub proof fn law_failures_are_shown(self, reply: Reply)
        requires
            self.steady(),
            self.fits(reply),
        ensures
            fails_openly(self, self.resumed(reply).0, self.resumed(reply).1),
    {
        self.lemma_step(reply);
    }

    /// The search for a saved position goes from page to page as long as the
    /// next one starts at or before the position, and ends on the page that
    /// holds it.
    pub proof fn law_restoring_finds_the_page(self, target: u32, reply: Reply)
        requires
            self.task == (Task::Loaded { next: AfterLoad::Restore(target) }),
            self.state == State::NeedPage,
            self.pager.page < self.pager.total_pages,
            self.pager.total_pages <= self.pager.offsets.len() <= usize::MAX,
            self.pager.offset() <= target,
        ensures
            ({
                let p = self.pager;
                let (r, ask) = self.resumed(reply);
                if r.state == State::Ready {
                    &&& r.pager == p
                    &&& p.page + 1 < p.total_pages ==> p.offsets[p.page + 1] > target
                } else {
                    &&& r.task == (Task::Restore { target })
                    &&& r.pager.page == p.page + 1
                    &&& r.pager.page < r.pager.total_pages
                    &&& r.pager.offset() <= target
                }
            }),
    {
    }

    /// What the worker made for another book is dropped.
    pub proof fn law_stale_results_are_dropped(self, reply: Reply)
        requires
            self.task == Task::RecvChapter || self.task is RecvImage,
            reply matches Reply::Worker(Some(w)) && !w.current,
        ensures
            self.resumed(reply).0 == (ReaderView { task: Task::Rest, ..self }),
            self.resumed(reply).1 == Ask::Idle,
    {
    }
}

} // verus!
