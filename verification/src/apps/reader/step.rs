//! The steps of the background work, each by the task that waits.

use vstd::prelude::*;

use crate::apps::reader::app::{ReaderApp, ReaderView};
use crate::apps::reader::work::{AfterLoad, Ask, Reply, Task};
use crate::kernel::app::AppContext;

verus! {

/// The tasks of opening a book and finding a chapter's pages.
spec fn is_opening(task: Task) -> bool {
    ||| task is Loop
    ||| task is Recent
    ||| task is ZipSize
    ||| task is ZipTail
    ||| task is ZipEocd
    ||| task is ZipRoom
    ||| task is ZipRead
    ||| task is ZipParse
    ||| task is OpfContainer
    ||| task is OpfPath
    ||| task is OpfFind
    ||| task is OpfParse
    ||| task is OpfTitle
}

/// The tasks of finding out what is cached, and of finding a chapter's pages.
spec fn is_preparing(task: Task) -> bool {
    ||| task is Toc
    ||| task is MetaRead
    ||| task is MetaParse
    ||| task is MetaDir
    ||| task is ChapterRoom
    ||| task is ChapterRead
}

/// The tasks of loading a page.
spec fn is_loading(task: Task) -> bool {
    ||| task is Last
    ||| task is LastEnd
    ||| task is Restore
    ||| task is Open
    ||| task is PageRead
    ||| task is Prefetch
    ||| task is PageImage
    ||| task is Img
    ||| task is Loaded
}

/// The tasks of caching chapters.
spec fn is_caching(task: Task) -> bool {
    ||| task is Tail
    ||| task is Truncate
    ||| task is Strip
    ||| task is Stripped
    ||| task is Adjacent
    ||| task is DispatchNext
    ||| task is DispatchTruncate
    ||| task is DispatchExtract
    ||| task is DispatchSubmit
    ||| task is Finish
    ||| task is RecvChapter
    ||| task is RecvWrite
}

/// The tasks of caching images.
spec fn is_imaging(task: Task) -> bool {
    ||| task is RecvImage
    ||| task is SaveHead
    ||| task is SaveData
    ||| task is Nearby
    ||| task is ScanRead
    ||| task is Scan
    ||| task is Find
    ||| task is FindBusy
}

impl ReaderView {
    /// What an answer makes of the reader, and what is asked next.
    pub open spec fn resumed(self, reply: Reply) -> (ReaderView, Ask) {
        match self.task {
            Task::Rest => (self, Ask::Idle),
            Task::Loop => self.entered(),
            Task::Tail => self.tailed(),
            Task::Recent => self.recent_noted(reply),
            Task::ZipSize => self.archive_sized(reply),
            Task::ZipTail { len } => self.tail_read(reply),
            Task::ZipEocd => self.directory_placed(reply),
            Task::ZipRoom { offset, size } => self.directory_roomed(offset, size, reply),
            Task::ZipRead { offset, size } => self.directory_read(offset, size, reply),
            Task::ZipParse => self.directory_parsed(reply),
            Task::OpfContainer => self.container_found(reply),
            Task::OpfPath => self.opf_named(reply),
            Task::OpfFind { icase } => self.opf_found(icase, reply),
            Task::OpfParse => self.opf_parsed(reply),
            Task::OpfTitle => self.title_saved(reply),
            Task::Toc => self.toc_read(reply),
            Task::MetaRead => self.meta_read(reply),
            Task::MetaParse => self.meta_parsed(reply),
            Task::MetaDir => self.cache_set_up(reply),
            Task::Truncate { ch, after } => self.truncated(ch, after, reply),
            Task::Strip { ch, after } => self.stripped(ch, after, reply),
            Task::Stripped { after } => self.strip_done(after),
            Task::ChapterRoom { want_last } => self.chapter_roomed(want_last, reply),
            Task::ChapterRead { size, want_last } => self.chapter_read(size, want_last, reply),
            Task::Last => self.last_sought(),
            Task::LastEnd => self.last_shown(),
            Task::Restore { target } => self.load_begun(AfterLoad::Restore(target)),
            Task::Open { next } => self.book_opened(next, reply),
            Task::PageRead { next } => self.page_read(next, reply),
            Task::Prefetch { next } => self.prefetched(next, reply),
            Task::PageImage { next } => self.image_begun(next),
            Task::Img { next, step } => self.img_step(next, step, reply),
            Task::Loaded { next } => self.load_done(next),
            Task::Adjacent { second } => self.adjacent(second),
            Task::DispatchNext => self.dispatched_next(),
            Task::DispatchTruncate { ch } => self.dispatch_truncated(ch, reply),
            Task::DispatchExtract { ch } => self.dispatch_extracted(ch, reply),
            Task::DispatchSubmit => self.dispatch_submitted(reply),
            Task::Finish { received } => self.cache_finished(received, reply),
            Task::RecvChapter => self.chapter_received(reply),
            Task::RecvWrite { ch, size } => self.chapter_written(ch, size, reply),
            Task::RecvImage { nearby } => self.image_received(nearby, reply),
            Task::SaveHead { hash, nearby } => self.image_head_saved(hash, nearby, reply),
            Task::SaveData { nearby } => self.image_data_saved(nearby, reply),
            Task::Nearby { k, opening } => self.nearby(k, opening),
            Task::ScanRead { ch, offset, goal } => self.scan_chunk_read(ch, offset, goal, reply),
            Task::Scan { at, scan } => self.scan_step(at, scan, reply),
            Task::Find => self.found_next(),
            Task::FindBusy => self.found_busy(reply),
        }
    }
}

impl ReaderApp {
    fn resume_opening(&mut self, reply: Reply) -> (r: Ask)
        requires
            old(self)@.steady(),
            old(self)@.fits(reply),
            is_opening(old(self)@.task),
        ensures
            final(self)@.steady(),
            (final(self)@, r) == old(self)@.resumed(reply),
    {
        match self.task() {
            Task::Loop => self.enter(),
            Task::Recent => self.on_recent(reply),
            Task::ZipSize => self.on_zip_size(reply),
            Task::ZipTail { len: _ } => self.on_zip_tail(reply),
            Task::ZipEocd => self.on_zip_eocd(reply),
            Task::ZipRoom { offset, size } => self.on_zip_room(offset, size, reply),
            Task::ZipRead { offset, size } => self.on_zip_read(offset, size, reply),
            Task::ZipParse => self.on_zip_parsed(reply),
            Task::OpfContainer => self.on_opf_container(reply),
            Task::OpfPath => self.on_opf_path(reply),
            Task::OpfFind { icase } => self.on_opf_find(icase, reply),
            Task::OpfParse => self.on_opf_parsed(reply),
            Task::OpfTitle => self.on_title_saved(reply),
            _ => Ask::Idle,
        }
    }

    fn resume_preparing(&mut self, reply: Reply) -> (r: Ask)
        requires
            old(self)@.steady(),
            old(self)@.fits(reply),
            is_preparing(old(self)@.task),
        ensures
            final(self)@.steady(),
            (final(self)@, r) == old(self)@.resumed(reply),
    {
        match self.task() {
            Task::Toc => self.on_toc(reply),
            Task::MetaRead => self.on_meta_read(reply),
            Task::MetaParse => self.on_meta_parsed(reply),
            Task::MetaDir => self.on_meta_dir(reply),
            Task::ChapterRoom { want_last } => self.on_chapter_room(want_last, reply),
            Task::ChapterRead { size, want_last } => self.on_chapter_read(size, want_last, reply),
            _ => Ask::Idle,
        }
    }

    fn resume_loading(&mut self, reply: Reply) -> (r: Ask)
        requires
            old(self)@.steady(),
            old(self)@.fits(reply),
            is_loading(old(self)@.task),
        ensures
            final(self)@.steady(),
            (final(self)@, r) == old(self)@.resumed(reply),
    {
        match self.task() {
            Task::Last => self.scan_to_last_page(),
            Task::LastEnd => self.show_last_page(),
            Task::Restore { target } => self.load_and_prefetch(AfterLoad::Restore(target)),
            Task::Open { next } => self.on_book_opened(next, reply),
            Task::PageRead { next } => self.on_page_read(next, reply),
            Task::Prefetch { next } => self.on_prefetched(next, reply),
            Task::PageImage { next } => self.decode_page_images(next),
            Task::Img { next, step } => self.on_img_step(next, step, reply),
            Task::Loaded { next } => self.on_loaded(next),
            _ => Ask::Idle,
        }
    }

    fn resume_caching(&mut self, reply: Reply) -> (r: Ask)
        requires
            old(self)@.steady(),
            old(self)@.fits(reply),
            is_caching(old(self)@.task),
        ensures
            final(self)@.steady(),
            (final(self)@, r) == old(self)@.resumed(reply),
    {
        match self.task() {
            Task::Tail => self.end_tick(),
            Task::Truncate { ch, after } => self.on_truncated(ch, after, reply),
            Task::Strip { ch, after } => self.on_stripped(ch, after, reply),
            Task::Stripped { after } => self.end_strip(after),
            Task::Adjacent { second } => self.strip_adjacent(second),
            Task::DispatchNext => self.epub_dispatch_chapter_strip(),
            Task::DispatchTruncate { ch } => self.on_dispatch_truncated(ch, reply),
            Task::DispatchExtract { ch } => self.on_dispatch_extracted(ch, reply),
            Task::DispatchSubmit => self.on_dispatch_submitted(reply),
            Task::Finish { received } => self.epub_finish_cache(received, reply),
            Task::RecvChapter => self.epub_recv_chapter_strip(reply),
            Task::RecvWrite { ch, size } => self.on_chapter_written(ch, size, reply),
            _ => Ask::Idle,
        }
    }

    fn resume_imaging(&mut self, reply: Reply) -> (r: Ask)
        requires
            old(self)@.steady(),
            old(self)@.fits(reply),
            is_imaging(old(self)@.task),
        ensures
            final(self)@.steady(),
            (final(self)@, r) == old(self)@.resumed(reply),
    {
        match self.task() {
            Task::RecvImage { nearby } => self.epub_recv_image_result(nearby, reply),
            Task::SaveHead { hash, nearby } => self.on_image_head_saved(hash, nearby, reply),
            Task::SaveData { nearby } => self.on_image_data_saved(nearby, reply),
            Task::Nearby { k, opening } => self.try_dispatch_nearby_image(k, opening),
            Task::ScanRead { ch, offset, goal } => self.on_scan_read(ch, offset, goal, reply),
            Task::Scan { at, scan } => self.on_scan_step(at, scan, reply),
            Task::Find => self.epub_find_and_dispatch_image(),
            Task::FindBusy => self.on_find_busy(reply),
            _ => Ask::Idle,
        }
    }

    /// Goes on with the work that waits, by the answer to its question.
    pub fn resume(&mut self, reply: Reply) -> (r: Ask)
        requires
            old(self)@.steady(),
            old(self)@.fits(reply),
        ensures
            final(self)@.steady(),
            (final(self)@, r) == old(self)@.resumed(reply),
    {
        match self.task() {
            Task::Rest => Ask::Idle,
            Task::Loop
            | Task::Recent
            | Task::ZipSize
            | Task::ZipTail { len: _ }
            | Task::ZipEocd
            | Task::ZipRoom { offset: _, size: _ }
            | Task::ZipRead { offset: _, size: _ }
            | Task::ZipParse
            | Task::OpfContainer
            | Task::OpfPath
            | Task::OpfFind { icase: _ }
            | Task::OpfParse
            | Task::OpfTitle => self.resume_opening(reply),
            Task::Toc
            | Task::MetaRead
            | Task::MetaParse
            | Task::MetaDir
            | Task::ChapterRoom { want_last: _ }
            | Task::ChapterRead { size: _, want_last: _ } => self.resume_preparing(reply),
            Task::Last
            | Task::LastEnd
            | Task::Restore { target: _ }
            | Task::Open { next: _ }
            | Task::PageRead { next: _ }
            | Task::Prefetch { next: _ }
            | Task::PageImage { next: _ }
            | Task::Img { next: _, step: _ }
            | Task::Loaded { next: _ } => self.resume_loading(reply),
            Task::Tail
            | Task::Truncate { ch: _, after: _ }
            | Task::Strip { ch: _, after: _ }
            | Task::Stripped { after: _ }
            | Task::Adjacent { second: _ }
            | Task::DispatchNext
            | Task::DispatchTruncate { ch: _ }
            | Task::DispatchExtract { ch: _ }
            | Task::DispatchSubmit
            | Task::Finish { received: _ }
            | Task::RecvChapter
            | Task::RecvWrite { ch: _, size: _ } => self.resume_caching(reply),
            Task::RecvImage { nearby: _ }
            | Task::SaveHead { hash: _, nearby: _ }
            | Task::SaveData { nearby: _ }
            | Task::Nearby { k: _, opening: _ }
            | Task::ScanRead { ch: _, offset: _, goal: _ }
            | Task::Scan { at: _, scan: _ }
            | Task::Find
            | Task::FindBusy => self.resume_imaging(reply),
        }
    }

    /// Passes on that the page has to be drawn again.
    pub fn pass_dirty(&mut self, ctx: &mut AppContext)
        requires
            old(self)@.wf(),
        ensures
            final(self)@.wf(),
            final(self)@ == (ReaderView { dirty: false, ..old(self)@ }),
            final(ctx)@ == (if old(self)@.dirty {
                old(ctx)@.dirty(old(self)@.screen.page_area())
            } else {
                old(ctx)@
            }),
    {
        proof {
            self@.lemma_wf();
        }
        if self.is_dirty() {
            let region = self.shown_on().page_region();
            ctx.mark_dirty(region);
        }
        self.set_dirty(false);
    }
}

} // verus!
