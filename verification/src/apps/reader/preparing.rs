//! Preparing a book: what is read of its file is what stands there, and its
//! chapters are cached one by one, the near ones first.

use vstd::prelude::*;

use crate::apps::reader::app::{
    toc_view, QuickAction, ReaderView, State, TocEntry, QA_FONT_SIZE, QA_NEXT_CHAPTER,
    QA_PREV_CHAPTER, QA_TOC,
};
use crate::apps::reader::cache::{law_next_open, BgCacheState};
use crate::apps::reader::pages::PagerView;
use crate::apps::reader::work::{
    AfterScan, AfterStrip, Ask, Opf, Reply, ScanAt, ScanStep, Task, WorkOutcome, WorkResult,
    ASYNC_THRESHOLD, EOCD_TAIL, MIN_ARCHIVE,
};
use crate::fonts::FontSet;

verus! {

impl ReaderView {
    /// The end of the archive is read: its last bytes, up to the very last.
    pub proof fn law_the_end_of_the_book_is_read(self, size: u32)
        requires
            self.task == Task::ZipSize,
            size >= MIN_ARCHIVE,
        ensures
            ({
                let (r, ask) = self.resumed(Reply::Size(Ok(size)));
                &&& ask is ReadBook
                &&& ask->ReadBook_offset + ask->ReadBook_len == size
                &&& ask->ReadBook_len == size || ask->ReadBook_len == EOCD_TAIL
                &&& r.cache.epub_size == size
            }),
    {
    }

    /// What is gathered of the archive's directory is what stands in the file
    /// from its start on.
    pub open spec fn gathers(self, file: Seq<u8>) -> bool {
        match self.task {
            Task::ZipRead { offset, size } => {
                &&& offset + size <= file.len()
                &&& self.scratch.len() < size
                &&& self.scratch == file.subrange(offset as int, offset + self.scratch.len())
            },
            Task::ZipRoom { offset, size } => offset + size <= file.len(),
            _ => true,
        }
    }

    /// An answer with what stands in the file where it was asked for, or with
    /// room to read it.
    pub open spec fn answered_from(self, file: Seq<u8>, reply: Reply) -> bool {
        match (self.task, reply) {
            (Task::ZipRoom { .. }, Reply::Flag(ok)) => ok,
            (Task::ZipRead { offset, size }, Reply::Bytes(Ok(d))) => {
                let at = offset + self.scratch.len();
                &&& d@.len() > 0
                &&& self.scratch.len() + d@.len() <= size
                &&& d@ == file.subrange(at, at + d@.len())
            },
            _ => false,
        }
    }

    /// The archive's directory is read piece by piece, without a gap, and parsed
    /// when it is there as it stands in the file.
    pub proof fn law_the_directory_is_gathered(
        self,
        offset: u32,
        size: u32,
        file: Seq<u8>,
        reply: Reply,
    )
        requires
            self.gathers(file),
            self.answered_from(file, reply),
            file.len() <= u32::MAX,
            self.task == (Task::ZipRead { offset, size }) || self.task == (Task::ZipRoom {
                offset,
                size,
            }),
        ensures
            ({
                let (r, ask) = self.resumed(reply);
                let have = r.scratch.len();
                &&& r.gathers(file)
                &&& have == size ==> ask == Ask::ParseDirectory
                &&& have == size ==> r.scratch == file.subrange(offset as int, offset + size)
                &&& have != size ==> ask == (Ask::ReadBook {
                    offset: (offset + have) as u32,
                    len: (size - have) as usize,
                })
                &&& have != size ==> r.task == (Task::ZipRead { offset, size })
                &&& self.task is ZipRead ==> have > self.scratch.len()
            }),
    {
        let (r, ask) = self.resumed(reply);
        assert(r.scratch =~= file.subrange(offset as int, offset + r.scratch.len()));
    }

    /// The path of the package document is looked for as it is first, then
    /// without regard to case, and given up only after both.
    pub proof fn law_the_package_is_looked_for_twice(self, icase: bool)
        requires
            self.task == (Task::OpfFind { icase }),
        ensures
            !icase ==> self.resumed(Reply::Entry(None)).1 == (Ask::FindEntry { icase: true }),
            !icase ==> self.resumed(Reply::Entry(None)).0.task == (Task::OpfFind { icase: true }),
            icase ==> self.resumed(Reply::Entry(None)).0.state == State::Error,
            self.resumed(Reply::Entry(None)).0.scratch == self.scratch,
    {
    }

    /// The chapters of a book, and whether it has a table of contents, are those
    /// of its package document.
    pub proof fn law_the_chapters_are_the_books(self, o: Opf)
        requires
            self.task == Task::OpfParse,
        ensures
            ({
                let r = self.resumed(Reply::Opf(Ok(o))).0;
                &&& r.spine == o.spine@
                &&& r.toc_pending == o.has_toc
                &&& r.chapter == self.chapter
                &&& r.restore_offset == self.restore_offset
            }),
    {
    }

    /// The table of contents that is shown is the one that was read.
    pub proof fn law_the_contents_are_the_books(self, entries: Vec<TocEntry>)
        requires
            self.task == Task::Toc,
        ensures
            ({
                let r = self.resumed(Reply::Toc(Ok(entries))).0;
                &&& r.toc == toc_view(entries@)
                &&& r.state == State::NeedCache
                &&& r.spine == self.spine
            }),
    {
    }

    /// Opening goes on from the archive to the package document, the contents,
    /// the cache, and the chapter, and leaves none of them out.
    pub proof fn law_opening_leaves_nothing_out(self, reply: Reply)
        ensures
            self.task == Task::Recent && reply is Outcome ==> self.resumed(reply).0.state == if
                self.is_epub {
                State::NeedInit
            } else {
                State::NeedPage
            },
            self.task == Task::ZipParse && reply == Reply::Outcome(Ok(())) ==> self.resumed(
                reply,
            ).0.state == State::NeedOpf,
            self.task == Task::OpfTitle && reply is Outcome ==> self.resumed(reply).0.state
                == State::NeedToc,
            self.task == Task::Toc && reply is Toc ==> self.resumed(reply).0.state
                == State::NeedCache,
            self.task == Task::Loop && self.state == State::NeedInit ==> self.resumed(reply).1
                == Ask::BookSize,
            self.task == Task::Loop && self.state == State::NeedOpf ==> self.resumed(reply).1
                == Ask::FindContainer,
            self.task == Task::Loop && self.state == State::NeedToc && self.toc_pending
                ==> self.resumed(reply).1 == Ask::ReadToc,
            self.task == Task::Loop && self.state == State::NeedCache ==> self.resumed(reply).1
                == Ask::ReadMeta,
            self.task == Task::Loop && self.state == State::NeedIndex && self.is_epub
                && self.cache.ready && self.chapter < self.spine.len()
                && !self.cache.done[self.chapter as int] ==> self.resumed(reply).1 == (
            Ask::TruncateChapter { ch: self.chapter }),
    {
    }

    /// A record of the cache marks the first chapters as cached, with the sizes
    /// that it lists; chapters that were cached stay so.
    pub proof fn law_the_record_is_taken_over(self, count: usize, sizes: Vec<u32>, i: int)
        requires
            self.task == Task::MetaParse,
            0 <= i < self.cache.done.len(),
        ensures
            ({
                let r = self.resumed(Reply::Meta(Some(count), sizes)).0;
                &&& r.cache.ready
                &&& r.cache.sizes == sizes@
                &&& r.cache.done[i] == (i < count || self.cache.done[i])
                &&& r.cache.done.len() == self.cache.done.len()
                &&& r.state == State::NeedIndex
                &&& r.chapter == self.chapter
            }),
    {
    }

    /// The cache file of a chapter is emptied, filled with that chapter, and
    /// counts as cached only then, with the size of what was written. No other
    /// chapter is touched.
    pub proof fn law_a_chapter_is_cached(self, ch: u16, after: AfterStrip, size: u32, i: int)
        requires
            ch < self.cache.room(),
            self.cache.wf(),
            0 <= i < self.cache.room(),
        ensures
            self.task == (Task::Truncate { ch, after }) ==> ({
                let (r, ask) = self.resumed(Reply::Outcome(Ok(())));
                &&& ask == (Ask::StripChapter { ch })
                &&& r.task == (Task::Strip { ch, after })
                &&& r.cache == self.cache
            }),
            self.task == (Task::Strip { ch, after }) ==> ({
                let r = self.resumed(Reply::Size(Ok(size))).0;
                &&& r.cache.done[ch as int]
                &&& r.cache.sizes[ch as int] == size
                &&& i != ch ==> r.cache.done[i] == self.cache.done[i] && r.cache.sizes[i]
                    == self.cache.sizes[i]
                &&& r.task == (Task::Stripped { after })
            }),
            self.task == (Task::RecvWrite { ch, size }) ==> ({
                let r = self.resumed(Reply::Outcome(Ok(()))).0;
                &&& r.cache.done[ch as int]
                &&& r.cache.sizes[ch as int] == size
                &&& i != ch ==> r.cache.done[i] == self.cache.done[i] && r.cache.sizes[i]
                    == self.cache.sizes[i]
            }),
    {
    }

    /// The chapters next to the one on screen are cached first: the one after,
    /// then the one before.
    pub proof fn law_near_chapters_come_first(self, reply: Reply)
        requires
            self.cache.wf(),
            self.spine.len() <= self.cache.room(),
        ensures
            self.task == (Task::Adjacent { second: false }) && self.chapter + 1 < self.spine.len()
                && !self.cache.done[self.chapter + 1] ==> self.resumed(reply).1 == (
            Ask::TruncateChapter { ch: (self.chapter + 1) as u16 }),
            self.task == (Task::Adjacent { second: true }) && 0 < self.chapter <= self.spine.len()
                && !self.cache.done[self.chapter - 1] ==> self.resumed(reply).1 == (
            Ask::TruncateChapter { ch: (self.chapter - 1) as u16 }),
            self.adjacent_done(false).0.task == (Task::Adjacent { second: true }),
            self.adjacent_done(true).0.task == Task::DispatchNext,
    {
    }

    /// Then the others follow in order: the next to be cached is the first that
    /// is not, and the record is written when none is left.
    pub proof fn law_the_others_follow_in_order(self, reply: Reply, i: int)
        requires
            self.task == Task::DispatchNext,
            self.cache.wf(),
            self.spine.len() <= self.cache.room(),
            self.cache.next <= self.spine.len(),
            self.cache.next <= i < self.spine.len(),
        ensures
            ({
                let (r, ask) = self.resumed(reply);
                &&& ask == Ask::WriteMeta ==> self.cache.done[i]
                &&& ask matches Ask::TruncateChapter { ch } ==> {
                    &&& !self.cache.done[ch as int]
                    &&& self.cache.next <= ch < self.spine.len()
                    &&& i < ch ==> self.cache.done[i]
                }
                &&& ask == Ask::WriteMeta || ask is TruncateChapter
            }),
    {
        law_next_open(self.cache, self.cache.next as int, self.spine.len() as int);
    }

    /// After the last chapter the images are looked for, from the chapter on
    /// screen on.
    pub proof fn law_images_follow_the_chapters(self, received: bool)
        requires
            self.task == (Task::Finish { received }),
        ensures
            ({
                let r = self.resumed(Reply::Outcome(Ok(()))).0;
                &&& r.cache.ready
                &&& r.cache.img_ch == self.chapter
                &&& r.cache.img_offset == 0
                &&& !r.cache.img_wrapped
                &&& r.cache.bg == BgCacheState::CacheImage
            }),
    {
    }

    /// In a book without a record the chapter to read is cached before all
    /// others; then it is indexed, while the others follow from the first on.
    pub proof fn law_the_chapter_to_read_comes_first(self, reply: Reply)
        requires
            self.chapter < self.spine.len(),
            !self.cache.done[self.chapter as int],
        ensures
            self.task == Task::MetaDir ==> ({
                let (r, ask) = self.resumed(Reply::Outcome(Ok(())));
                &&& ask == (Ask::TruncateChapter { ch: self.chapter })
                &&& r.task == (Task::Truncate { ch: self.chapter, after: AfterStrip::Cache })
            }),
            self.task == (Task::Stripped { after: AfterStrip::Cache }) ==> ({
                let r = self.resumed(reply).0;
                &&& r.cache.ready
                &&& r.cache.next == 0
                &&& r.task == (Task::Nearby { k: 0, opening: true })
            }),
            self.task == (Task::Nearby { k: 5, opening: true }) ==> self.resumed(reply).0.state
                == State::NeedIndex,
            self.task == (Task::Stripped { after: AfterStrip::Index }) ==> self.resumed(reply)
                == self.indexing(),
    {
    }

    /// A chapter of moderate size goes to the worker: its file is emptied, its
    /// text unpacked and handed over, and the result waited for. One that is
    /// refused is passed over, and one that cannot be unpacked is cached here.
    pub proof fn law_chapters_go_to_the_worker(self, ch: u16, e: &'static str)
        requires
            ch < self.spine.len(),
            !self.cache.done[ch as int],
            self.cache.next < u16::MAX,
        ensures
            self.task == (Task::DispatchTruncate { ch }) ==> ({
                let (r, ask) = self.resumed(Reply::Outcome(Ok(())));
                &&& ask == (Ask::ExtractChapter { ch })
                &&& r.task == (Task::DispatchExtract { ch })
                &&& self.resumed(Reply::Outcome(Err(e))).0.cache.next == self.cache.next + 1
            }),
            self.task == (Task::DispatchExtract { ch }) ==> ({
                let (r, ask) = self.resumed(Reply::Outcome(Ok(())));
                &&& ask == (Ask::SubmitChapter { ch })
                &&& r.task == Task::DispatchSubmit
                &&& self.resumed(Reply::Outcome(Err(e))).1 == (Ask::TruncateChapter { ch })
                &&& self.resumed(Reply::Outcome(Err(e))).0.task == (Task::Truncate {
                    ch,
                    after: AfterStrip::Instead,
                })
            }),
            self.task == Task::DispatchSubmit ==> ({
                let taken = self.resumed(Reply::Flag(true)).0;
                let refused = self.resumed(Reply::Flag(false)).0;
                &&& taken.cache.bg == BgCacheState::WaitChapter
                &&& taken.cache.next == self.cache.next
                &&& refused.cache.bg == self.cache.bg
                &&& refused.cache.next == self.cache.next + 1
            }),
            self.task == (Task::Stripped { after: AfterStrip::Instead }) ==> ({
                let r = self.resumed(Reply::Nothing).0;
                &&& r.cache.next == self.cache.next + 1
                &&& r.cache.bg == BgCacheState::CacheChapter
                &&& r.task == Task::Rest
            }),
    {
    }

    /// A large chapter is cached here, the others by the worker.
    pub proof fn law_large_chapters_are_cached_here(self, reply: Reply)
        requires
            self.task == Task::DispatchNext,
            self.cache.next < self.spine.len(),
            !self.cache.done[self.cache.next as int],
        ensures
            ({
                let ch = self.cache.next;
                let r = self.resumed(reply).0;
                r.task == if self.spine[ch as int] > ASYNC_THRESHOLD {
                    Task::Truncate { ch, after: AfterStrip::Instead }
                } else {
                    Task::DispatchTruncate { ch }
                }
            }),
    {
    }

    /// A chapter that the worker could not do is cached here. With each that is
    /// behind, the next comes up, images near the page first, and after the last
    /// the record is written.
    pub proof fn law_the_next_chapter_comes_up(self, ch: u16, w: WorkResult, reply: Reply)
        requires
            self.cache.next < u16::MAX,
        ensures
            self.task == Task::RecvChapter && w.current && w.outcome == (
            WorkOutcome::ChapterFailed { ch }) && ch < self.spine.len()
                && !self.cache.done[ch as int] ==> self.resumed(Reply::Worker(Some(w))).0.task == (
            Task::Truncate { ch, after: AfterStrip::Worker }),
            self.task == (Task::Stripped { after: AfterStrip::Worker }) ==> ({
                let (r, ask) = self.resumed(reply);
                &&& r.cache.next == self.cache.next + 1
                &&& r.cache.next < self.spine.len() ==> r.task == (Task::Nearby {
                    k: 0,
                    opening: false,
                })
                &&& r.cache.next >= self.spine.len() ==> ask == Ask::WriteMeta
            }),
    {
    }

    /// While a page or the contents are on screen, work in the background goes
    /// on where it is at: it asks the worker for what it waits for, caches the
    /// next chapter, or looks for the next image. Else it rests.
    pub proof fn law_background_work_goes_on(self, reply: Reply)
        requires
            self.task == Task::Tail,
        ensures
            ({
                let (r, ask) = self.resumed(reply);
                let shown = self.state == State::Ready || self.state == State::ShowToc;
                &&& !shown || self.cache.bg == BgCacheState::Idle ==> ask == Ask::Idle && r.task
                    == Task::Rest
                &&& shown && self.cache.bg == BgCacheState::WaitChapter ==> ask == Ask::PollWorker
                    && r.task == Task::RecvChapter
                &&& shown && self.cache.bg == BgCacheState::WaitNearbyImage ==> ask
                    == Ask::PollWorker && r.task == (Task::RecvImage { nearby: true })
                &&& shown && self.cache.bg == BgCacheState::WaitImage ==> ask == Ask::PollWorker
                    && r.task == (Task::RecvImage { nearby: false })
                &&& shown && self.cache.bg == BgCacheState::CacheImage ==> r.task == Task::Find
                &&& shown && self.cache.bg == BgCacheState::CacheChapter ==> r.task == (
                Task::Adjacent { second: false })
            }),
    {
    }

    /// An image near the page that went to the worker is waited for, saved, and
    /// then the next one near the page is looked for; one from the search through
    /// the book lets the search go on.
    pub proof fn law_images_are_waited_for(self, at: ScanAt, k: u8, opening: bool, nearby: bool)
        requires
            at.goal == (AfterScan::Nearby { k, opening }),
        ensures
            self.task == (Task::Scan { at, scan: ScanStep::Submit }) ==> ({
                let r = self.resumed(Reply::Flag(true)).0;
                &&& r.cache.bg == BgCacheState::WaitNearbyImage
                &&& opening ==> r.state == State::NeedIndex && r.task == Task::Loop
                &&& !opening ==> r.state == self.state && r.task == Task::Rest
            }),
            self.task == (Task::SaveData { nearby }) ==> ({
                let r = self.resumed(Reply::Outcome(Ok(()))).0;
                &&& nearby ==> r.task == (Task::Nearby { k: 0, opening: false })
                &&& !nearby ==> r.task == Task::Rest && r.cache.bg == BgCacheState::CacheImage
                &&& r.pending_img is None
            }),
    {
    }

    /// A chapter that is entered from behind is shown from its last page, and any
    /// other from its first, whether or not it is read into memory.
    pub proof fn law_a_chapter_is_entered_as_asked(self, want_last: bool, e: &'static str)
        requires
            self.is_epub,
        ensures
            ({
                let r = self.indexing().0;
                ||| r.task == (Task::ChapterRoom { want_last: self.goto_last_page })
                ||| self.goto_last_page && r.task == Task::Last
                ||| !self.goto_last_page && r.task == Task::Loop && r.state == State::NeedPage
            }),
            self.task == (Task::ChapterRoom { want_last }) ==> ({
                let (r, ask) = self.resumed(Reply::Flag(true));
                let without = self.resumed(Reply::Flag(false)).0;
                &&& r.task == (Task::ChapterRead {
                    size: self.cache.sizes[self.chapter as int],
                    want_last,
                })
                &&& ask is ReadChapter && ask->ReadChapter_ch == self.chapter
                    && ask->ReadChapter_offset == 0
                &&& want_last ==> without.task == Task::Last
                &&& !want_last ==> without.state == State::NeedPage
            }),
            forall|size: u32|
                self.task == (Task::ChapterRead { size, want_last }) ==> ({
                    let r = (#[trigger] self.chapter_read(size, want_last, Reply::Bytes(Err(e)))).0;
                    &&& want_last ==> r.task == Task::Last
                    &&& !want_last ==> r.state == State::NeedPage
                }),
    {
    }

    /// What is read of a chapter is its text from the start on.
    pub open spec fn reads_chapter(self, text: Seq<u8>) -> bool {
        match self.task {
            Task::ChapterRead { size, .. } => {
                &&& size == text.len()
                &&& self.scratch.len() < size
                &&& self.scratch == text.take(self.scratch.len() as int)
            },
            _ => true,
        }
    }

    /// A chapter is read into memory piece by piece, without a gap, out of its
    /// own cache file, and its pages are those of all its text.
    pub proof fn law_the_chapter_is_gathered(self, size: u32, want_last: bool, d: Vec<u8>, text:
        Seq<u8>)
        requires
            self.task == (Task::ChapterRead { size, want_last }),
            self.reads_chapter(text),
            0 < d@.len() <= size - self.scratch.len(),
            d@ == text.subrange(
                self.scratch.len() as int,
                (self.scratch.len() + d@.len()) as int,
            ),
        ensures
            ({
                let (r, ask) = self.resumed(Reply::Bytes(Ok(d)));
                let have = self.scratch.len() + d@.len();
                &&& have < size ==> r.reads_chapter(text)
                &&& have < size ==> r.task == (Task::ChapterRead { size, want_last })
                &&& have < size ==> ask is ReadChapter && ask->ReadChapter_ch == self.chapter
                    && ask->ReadChapter_offset == have && 0 < ask->ReadChapter_len <= size - have
                &&& have == size ==> r.pager == (PagerView {
                    ch_cache: text,
                    ..self.pager
                }).indexed()
                &&& have == size && want_last ==> r.task == Task::Last
                &&& have == size && !want_last ==> r.state == State::NeedPage
            }),
    {
        assert(self.scratch + d@ =~= text.take((self.scratch.len() + d@.len()) as int));
        assert(text.take(text.len() as int) =~= text);
    }

    /// A book that is opened is the one that was asked for, at its start, with
    /// nothing left of the book before.
    pub proof fn law_a_new_book_starts_fresh(
        self,
        name: Seq<u8>,
        key: u32,
        epub: bool,
        generation: u16,
        fonts: Seq<FontSet>,
        i: int,
    )
        ensures
            ({
                let r = self.opened(name, key, epub, generation, fonts);
                &&& r.filename.len() <= name.len()
                &&& r.filename == name.take(r.filename.len() as int)
                &&& r.title == r.filename
                &&& r.name_key == key
                &&& r.is_epub == epub
                &&& r.work_gen == generation
                &&& r.chapter == 0
                &&& r.pager.page == 0
                &&& r.pager.ch_cache.len() == 0
                &&& r.pager.file_size == 0
                &&& r.restore_offset is None
                &&& r.error is None
                &&& r.page_img is None
                &&& !r.goto_last_page
                &&& r.state == State::NeedBookmark
                &&& r.cache.bg == BgCacheState::Idle
                &&& 0 <= i < self.cache.done.len() ==> !r.cache.done[i]
            }),
    {
        let r = self.opened(name, key, epub, generation, fonts);
        assert(r.filename =~= name.take(r.filename.len() as int));
    }

    /// The quick menu of a book always has the font size, as it is; chapters to
    /// turn where there is more than one, and the contents where there are any.
    pub proof fn law_the_menu_fits_the_book(self)
        ensures
            ({
                let m = self.actions();
                &&& m[0] is Cycle && m[0]->Cycle_id == QA_FONT_SIZE && m[0]->value
                    == self.book_font_size_idx
                &&& (exists|i: int| 0 <= i < m.len() && offers(#[trigger] m[i], QA_PREV_CHAPTER))
                    <==> self.is_epub && self.spine.len() > 1
                &&& (exists|i: int| 0 <= i < m.len() && offers(#[trigger] m[i], QA_NEXT_CHAPTER))
                    <==> self.is_epub && self.spine.len() > 1
                &&& (exists|i: int| 0 <= i < m.len() && offers(#[trigger] m[i], QA_TOC))
                    <==> self.is_epub && self.toc.len() > 0
            }),
    {
        let m = self.actions();
        if self.is_epub && self.spine.len() > 1 {
            assert(offers(m[1], QA_PREV_CHAPTER));
            assert(offers(m[2], QA_NEXT_CHAPTER));
        }
        if self.is_epub && self.toc.len() > 0 {
            assert(offers(m.last(), QA_TOC));
            assert(m.last() == m[m.len() - 1]);
        }
    }
}

/// A choice of the quick menu that carries out `id`.
pub open spec fn offers(a: QuickAction, id: u8) -> bool {
    a is Trigger && a->Trigger_id == id
}

} // verus!
