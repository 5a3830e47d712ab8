//! Opening a book: the archive's directory, the package document, the table
//! of contents, the record of the chapter cache, and the chapter to read.

use vstd::prelude::*;
use vstd::utf8;

use crate::apps::reader::app::{
    toc_view, toc_within, ReaderApp, ReaderView, State, TocEntry, TocView, TITLE_CAP,
};
use crate::apps::reader::cache::CacheView;
use crate::apps::reader::images::{pad, padded};
use crate::apps::reader::pages::{overlaid, PagerView, CHAPTER_CACHE_MAX, MAX_TEXT, PAGE_BUF};
use crate::apps::reader::work::{
    least, AfterLoad, AfterStrip, Ask, Reply, Task, EOCD_TAIL, MIN_ARCHIVE,
};
use crate::bytes::{push_bytes, utf8_text};
use crate::kernel::bookmarks::BookmarkCache;

verus! {

impl ReaderView {
    /// A tick of the background work, for a book whose bookmark was looked up.
    pub open spec fn entered(self) -> (ReaderView, Ask) {
        match self.state {
            State::NeedInit => self.pose(Task::ZipSize, Ask::BookSize),
            State::NeedOpf => self.pose(Task::OpfContainer, Ask::FindContainer),
            State::NeedToc => if self.toc_pending {
                ReaderView { toc_pending: false, ..self }.pose(Task::Toc, Ask::ReadToc)
            } else {
                self.toc_ready()
            },
            State::NeedCache => self.pose(Task::MetaRead, Ask::ReadMeta),
            State::NeedIndex => if self.is_epub && self.cache.ready
                && !self.cache.done[self.chapter as int] {
                self.strip_begun(self.chapter as int, AfterStrip::Index)
            } else {
                self.indexing()
            },
            State::NeedPage => match self.restore_offset {
                Some(target) => ReaderView { restore_offset: None, ..self }.with_page(0).go_on(
                    Task::Restore { target },
                ),
                None => self.load_begun(AfterLoad::Page),
            },
            _ => self.go_on(Task::Tail),
        }
    }

    /// A tick of the background work. The first tick for a book takes over its
    /// bookmark.
    pub open spec fn ticked(self, bm: crate::kernel::bookmarks::CacheView) -> (ReaderView, Ask) {
        if self.state == State::NeedBookmark {
            self.with_bookmark(bm.found(self.filename, self.name_key)).pose(
                Task::Recent,
                Ask::WriteRecent,
            )
        } else {
            self.entered()
        }
    }

    pub open spec fn recent_noted(self, reply: Reply) -> (ReaderView, Ask) {
        match reply {
            Reply::Outcome(_) => if self.is_epub {
                ReaderView {
                    spine: Seq::empty(),
                    cache: CacheView { ready: false, ..self.cache },
                    goto_last_page: false,
                    state: State::NeedInit,
                    ..self
                }.go_on(Task::Loop)
            } else {
                ReaderView { state: State::NeedPage, ..self }.go_on(Task::Loop)
            },
            _ => (self, Ask::Idle),
        }
    }

    pub open spec fn archive_sized(self, reply: Reply) -> (ReaderView, Ask) {
        match reply {
            Reply::Size(Ok(size)) => if size < MIN_ARCHIVE {
                self.failed("epub: file too small")
            } else {
                let len = least(size as int, EOCD_TAIL as int) as u32;
                ReaderView { cache: CacheView { epub_size: size, ..self.cache }, ..self }.pose(
                    Task::ZipTail { len },
                    Ask::ReadBook { offset: (size - len) as u32, len: len as usize },
                )
            },
            Reply::Size(Err(e)) => self.failed(e),
            _ => (self, Ask::Idle),
        }
    }

    pub open spec fn tail_read(self, reply: Reply) -> (ReaderView, Ask) {
        match reply {
            Reply::Bytes(Ok(d)) => ReaderView {
                pager: PagerView { buf: overlaid(self.pager.buf, d@), ..self.pager },
                ..self
            }.pose(Task::ZipEocd, Ask::ParseTail { len: d@.len() as usize }),
            Reply::Bytes(Err(e)) => self.failed(e),
            _ => (self, Ask::Idle),
        }
    }

    pub open spec fn directory_placed(self, reply: Reply) -> (ReaderView, Ask) {
        match reply {
            Reply::Directory(Ok(at)) => self.pose(
                Task::ZipRoom { offset: at.0, size: at.1 },
                Ask::Room { len: at.1 as usize },
            ),
            Reply::Directory(Err(e)) => self.failed(e),
            _ => (self, Ask::Idle),
        }
    }

    /// The directory of the archive is gathered in the scratch bytes.
    pub open spec fn directory_gathered(self, offset: u32, size: u32) -> (ReaderView, Ask) {
        if self.scratch.len() < size {
            self.pose(
                Task::ZipRead { offset, size },
                Ask::ReadBook {
                    offset: (offset + self.scratch.len()) as u32,
                    len: (size - self.scratch.len()) as usize,
                },
            )
        } else {
            self.pose(Task::ZipParse, Ask::ParseDirectory)
        }
    }

    pub open spec fn directory_roomed(self, offset: u32, size: u32, reply: Reply) -> (
        ReaderView,
        Ask,
    ) {
        match reply {
            Reply::Flag(ok) => if ok {
                ReaderView { scratch: Seq::empty(), ..self }.directory_gathered(offset, size)
            } else {
                self.failed("epub: CD too large for memory")
            },
            _ => (self, Ask::Idle),
        }
    }

    pub open spec fn directory_read(self, offset: u32, size: u32, reply: Reply) -> (
        ReaderView,
        Ask,
    ) {
        match reply {
            Reply::Bytes(Ok(d)) => if d@.len() == 0 {
                self.failed("epub: unexpected EOF")
            } else {
                ReaderView { scratch: self.scratch + d@, ..self }.directory_gathered(offset, size)
            },
            Reply::Bytes(Err(e)) => self.failed(e),
            _ => (self, Ask::Idle),
        }
    }

    pub open spec fn directory_parsed(self, reply: Reply) -> (ReaderView, Ask) {
        match reply {
            Reply::Outcome(Ok(_)) => ReaderView { state: State::NeedOpf, ..self }.go_on(Task::Tail),
            Reply::Outcome(Err(e)) => self.failed(e),
            _ => (self, Ask::Idle),
        }
    }

    pub open spec fn container_found(self, reply: Reply) -> (ReaderView, Ask) {
        match reply {
            Reply::Entry(Some(e)) => self.pose(Task::OpfPath, Ask::ContainerPath { idx: e.idx }),
            Reply::Entry(None) => self.pose(Task::OpfPath, Ask::ScanForOpf),
            _ => (self, Ask::Idle),
        }
    }

    pub open spec fn opf_named(self, reply: Reply) -> (ReaderView, Ask) {
        match reply {
            Reply::Bytes(Ok(path)) => if utf8::valid_utf8(path@) {
                ReaderView { scratch: path@, ..self }.pose(
                    Task::OpfFind { icase: false },
                    Ask::FindEntry { icase: false },
                )
            } else {
                self.failed("epub: bad opf path")
            },
            Reply::Bytes(Err(e)) => self.failed(e),
            _ => (self, Ask::Idle),
        }
    }

    pub open spec fn opf_found(self, icase: bool, reply: Reply) -> (ReaderView, Ask) {
        match reply {
            Reply::Entry(Some(e)) => self.pose(Task::OpfParse, Ask::ParseOpf { idx: e.idx }),
            Reply::Entry(None) => if icase {
                self.failed("epub: opf not found in zip")
            } else {
                self.pose(Task::OpfFind { icase: true }, Ask::FindEntry { icase: true })
            },
            _ => (self, Ask::Idle),
        }
    }

    pub open spec fn opf_done(self) -> (ReaderView, Ask) {
        ReaderView { toc: Seq::empty(), state: State::NeedToc, ..self }.go_on(Task::Tail)
    }

    /// The title is saved whole; as much of it as there is room for is shown.
    pub open spec fn opf_parsed(self, reply: Reply) -> (ReaderView, Ask) {
        match reply {
            Reply::Opf(Ok(o)) => {
                let r = ReaderView { spine: o.spine@, toc_pending: o.has_toc, ..self };
                if o.title@.len() > 0 {
                    ReaderView {
                        title: o.title@.take(least(o.title@.len() as int, TITLE_CAP as int)),
                        scratch: o.title@,
                        ..r
                    }.pose(Task::OpfTitle, Ask::SaveTitle)
                } else {
                    r.opf_done()
                }
            },
            Reply::Opf(Err(e)) => self.failed(e),
            _ => (self, Ask::Idle),
        }
    }

    pub open spec fn title_saved(self, reply: Reply) -> (ReaderView, Ask) {
        match reply {
            Reply::Outcome(_) => self.opf_done(),
            _ => (self, Ask::Idle),
        }
    }

    pub open spec fn toc_ready(self) -> (ReaderView, Ask) {
        ReaderView { state: State::NeedCache, ..self.with_actions() }.go_on(Task::Loop)
    }

    /// A table of contents that cannot be read is as good as none.
    pub open spec fn toc_read(self, reply: Reply) -> (ReaderView, Ask) {
        match reply {
            Reply::Toc(Ok(entries)) => ReaderView { toc: toc_view(entries@), ..self }.toc_ready(),
            Reply::Toc(Err(_)) => self.toc_ready(),
            _ => (self, Ask::Idle),
        }
    }

    pub open spec fn meta_read(self, reply: Reply) -> (ReaderView, Ask) {
        match reply {
            Reply::Bytes(Ok(d)) => ReaderView {
                pager: PagerView { buf: overlaid(self.pager.buf, d@), ..self.pager },
                ..self
            }.pose(Task::MetaParse, Ask::ParseMeta { len: d@.len() as usize }),
            Reply::Bytes(Err(_)) => self.pose(Task::MetaDir, Ask::EnsureDir),
            _ => (self, Ask::Idle),
        }
    }

    /// A good record means that the chapters are cached; otherwise the cache
    /// is set up, and the chapter to read is cached first.
    pub open spec fn meta_parsed(self, reply: Reply) -> (ReaderView, Ask) {
        match reply {
            Reply::Meta(Some(count), sizes) => ReaderView {
                cache: self.cache.with_meta(count as int, sizes@),
                state: State::NeedIndex,
                ..self
            }.go_on(Task::Loop),
            Reply::Meta(None, sizes) => ReaderView {
                cache: CacheView { sizes: sizes@, ..self.cache },
                ..self
            }.pose(Task::MetaDir, Ask::EnsureDir),
            _ => (self, Ask::Idle),
        }
    }

    pub open spec fn cache_set_up(self, reply: Reply) -> (ReaderView, Ask) {
        match reply {
            Reply::Outcome(Ok(_)) => ReaderView {
                cache: CacheView { next: 0, ..self.cache },
                ..self
            }.strip_begun(self.chapter as int, AfterStrip::Cache),
            Reply::Outcome(Err(e)) => self.failed(e),
            _ => (self, Ask::Idle),
        }
    }

    /// The reader at the start of the chapter, nothing of it known or in
    /// memory.
    pub open spec fn at_chapter(self) -> ReaderView {
        let r = self.rewound();
        ReaderView {
            goto_last_page: false,
            pager: PagerView {
                ch_cache: Seq::empty(),
                file_size: if self.chapter < self.cache.room() {
                    self.cache.sizes[self.chapter as int]
                } else {
                    0
                },
                ..r.pager
            },
            ..r
        }
    }

    /// The chapter is indexed. A cached chapter of moderate size is taken into
    /// memory first.
    pub open spec fn indexing(self) -> (ReaderView, Ask) {
        let r = self.at_chapter();
        let size = self.cache.sizes[self.chapter as int];
        if self.is_epub && self.cache.ready && self.chapter < self.cache.room() && 0 < size
            <= CHAPTER_CACHE_MAX {
            r.pose(
                Task::ChapterRoom { want_last: self.goto_last_page },
                Ask::Room { len: size as usize },
            )
        } else {
            r.chapter_placed(self.goto_last_page)
        }
    }

    /// Where in the chapter to go.
    pub open spec fn chapter_placed(self, want_last: bool) -> (ReaderView, Ask) {
        if want_last {
            self.go_on(Task::Last)
        } else {
            ReaderView { state: State::NeedPage, ..self }.go_on(Task::Loop)
        }
    }

    pub open spec fn chapter_asked(self, size: u32, want_last: bool) -> (ReaderView, Ask) {
        self.pose(
            Task::ChapterRead { size, want_last },
            Ask::ReadChapter {
                ch: self.chapter,
                offset: self.scratch.len() as u32,
                len: least(size - self.scratch.len(), PAGE_BUF as int) as usize,
            },
        )
    }

    pub open spec fn chapter_roomed(self, want_last: bool, reply: Reply) -> (ReaderView, Ask) {
        match reply {
            Reply::Flag(ok) => if ok {
                ReaderView { scratch: Seq::empty(), ..self }.chapter_asked(
                    self.cache.sizes[self.chapter as int],
                    want_last,
                )
            } else {
                self.chapter_placed(want_last)
            },
            _ => (self, Ask::Idle),
        }
    }

    /// The chapter is in memory: all its pages are found at once.
    pub open spec fn chapter_in_memory(self, text: Seq<u8>, want_last: bool) -> (
        ReaderView,
        Ask,
    ) {
        ReaderView {
            pager: PagerView { ch_cache: text, ..self.pager }.indexed(),
            scratch: Seq::empty(),
            ..self
        }.chapter_placed(want_last)
    }

    pub open spec fn chapter_read(self, size: u32, want_last: bool, reply: Reply) -> (
        ReaderView,
        Ask,
    ) {
        match reply {
            Reply::Bytes(Ok(d)) => {
                let text = self.scratch + d@;
                if d@.len() == 0 {
                    self.chapter_in_memory(padded(self.scratch, size as int), want_last)
                } else if text.len() < size {
                    ReaderView { scratch: text, ..self }.chapter_asked(size, want_last)
                } else {
                    self.chapter_in_memory(text, want_last)
                }
            },
            Reply::Bytes(Err(_)) => self.chapter_placed(want_last),
            _ => (self, Ask::Idle),
        }
    }
}

impl ReaderApp {
    /// A tick of the background work.
    pub fn background(&mut self, bm: &BookmarkCache) -> (r: Ask)
        requires
            old(self)@.wf(),
            bm.wf(),
        ensures
            final(self)@.steady(),
            (final(self)@, r) == old(self)@.ticked(bm@),
    {
        if self.state() == State::NeedBookmark {
            self.bookmark_load(bm);
            self.pose(Task::Recent, Ask::WriteRecent)
        } else {
            self.enter()
        }
    }

    pub(crate) fn enter(&mut self) -> (r: Ask)
        requires
            old(self)@.wf(),
        ensures
            final(self)@.steady(),
            (final(self)@, r) == old(self)@.entered(),
    {
        proof {
            self@.lemma_wf();
        }
        match self.state() {
            State::NeedInit => self.pose(Task::ZipSize, Ask::BookSize),
            State::NeedOpf => self.pose(Task::OpfContainer, Ask::FindContainer),
            State::NeedToc => {
                if self.toc_waits() {
                    self.set_toc_waits(false);
                    self.pose_bound(Task::Toc, Ask::ReadToc)
                } else {
                    self.end_toc()
                }
            },
            State::NeedCache => self.pose(Task::MetaRead, Ask::ReadMeta),
            State::NeedIndex => {
                let ch = self.chapter() as usize;
                if self.is_epub() && self.cache().ready && !self.cache().done[ch] {
                    self.strip(ch, AfterStrip::Index)
                } else {
                    self.index_chapter()
                }
            },
            State::NeedPage => match self.restores_to() {
                Some(target) => {
                    self.set_restore(None);
                    self.pager_mut().go_to(0);
                    self.go_on(Task::Restore { target })
                },
                None => self.load_and_prefetch(AfterLoad::Page),
            },
            _ => self.go_on(Task::Tail),
        }
    }

    pub(crate) fn on_recent(&mut self, reply: Reply) -> (r: Ask)
        requires
            old(self)@.steady(),
        ensures
            final(self)@.steady(),
            (final(self)@, r) == old(self)@.recent_noted(reply),
    {
        match reply {
            Reply::Outcome(_) => {
                if self.is_epub() {
                    proof {
                        self@.lemma_wf();
                    }
                    let none: Vec<u32> = Vec::new();
                    assert(none@ =~= Seq::empty());
                    self.set_spine(none);
                    self.cache_mut().set_ready(false);
                    self.set_goto_last(false);
                    self.set_state(State::NeedInit);
                } else {
                    self.set_state(State::NeedPage);
                }
                self.go_on(Task::Loop)
            },
            _ => Ask::Idle,
        }
    }

    /// The archive of the book: its size, and where its directory is.
    pub(crate) fn on_zip_size(&mut self, reply: Reply) -> (r: Ask)
        requires
            old(self)@.steady(),
        ensures
            final(self)@.steady(),
            (final(self)@, r) == old(self)@.archive_sized(reply),
    {
        match reply {
            Reply::Size(Ok(size)) => {
                if size < MIN_ARCHIVE {
                    self.fail("epub: file too small")
                } else {
                    proof {
                        self@.lemma_wf();
                    }
                    self.cache_mut().set_epub_size(size);
                    let len = if size < EOCD_TAIL {
                        size
                    } else {
                        EOCD_TAIL
                    };
                    self.pose_bound(
                        Task::ZipTail { len },
                        Ask::ReadBook { offset: size - len, len: len as usize },
                    )
                }
            },
            Reply::Size(Err(e)) => self.fail(e),
            _ => Ask::Idle,
        }
    }

    pub(crate) fn on_zip_tail(&mut self, reply: Reply) -> (r: Ask)
        requires
            old(self)@.steady(),
            reply matches Reply::Bytes(Ok(d)) ==> d@.len() <= PAGE_BUF,
        ensures
            final(self)@.steady(),
            (final(self)@, r) == old(self)@.tail_read(reply),
    {
        match reply {
            Reply::Bytes(Ok(d)) => {
                proof {
                    self@.lemma_wf();
                }
                self.pager_mut().borrow_buffer(d.as_slice());
                self.pose(Task::ZipEocd, Ask::ParseTail { len: d.len() })
            },
            Reply::Bytes(Err(e)) => self.fail(e),
            _ => Ask::Idle,
        }
    }

    pub(crate) fn on_zip_eocd(&mut self, reply: Reply) -> (r: Ask)
        requires
            old(self)@.steady(),
            reply matches Reply::Directory(Ok(at)) ==> at.0 + at.1 <= u32::MAX,
        ensures
            final(self)@.steady(),
            (final(self)@, r) == old(self)@.directory_placed(reply),
    {
        match reply {
            Reply::Directory(Ok(at)) => self.pose_bound(
                Task::ZipRoom { offset: at.0, size: at.1 },
                Ask::Room { len: at.1 as usize },
            ),
            Reply::Directory(Err(e)) => self.fail(e),
            _ => Ask::Idle,
        }
    }

    fn gather_directory(&mut self, offset: u32, size: u32) -> (r: Ask)
        requires
            old(self)@.wf(),
            offset + size <= u32::MAX,
        ensures
            final(self)@.steady(),
            (final(self)@, r) == old(self)@.directory_gathered(offset, size),
    {
        let have = self.scratch().len();
        if have < size as usize {
            self.pose_bound(
                Task::ZipRead { offset, size },
                Ask::ReadBook { offset: offset + have as u32, len: size as usize - have },
            )
        } else {
            self.pose(Task::ZipParse, Ask::ParseDirectory)
        }
    }

    pub(crate) fn on_zip_room(&mut self, offset: u32, size: u32, reply: Reply) -> (r: Ask)
        requires
            old(self)@.steady(),
            offset + size <= u32::MAX,
        ensures
            final(self)@.steady(),
            (final(self)@, r) == old(self)@.directory_roomed(offset, size, reply),
    {
        match reply {
            Reply::Flag(ok) => {
                if ok {
                    self.clear_scratch();
                    self.gather_directory(offset, size)
                } else {
                    self.fail("epub: CD too large for memory")
                }
            },
            _ => Ask::Idle,
        }
    }

    /// Reads on until the whole directory is there.
    pub(crate) fn on_zip_read(&mut self, offset: u32, size: u32, reply: Reply) -> (r: Ask)
        requires
            old(self)@.steady(),
            offset + size <= u32::MAX,
        ensures
            final(self)@.steady(),
            (final(self)@, r) == old(self)@.directory_read(offset, size, reply),
    {
        match reply {
            Reply::Bytes(Ok(d)) => {
                if d.len() == 0 {
                    self.fail("epub: unexpected EOF")
                } else {
                    self.extend_scratch(d.as_slice());
                    self.gather_directory(offset, size)
                }
            },
            Reply::Bytes(Err(e)) => self.fail(e),
            _ => Ask::Idle,
        }
    }

    pub(crate) fn on_zip_parsed(&mut self, reply: Reply) -> (r: Ask)
        requires
            old(self)@.steady(),
        ensures
            final(self)@.steady(),
            (final(self)@, r) == old(self)@.directory_parsed(reply),
    {
        match reply {
            Reply::Outcome(Ok(_)) => {
                self.set_state(State::NeedOpf);
                self.go_on(Task::Tail)
            },
            Reply::Outcome(Err(e)) => self.fail(e),
            _ => Ask::Idle,
        }
    }

    /// The package document is named by the container, or searched for.
    pub(crate) fn on_opf_container(&mut self, reply: Reply) -> (r: Ask)
        requires
            old(self)@.steady(),
        ensures
            final(self)@.steady(),
            (final(self)@, r) == old(self)@.container_found(reply),
    {
        match reply {
            Reply::Entry(Some(e)) => self.pose(Task::OpfPath, Ask::ContainerPath { idx: e.idx }),
            Reply::Entry(None) => self.pose(Task::OpfPath, Ask::ScanForOpf),
            _ => Ask::Idle,
        }
    }

    pub(crate) fn on_opf_path(&mut self, reply: Reply) -> (r: Ask)
        requires
            old(self)@.steady(),
        ensures
            final(self)@.steady(),
            (final(self)@, r) == old(self)@.opf_named(reply),
    {
        match reply {
            Reply::Bytes(Ok(path)) => {
                if utf8_text(path.as_slice()).is_some() {
                    self.set_scratch(path);
                    self.pose(Task::OpfFind { icase: false }, Ask::FindEntry { icase: false })
                } else {
                    self.fail("epub: bad opf path")
                }
            },
            Reply::Bytes(Err(e)) => self.fail(e),
            _ => Ask::Idle,
        }
    }

    pub(crate) fn on_opf_find(&mut self, icase: bool, reply: Reply) -> (r: Ask)
        requires
            old(self)@.steady(),
        ensures
            final(self)@.steady(),
            (final(self)@, r) == old(self)@.opf_found(icase, reply),
    {
        match reply {
            Reply::Entry(Some(e)) => self.pose(Task::OpfParse, Ask::ParseOpf { idx: e.idx }),
            Reply::Entry(None) => {
                if icase {
                    self.fail("epub: opf not found in zip")
                } else {
                    self.pose(Task::OpfFind { icase: true }, Ask::FindEntry { icase: true })
                }
            },
            _ => Ask::Idle,
        }
    }

    fn end_opf(&mut self) -> (r: Ask)
        requires
            old(self)@.wf(),
        ensures
            final(self)@.steady(),
            (final(self)@, r) == old(self)@.opf_done(),
    {
        let none: Vec<TocEntry> = Vec::new();
        assert(toc_view(none@) =~= Seq::<TocView>::empty());
        self.set_state(State::NeedToc);
        self.set_toc(none);
        self.go_on(Task::Tail)
    }

    pub(crate) fn on_opf_parsed(&mut self, reply: Reply) -> (r: Ask)
        requires
            old(self)@.steady(),
            reply matches Reply::Opf(Ok(o)) ==> o.spine@.len() <= old(self)@.cache.room(),
        ensures
            final(self)@.steady(),
            (final(self)@, r) == old(self)@.opf_parsed(reply),
    {
        match reply {
            Reply::Opf(Ok(o)) => {
                self.set_spine(o.spine);
                self.set_toc_waits(o.has_toc);
                if o.title.len() > 0 {
                    let n = if o.title.len() < TITLE_CAP {
                        o.title.len()
                    } else {
                        TITLE_CAP
                    };
                    let mut title: Vec<u8> = Vec::new();
                    let all = o.title.as_slice();
                    push_bytes(&mut title, &all[0..n]);
                    assert(title@ =~= o.title@.take(n as int));
                    self.set_title(title);
                    self.set_scratch(o.title);
                    self.pose(Task::OpfTitle, Ask::SaveTitle)
                } else {
                    self.end_opf()
                }
            },
            Reply::Opf(Err(e)) => self.fail(e),
            _ => Ask::Idle,
        }
    }

    pub(crate) fn on_title_saved(&mut self, reply: Reply) -> (r: Ask)
        requires
            old(self)@.steady(),
        ensures
            final(self)@.steady(),
            (final(self)@, r) == old(self)@.title_saved(reply),
    {
        match reply {
            Reply::Outcome(_) => self.end_opf(),
            _ => Ask::Idle,
        }
    }

    fn end_toc(&mut self) -> (r: Ask)
        requires
            old(self)@.wf(),
        ensures
            final(self)@.steady(),
            (final(self)@, r) == old(self)@.toc_ready(),
    {
        proof {
            self@.lemma_wf();
        }
        self.rebuild_quick_actions();
        self.set_state(State::NeedCache);
        self.go_on(Task::Loop)
    }

    pub(crate) fn on_toc(&mut self, reply: Reply) -> (r: Ask)
        requires
            old(self)@.steady(),
            old(self)@.state != State::ShowToc,
            reply matches Reply::Toc(Ok(es)) ==> toc_within(
                toc_view(es@),
                old(self)@.cache.room(),
            ),
        ensures
            final(self)@.steady(),
            (final(self)@, r) == old(self)@.toc_read(reply),
    {
        match reply {
            Reply::Toc(Ok(entries)) => {
                self.set_toc(entries);
                self.end_toc()
            },
            Reply::Toc(Err(_)) => self.end_toc(),
            _ => Ask::Idle,
        }
    }

    /// Looks whether the chapters are cached already.
    pub(crate) fn on_meta_read(&mut self, reply: Reply) -> (r: Ask)
        requires
            old(self)@.steady(),
            reply matches Reply::Bytes(Ok(d)) ==> d@.len() <= PAGE_BUF,
        ensures
            final(self)@.steady(),
            (final(self)@, r) == old(self)@.meta_read(reply),
    {
        match reply {
            Reply::Bytes(Ok(d)) => {
                proof {
                    self@.lemma_wf();
                }
                self.pager_mut().borrow_buffer(d.as_slice());
                self.pose(Task::MetaParse, Ask::ParseMeta { len: d.len() })
            },
            Reply::Bytes(Err(_)) => self.pose(Task::MetaDir, Ask::EnsureDir),
            _ => Ask::Idle,
        }
    }

    pub(crate) fn on_meta_parsed(&mut self, reply: Reply) -> (r: Ask)
        requires
            old(self)@.steady(),
            reply matches Reply::Meta(count, sizes) ==> {
                &&& sizes@.len() == old(self)@.cache.room()
                &&& forall|i: int| 0 <= i < sizes@.len() ==> #[trigger] sizes@[i] <= MAX_TEXT
                &&& count matches Some(c) ==> c <= old(self)@.cache.room()
            },
        ensures
            final(self)@.steady(),
            (final(self)@, r) == old(self)@.meta_parsed(reply),
    {
        proof {
            self@.lemma_wf();
        }
        match reply {
            Reply::Meta(Some(count), sizes) => {
                self.cache_mut().take_meta(count, sizes);
                self.set_state(State::NeedIndex);
                self.go_on(Task::Loop)
            },
            Reply::Meta(None, sizes) => {
                self.cache_mut().set_sizes(sizes);
                self.pose(Task::MetaDir, Ask::EnsureDir)
            },
            _ => Ask::Idle,
        }
    }

    pub(crate) fn on_meta_dir(&mut self, reply: Reply) -> (r: Ask)
        requires
            old(self)@.steady(),
        ensures
            final(self)@.steady(),
            (final(self)@, r) == old(self)@.cache_set_up(reply),
    {
        match reply {
            Reply::Outcome(Ok(_)) => {
                proof {
                    self@.lemma_wf();
                }
                self.cache_mut().set_next(0);
                let ch = self.chapter() as usize;
                self.strip(ch, AfterStrip::Cache)
            },
            Reply::Outcome(Err(e)) => self.fail(e),
            _ => Ask::Idle,
        }
    }

    /// Goes to the start of the chapter.
    pub(crate) fn index_chapter(&mut self) -> (r: Ask)
        requires
            old(self)@.wf(),
        ensures
            final(self)@.steady(),
            (final(self)@, r) == old(self)@.indexing(),
    {
        let want_last = self.wants_last_page();
        self.epub_index_chapter();
        self.try_cache_chapter(want_last)
    }

    /// Nothing of the chapter is known, or in memory.
    pub fn epub_index_chapter(&mut self)
        requires
            old(self)@.wf(),
        ensures
            final(self)@.wf(),
            final(self)@ == old(self)@.at_chapter(),
    {
        proof {
            self@.lemma_wf();
        }
        self.set_goto_last(false);
        self.set_page_img(None);
        self.set_fullscreen(false);
        let ch = self.chapter() as usize;
        let size = if ch < self.cache().sizes.len() {
            self.cache().sizes[ch]
        } else {
            0
        };
        self.pager_mut().reset_paging();
        self.pager_mut().drop_chapter_text();
        self.pager_mut().set_file_size(size);
    }

    /// Takes a cached chapter of moderate size into memory.
    fn try_cache_chapter(&mut self, want_last: bool) -> (r: Ask)
        requires
            old(self)@.wf(),
            old(self)@.pager.page == 0,
        ensures
            final(self)@.steady(),
            ({
                let v = old(self)@;
                let size = v.cache.sizes[v.chapter as int];
                (final(self)@, r) == if v.is_epub && v.cache.ready && v.chapter < v.cache.room()
                    && 0 < size <= CHAPTER_CACHE_MAX {
                    v.pose(Task::ChapterRoom { want_last }, Ask::Room { len: size as usize })
                } else {
                    v.chapter_placed(want_last)
                }
            }),
    {
        proof {
            self@.lemma_wf();
        }
        let ch = self.chapter() as usize;
        if self.is_epub() && self.cache().ready && ch < self.cache().sizes.len() {
            let size = self.cache().sizes[ch] as usize;
            if size > 0 && size <= CHAPTER_CACHE_MAX {
                return self.pose_bound(Task::ChapterRoom { want_last }, Ask::Room { len: size });
            }
        }
        self.place_in_chapter(want_last)
    }

    fn place_in_chapter(&mut self, want_last: bool) -> (r: Ask)
        requires
            old(self)@.wf(),
        ensures
            final(self)@.steady(),
            (final(self)@, r) == old(self)@.chapter_placed(want_last),
    {
        if want_last {
            self.go_on(Task::Last)
        } else {
            self.set_state(State::NeedPage);
            self.go_on(Task::Loop)
        }
    }

    fn ask_chapter(&mut self, size: u32, want_last: bool) -> (r: Ask)
        requires
            old(self)@.wf(),
            0 < size <= CHAPTER_CACHE_MAX,
            old(self)@.scratch.len() < size,
            old(self)@.pager.page == 0,
        ensures
            final(self)@.steady(),
            (final(self)@, r) == old(self)@.chapter_asked(size, want_last),
    {
        let have = self.scratch().len();
        let left = size as usize - have;
        let len = if left < PAGE_BUF {
            left
        } else {
            PAGE_BUF
        };
        let ch = self.chapter();
        self.pose_bound(
            Task::ChapterRead { size, want_last },
            Ask::ReadChapter { ch, offset: have as u32, len },
        )
    }

    pub(crate) fn on_chapter_room(&mut self, want_last: bool, reply: Reply) -> (r: Ask)
        requires
            old(self)@.steady(),
            old(self)@.task == (Task::ChapterRoom { want_last }),
        ensures
            final(self)@.steady(),
            (final(self)@, r) == old(self)@.chapter_roomed(want_last, reply),
    {
        match reply {
            Reply::Flag(ok) => {
                if ok {
                    let size = self.cache().sizes[self.chapter() as usize];
                    self.clear_scratch();
                    self.ask_chapter(size, want_last)
                } else {
                    self.place_in_chapter(want_last)
                }
            },
            _ => Ask::Idle,
        }
    }

    fn take_chapter(&mut self, text: Vec<u8>, want_last: bool) -> (r: Ask)
        requires
            old(self)@.wf(),
            text@.len() <= CHAPTER_CACHE_MAX,
            old(self)@.pager.page == 0,
        ensures
            final(self)@.steady(),
            (final(self)@, r) == old(self)@.chapter_in_memory(text@, want_last),
    {
        proof {
            self@.lemma_wf();
        }
        self.clear_scratch();
        self.pager_mut().set_chapter_text(text);
        self.pager_mut().preindex_all_pages();
        self.place_in_chapter(want_last)
    }

    pub(crate) fn on_chapter_read(&mut self, size: u32, want_last: bool, reply: Reply) -> (r: Ask)
        requires
            old(self)@.steady(),
            old(self)@.task == (Task::ChapterRead { size, want_last }),
            reply matches Reply::Bytes(Ok(d)) ==> old(self)@.scratch.len() + d@.len() <= size,
        ensures
            final(self)@.steady(),
            (final(self)@, r) == old(self)@.chapter_read(size, want_last, reply),
    {
        match reply {
            Reply::Bytes(Ok(d)) => {
                let mut text: Vec<u8> = Vec::new();
                push_bytes(&mut text, self.scratch().as_slice());
                assert(text@ =~= self@.scratch);
                if d.len() == 0 {
                    pad(&mut text, size as usize);
                    self.take_chapter(text, want_last)
                } else {
                    push_bytes(&mut text, d.as_slice());
                    if text.len() < size as usize {
                        self.set_scratch(text);
                        self.ask_chapter(size, want_last)
                    } else {
                        self.take_chapter(text, want_last)
                    }
                }
            },
            Reply::Bytes(Err(_)) => self.place_in_chapter(want_last),
            _ => Ask::Idle,
        }
    }
}

} // verus!
