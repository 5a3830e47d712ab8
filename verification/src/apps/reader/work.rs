//! The reader's background work: opening a book, loading pages, and caching
//! chapters and images.
//!
//! The work runs in steps. Each step ends in a question (`Ask`) to storage, to
//! the book's archive or to the worker, and goes on with the answer (`Reply`).
//! An answer of another kind than the question asks for changes nothing.

use vstd::prelude::*;

use crate::apps::reader::cache::{BgCacheState, CacheView};
use crate::apps::reader::images::{row_bytes, Image};
use crate::apps::reader::pages::{PagerView, CHAPTER_CACHE_MAX, MAX_TEXT, PAGE_BUF};
use crate::apps::reader::wrap::LineSpan;
use crate::apps::reader::app::{toc_view, toc_within, ReaderApp, ReaderView, State, TocEntry};

verus! {

/// The bytes at the end of an archive that hold the record of its directory.
pub const EOCD_TAIL: u32 = 512;

/// The smallest archive there is.
pub const MIN_ARCHIVE: u32 = 22;

/// Larger chapters are not handed to the worker.
pub const ASYNC_THRESHOLD: u32 = 32768;

/// Larger images are not handed to the worker.
pub const PRECACHE_IMG_MAX: u32 = 30720;

/// How far the chunks overlap that a chapter is searched in for images. The
/// longest reference has one byte more: three, and a path of 255.
pub const CHUNK_OVERLAP: usize = 257;

/// The longest path of an image that is looked at.
pub const SRC_CAP: usize = 128;

/// An entry of the book's archive.
#[derive(Debug, Clone, Copy, PartialEq, Eq, Structural)]
pub struct ZipEntry {
    pub idx: usize,
    pub local_offset: u32,
    /// The entry is not compressed.
    pub stored: bool,
    pub comp_size: u32,
    pub uncomp_size: u32,
}

/// An image to be decoded out of the book's file.
#[derive(Debug, Clone, Copy, PartialEq, Eq, Structural)]
pub struct DecodeJob {
    pub is_jpeg: bool,
    pub stored: bool,
    pub data_offset: u32,
    pub comp_size: u32,
    pub uncomp_size: u32,
    pub max_w: u16,
    pub max_h: u16,
}

/// What follows when a page is loaded.
#[derive(Debug, Clone, Copy, PartialEq, Eq, Structural)]
pub enum AfterLoad {
    /// It is shown.
    Page,
    /// The search for the page that holds a position goes on.
    Restore(u32),
    /// The search for the last page goes on.
    LastScan,
    /// It was the last page, and is shown.
    LastFinal,
}

/// What follows when a chapter is cached.
#[derive(Debug, Clone, Copy, PartialEq, Eq, Structural)]
pub enum AfterStrip {
    /// The book can be read; the rest is cached in the background.
    Cache,
    /// The chapter is indexed.
    Index,
    /// One of the chapters next to that on screen was cached first.
    Adjacent { second: bool },
    /// The chapter was too large for the worker, or could not be unpacked.
    Instead,
    /// The worker had failed on the chapter.
    Worker,
}

/// What follows when a chapter was searched for an image.
#[derive(Debug, Clone, Copy, PartialEq, Eq, Structural)]
pub enum AfterScan {
    /// The search of the chapters near that on screen.
    Nearby { k: u8, opening: bool },
    /// The search of all chapters.
    Find,
}

/// A search of a chapter: the chunk of `n` bytes at `offset`, up to byte `i`.
#[derive(Debug, Clone, Copy, PartialEq, Eq, Structural)]
pub struct ScanAt {
    pub ch: u16,
    pub offset: u32,
    pub n: usize,
    pub i: usize,
    pub goal: AfterScan,
}

impl ScanAt {
    /// The chunk lies in the chapter, and the next byte in the chunk.
    pub open spec fn placed(self, r: ReaderView) -> bool {
        &&& self.ch < r.cache.room()
        &&& 0 < self.n <= PAGE_BUF
        &&& self.i <= self.n
        &&& self.offset + self.n <= r.cache.sizes[self.ch as int]
    }
}

/// How far the image of a page has come.
#[derive(Debug, Clone, Copy, PartialEq, Eq, Structural)]
pub enum ImgStep {
    Resolve,
    Size { hash: u32 },
    Head { hash: u32, size: u32 },
    Room { hash: u32, width: u16, height: u16 },
    Data { hash: u32, width: u16, height: u16 },
    Find { hash: u32, icase: bool },
    Local { hash: u32, entry: ZipEntry },
    Magic { hash: u32, entry: ZipEntry, data_offset: u32 },
    Decode { hash: u32, job: DecodeJob },
    HeadWrite { hash: u32 },
    DataWrite,
}

/// How far an image found in a chapter has come.
#[derive(Debug, Clone, Copy, PartialEq, Eq, Structural)]
pub enum ScanStep {
    Chunk,
    Resolve,
    Size { hash: u32 },
    Skip,
    Find { hash: u32, icase: bool },
    Local { hash: u32, entry: ZipEntry },
    Decode { hash: u32 },
    HeadWrite { hash: u32 },
    DataWrite,
    Mark,
    Extract { hash: u32 },
    Submit,
}

/// The work that waits for an answer.
#[derive(Debug, Clone, Copy, PartialEq, Eq, Structural)]
pub enum Task {
    Rest,
    Loop,
    Tail,
    Recent,
    ZipSize,
    ZipTail { len: u32 },
    ZipEocd,
    ZipRoom { offset: u32, size: u32 },
    ZipRead { offset: u32, size: u32 },
    ZipParse,
    OpfContainer,
    OpfPath,
    OpfFind { icase: bool },
    OpfParse,
    OpfTitle,
    Toc,
    MetaRead,
    MetaParse,
    MetaDir,
    Truncate { ch: u16, after: AfterStrip },
    Strip { ch: u16, after: AfterStrip },
    Stripped { after: AfterStrip },
    ChapterRoom { want_last: bool },
    ChapterRead { size: u32, want_last: bool },
    Last,
    LastEnd,
    Restore { target: u32 },
    Open { next: AfterLoad },
    PageRead { next: AfterLoad },
    Prefetch { next: AfterLoad },
    PageImage { next: AfterLoad },
    Img { next: AfterLoad, step: ImgStep },
    Loaded { next: AfterLoad },
    Adjacent { second: bool },
    DispatchNext,
    DispatchTruncate { ch: u16 },
    DispatchExtract { ch: u16 },
    DispatchSubmit,
    Finish { received: bool },
    RecvChapter,
    RecvWrite { ch: u16, size: u32 },
    RecvImage { nearby: bool },
    SaveHead { hash: u32, nearby: bool },
    SaveData { nearby: bool },
    Nearby { k: u8, opening: bool },
    ScanRead { ch: u16, offset: u32, goal: AfterScan },
    Scan { at: ScanAt, scan: ScanStep },
    Find,
    FindBusy,
}

/// A question to storage, to the archive or to the worker.
#[derive(Debug, Clone, Copy, PartialEq, Eq, Structural)]
pub enum Ask {
    /// Nothing more to do for now.
    Idle,
    /// Go on; nothing is asked.
    Again,
    /// Note the book as the one read last.
    WriteRecent,
    BookSize,
    ReadBook { offset: u32, len: usize },
    /// The size of the book's file and its first bytes.
    OpenBook { len: usize },
    /// The directory's place, by the first `len` bytes of the page buffer.
    ParseTail { len: usize },
    /// Is there memory for so many bytes?
    Room { len: usize },
    /// Take the archive's directory, which is in the scratch bytes.
    ParseDirectory,
    FindContainer,
    /// The path of the package document, out of the container entry.
    ContainerPath { idx: usize },
    /// The path of the package document, by a search of the directory.
    ScanForOpf,
    /// The entry whose path is in the scratch bytes.
    FindEntry { icase: bool },
    /// Take the package document; its path is in the scratch bytes.
    ParseOpf { idx: usize },
    /// Save the book's title, which is in the scratch bytes.
    SaveTitle,
    ReadToc,
    ReadMeta,
    /// The first `len` bytes of the page buffer are the cache's record.
    ParseMeta { len: usize },
    EnsureDir,
    /// Write the cache's record.
    WriteMeta,
    TruncateChapter { ch: u16 },
    /// Strip a chapter into its cache file.
    StripChapter { ch: u16 },
    /// Unpack a chapter for the worker.
    ExtractChapter { ch: u16 },
    SubmitChapter { ch: u16 },
    /// Write the scratch bytes to the chapter's cache file.
    WriteChapter { ch: u16 },
    ReadChapter { ch: u16, offset: u32, len: usize },
    PollWorker,
    WorkerIdle,
    /// The full path of an image, whose path as the chapter gives it is in the
    /// scratch bytes.
    ResolveImage { ch: u16 },
    ImageSize { hash: u32 },
    ReadImage { hash: u32, offset: u32, len: usize },
    /// Skip the local header at an offset of the book's file.
    LocalHeader { offset: u32 },
    Decode { job: DecodeJob },
    /// Write the header of the pending image to its cache file.
    WriteImageHeader { hash: u32 },
    /// Append the data of the pending image to its cache file.
    AppendImage { hash: u32 },
    /// Leave an empty cache file for an image that cannot be shown.
    SkipImage { hash: u32 },
    ExtractImage { idx: usize },
    SubmitImage { hash: u32, is_jpeg: bool, max_w: u16, max_h: u16 },
}

/// What the package document says of a book.
pub struct Opf {
    /// The unpacked size of each chapter's document.
    pub spine: Vec<u32>,
    pub title: Vec<u8>,
    pub has_toc: bool,
}

pub enum WorkOutcome {
    ChapterReady { ch: u16, text: Vec<u8> },
    ChapterFailed { ch: u16 },
    ImageReady { hash: u32, image: Image },
    ImageFailed { hash: u32 },
}

pub struct WorkResult {
    /// The result belongs to the book that is open.
    pub current: bool,
    pub outcome: WorkOutcome,
}

/// An answer.
pub enum Reply {
    /// To `Again`.
    Nothing,
    /// Whether what was asked is done: a write, a title, a chapter or image
    /// unpacked for the worker, or the archive's directory taken.
    Outcome(Result<(), &'static str>),
    /// To `Room`, `SubmitChapter`, `SubmitImage` and `WorkerIdle`.
    Flag(bool),
    /// To `BookSize` and `ImageSize`; to `StripChapter`, the size of the text;
    /// to `LocalHeader`, the bytes to skip.
    Size(Result<u32, &'static str>),
    /// To `ReadBook`, `ReadMeta`, `ReadChapter` and `ReadImage`; to
    /// `ContainerPath` and `ScanForOpf`, the path.
    Bytes(Result<Vec<u8>, &'static str>),
    /// To `OpenBook`.
    Start(Result<(u32, Vec<u8>), &'static str>),
    /// To `ParseTail`: the offset and the size of the archive's directory.
    Directory(Result<(u32, u32), &'static str>),
    /// To `FindContainer` and `FindEntry`.
    Entry(Option<ZipEntry>),
    /// To `ParseOpf`.
    Opf(Result<Opf, &'static str>),
    /// To `ReadToc`.
    Toc(Result<Vec<TocEntry>, &'static str>),
    /// To `ParseMeta`: how many chapters the record covers, where it is good,
    /// and the sizes.
    Meta(Option<usize>, Vec<u32>),
    /// To `ResolveImage`: the hash of an image's full path, and the path.
    Resolved(u32, Vec<u8>),
    /// To `Decode`.
    Decoded(Result<Image, &'static str>),
    /// To `PollWorker`.
    Worker(Option<WorkResult>),
}

/// A task that needs nothing but a well-formed reader.
pub open spec fn light(task: Task) -> bool {
    match task {
        Task::ZipTail { len } => false,
        Task::ZipRoom { offset, size } => false,
        Task::ZipRead { offset, size } => false,
        Task::Toc => false,
        Task::Truncate { ch, after } => false,
        Task::Strip { ch, after } => false,
        Task::ChapterRoom { want_last } => false,
        Task::ChapterRead { size, want_last } => false,
        Task::Img { next, step } => !(step is Data),
        Task::DispatchTruncate { ch } => false,
        Task::DispatchExtract { ch } => false,
        Task::RecvWrite { ch, size } => false,
        Task::ScanRead { ch, offset, goal } => false,
        Task::Scan { at, scan } => false,
        _ => true,
    }
}

/// The first line from `i` on where an image starts.
pub open spec fn first_origin(lines: Seq<LineSpan>, i: int) -> Option<int>
    decreases lines.len() - i,
{
    if i >= lines.len() {
        None
    } else if lines[i].image_origin() {
        Some(i)
    } else {
        first_origin(lines, i + 1)
    }
}

pub open spec fn has_text(lines: Seq<LineSpan>) -> bool {
    exists|i: int| 0 <= i < lines.len() && !(#[trigger] lines[i]).image() && lines[i].len > 0
}

/// The path of the page's first image, or nothing.
pub open spec fn image_src(p: PagerView) -> Seq<u8> {
    match first_origin(p.lines, 0) {
        Some(k) => {
            let l = p.lines[k];
            let n = if l.len < SRC_CAP {
                l.len as int
            } else {
                SRC_CAP as int
            };
            if l.start + l.len <= p.buf_len {
                p.buf.subrange(l.start as int, l.start + n)
            } else {
                Seq::empty()
            }
        },
        None => Seq::empty(),
    }
}

pub open spec fn least(a: int, b: int) -> int {
    if a < b {
        a
    } else {
        b
    }
}

/// The chapters near `r` in the order in which they are searched for images.
pub open spec fn near(r: int, k: int) -> int {
    if k == 0 {
        r
    } else if k == 1 {
        r + 1
    } else if k == 2 {
        if r > 0 {
            r - 1
        } else {
            0
        }
    } else if k == 3 {
        r + 2
    } else if r > 2 {
        r - 2
    } else {
        0
    }
}

pub(crate) fn near_chapter(r: u16, k: u8) -> (n: usize)
    ensures
        n == near(r as int, k as int),
{
    let r = r as usize;
    if k == 0 {
        r
    } else if k == 1 {
        r + 1
    } else if k == 2 {
        if r > 0 {
            r - 1
        } else {
            0
        }
    } else if k == 3 {
        r + 2
    } else if r > 2 {
        r - 2
    } else {
        0
    }
}

/// An answer within the bounds of the question about a page's image.
pub open spec fn img_fits(step: ImgStep, reply: Reply) -> bool {
    match (step, reply) {
        (ImgStep::Head { hash, size }, Reply::Bytes(Ok(d))) => d@.len() <= 4,
        (ImgStep::Data { hash, width, height }, Reply::Bytes(Ok(d))) => d@.len() <= row_bytes(
            width as int,
        ) * height,
        (ImgStep::Local { hash, entry }, Reply::Size(Ok(skip))) => entry.local_offset + skip
            <= u32::MAX,
        _ => true,
    }
}

/// An answer within the bounds of the question about an image in a chapter.
pub open spec fn scan_fits(scan: ScanStep, reply: Reply) -> bool {
    match (scan, reply) {
        (ScanStep::Local { hash, entry }, Reply::Size(Ok(skip))) => entry.local_offset + skip
            <= u32::MAX,
        _ => true,
    }
}

impl ReaderView {
    pub open spec fn pose(self, task: Task, ask: Ask) -> (ReaderView, Ask) {
        (ReaderView { task, ..self }, ask)
    }

    pub open spec fn go_on(self, task: Task) -> (ReaderView, Ask) {
        self.pose(task, Ask::Again)
    }

    pub open spec fn rest(self) -> (ReaderView, Ask) {
        self.pose(Task::Rest, Ask::Idle)
    }

    /// The book cannot be opened, or the page not be shown.
    pub open spec fn failed(self, e: &'static str) -> (ReaderView, Ask) {
        ReaderView { error: Some(e), state: State::Error, dirty: true, ..self }.rest()
    }

    pub open spec fn with_bg(self, bg: BgCacheState) -> ReaderView {
        ReaderView { cache: CacheView { bg, ..self.cache }, ..self }
    }

    /// The work that waits has what it needs to go on.
    pub open spec fn task_wf(self) -> bool {
        match self.task {
            Task::ZipTail { len } => len <= EOCD_TAIL,
            Task::ZipRoom { offset, size } => offset + size <= u32::MAX,
            Task::ZipRead { offset, size } => offset + size <= u32::MAX && self.scratch.len()
                < size,
            Task::Toc => self.state != State::ShowToc,
            Task::Truncate { ch, after } => ch < self.cache.room(),
            Task::Strip { ch, after } => ch < self.cache.room(),
            Task::ChapterRoom { want_last } => {
                &&& self.chapter < self.cache.room()
                &&& 0 < self.cache.sizes[self.chapter as int] <= CHAPTER_CACHE_MAX
                &&& self.pager.page == 0
            },
            Task::ChapterRead { size, want_last } => {
                &&& 0 < size <= CHAPTER_CACHE_MAX
                &&& self.scratch.len() < size
                &&& self.pager.page == 0
            },
            Task::Img { next, step: ImgStep::Data { hash, width, height } } => width > 0 && height
                > 0,
            Task::DispatchTruncate { ch } => ch < self.cache.room(),
            Task::DispatchExtract { ch } => ch < self.cache.room(),
            Task::RecvWrite { ch, size } => ch < self.cache.room() && size <= MAX_TEXT,
            Task::ScanRead { ch, offset, goal } => {
                ch < self.cache.room() && offset < self.cache.sizes[ch as int]
            },
            Task::Scan { at, scan } => at.placed(self),
            _ => true,
        }
    }

    /// Between two steps.
    pub open spec fn steady(self) -> bool {
        self.wf() && self.task_wf()
    }

    /// An answer within the bounds of the question: no more bytes than were
    /// asked for, and numbers that can be.
    pub open spec fn fits(self, reply: Reply) -> bool {
        match (self.task, reply) {
            (Task::ZipTail { len }, Reply::Bytes(Ok(d))) => d@.len() <= len,
            (Task::ZipEocd, Reply::Directory(Ok(at))) => at.0 + at.1 <= u32::MAX,
            (Task::ZipRead { offset, size }, Reply::Bytes(Ok(d))) => self.scratch.len() + d@.len()
                <= size,
            (Task::OpfParse, Reply::Opf(Ok(o))) => o.spine@.len() <= self.cache.room(),
            (Task::Toc, Reply::Toc(Ok(es))) => toc_within(toc_view(es@), self.cache.room()),
            (Task::MetaRead, Reply::Bytes(Ok(d))) => d@.len() <= PAGE_BUF,
            (Task::MetaParse, Reply::Meta(count, sizes)) => {
                &&& sizes@.len() == self.cache.room()
                &&& forall|i: int|
                    0 <= i < sizes@.len() ==> #[trigger] sizes@[i] <= MAX_TEXT
                &&& count matches Some(c) ==> c <= self.cache.room()
            },
            (Task::Strip { ch, after }, Reply::Size(Ok(n))) => n <= MAX_TEXT,
            (Task::ChapterRead { size, want_last }, Reply::Bytes(Ok(d))) => self.scratch.len()
                + d@.len() <= size,
            (Task::Open { next }, Reply::Start(Ok(s))) => s.0 <= MAX_TEXT && s.1@.len() <= PAGE_BUF,
            (Task::PageRead { next }, Reply::Bytes(Ok(d))) => d@.len() <= PAGE_BUF,
            (Task::Prefetch { next }, Reply::Bytes(Ok(d))) => d@.len() <= PAGE_BUF,
            (Task::Img { next, step }, reply) => img_fits(step, reply),
            (Task::RecvChapter, Reply::Worker(Some(w))) => match w.outcome {
                WorkOutcome::ChapterReady { ch, text } => ch < self.cache.room() && text@.len()
                    <= MAX_TEXT,
                WorkOutcome::ChapterFailed { ch } => ch < self.cache.room(),
                _ => true,
            },
            (Task::ScanRead { ch, offset, goal }, Reply::Bytes(Ok(d))) => d@.len() <= least(
                PAGE_BUF as int,
                self.cache.sizes[ch as int] - offset,
            ),
            (Task::Scan { at, scan }, reply) => scan_fits(scan, reply),
            _ => true,
        }
    }
}

impl ReaderApp {
    /// Asks, and waits for the answer.
    pub(crate) fn pose(&mut self, task: Task, ask: Ask) -> (r: Ask)
        requires
            old(self)@.wf(),
            light(task),
        ensures
            final(self)@.steady(),
            final(self)@ == (ReaderView { task, ..old(self)@ }),
            r == ask,
    {
        self.set_task(task);
        ask
    }

    /// Asks, and waits for the answer with something to keep to.
    pub(crate) fn pose_bound(&mut self, task: Task, ask: Ask) -> (r: Ask)
        requires
            old(self)@.wf(),
            (ReaderView { task, ..old(self)@ }).task_wf(),
        ensures
            final(self)@.steady(),
            final(self)@ == (ReaderView { task, ..old(self)@ }),
            r == ask,
    {
        self.set_task(task);
        ask
    }

    pub(crate) fn go_on(&mut self, task: Task) -> (r: Ask)
        requires
            old(self)@.wf(),
            light(task),
        ensures
            final(self)@.steady(),
            final(self)@ == (ReaderView { task, ..old(self)@ }),
            r == Ask::Again,
    {
        self.set_task(task);
        Ask::Again
    }

    pub(crate) fn rest(&mut self) -> (r: Ask)
        requires
            old(self)@.wf(),
        ensures
            final(self)@.steady(),
            final(self)@ == (ReaderView { task: Task::Rest, ..old(self)@ }),
            r == Ask::Idle,
    {
        self.set_task(Task::Rest);
        Ask::Idle
    }

    pub(crate) fn fail(&mut self, e: &'static str) -> (r: Ask)
        requires
            old(self)@.wf(),
        ensures
            final(self)@.steady(),
            (final(self)@, r) == old(self)@.failed(e),
    {
        self.set_error(e);
        self.set_state(State::Error);
        self.set_dirty(true);
        self.rest()
    }
}

} // verus!
