//! Looking up the title of a book for the file browser: out of the package
//! document of its archive, step by step.

use vstd::prelude::*;
use vstd::utf8;

use crate::apps::files::TitleScanResult;
use crate::apps::reader::images::{dir_of, dir_part};
use crate::bytes::{push_bytes, utf8_text};

verus! {

/// What the look-up waits for.
#[derive(Debug, Clone, Copy, PartialEq, Eq, Structural)]
pub enum TitleTask {
    Rest,
    Name,
    Size,
    Tail,
    Eocd,
    Room { offset: u32, size: u32 },
    Read { offset: u32, size: u32 },
    Parse,
    Container,
    Path,
    Find { icase: bool },
    Opf,
    Save,
}

/// A question to the directory cache, to storage or to the archive.
#[derive(Debug, Clone, Copy, PartialEq, Eq, Structural)]
pub enum TitleAsk {
    /// The look-up is over; `None` where no book was left.
    Done(Option<TitleScanResult>),
    /// The first book from `from` on that has no title.
    NextUntitled { from: usize },
    FileSize,
    ReadFile { offset: u32, len: usize },
    /// The place of the archive's directory, by the scratch bytes.
    ParseTail,
    /// Is there memory for so many bytes?
    Room { len: usize },
    /// Take the archive's directory, which is in the scratch bytes.
    ParseDirectory,
    FindContainer,
    ContainerPath { idx: usize },
    ScanForOpf,
    /// The entry whose path is in the scratch bytes.
    FindEntry { icase: bool },
    /// The title that the package document gives.
    ReadTitle { idx: usize },
    /// Keep the title, which is in the scratch bytes, for the book.
    SaveTitle { idx: usize },
}

/// An answer.
pub enum TitleReply {
    Untitled(Option<(usize, Vec<u8>)>),
    Size(Result<u32, &'static str>),
    Bytes(Result<Vec<u8>, &'static str>),
    Directory(Result<(u32, u32), &'static str>),
    Flag(bool),
    Outcome(Result<(), &'static str>),
    Entry(Option<usize>),
}

pub struct TitleScan {
    pub task: TitleTask,
    /// The book that is looked at, and its file.
    pub idx: usize,
    pub name: Vec<u8>,
    pub scratch: Vec<u8>,
    /// Why the last look-up gave no title.
    pub error: Option<&'static str>,
}

/// The value of a look-up.
pub struct TitleView {
    pub task: TitleTask,
    pub idx: usize,
    pub name: Seq<u8>,
    pub scratch: Seq<u8>,
    pub error: Option<&'static str>,
}

impl View for TitleScan {
    type V = TitleView;

    open spec fn view(&self) -> TitleView {
        TitleView {
            task: self.task,
            idx: self.idx,
            name: self.name@,
            scratch: self.scratch@,
            error: self.error,
        }
    }
}

/// A name as text, or nothing where it is not text.
pub open spec fn as_text(name: Seq<u8>) -> Seq<u8> {
    if utf8::valid_utf8(name) {
        name
    } else {
        Seq::empty()
    }
}

impl TitleView {
    pub open spec fn wf(self) -> bool {
        &&& self.idx < usize::MAX
        &&& match self.task {
            TitleTask::Room { offset, size } => offset + size <= u32::MAX,
            TitleTask::Read { offset, size } => offset + size <= u32::MAX && self.scratch.len()
                < size,
            _ => true,
        }
    }

    /// An answer within the bounds of the question.
    pub open spec fn fits(self, reply: TitleReply) -> bool {
        match (self.task, reply) {
            (TitleTask::Name, TitleReply::Untitled(Some(n))) => n.0 < usize::MAX,
            (TitleTask::Eocd, TitleReply::Directory(Ok(at))) => at.0 + at.1 <= u32::MAX,
            (TitleTask::Read { offset, size }, TitleReply::Bytes(Ok(d))) => self.scratch.len()
                + d@.len() <= size,
            _ => true,
        }
    }

    pub open spec fn pose(self, task: TitleTask, ask: TitleAsk) -> (TitleView, TitleAsk) {
        (TitleView { task, ..self }, ask)
    }

    pub open spec fn done(self, resolved: bool) -> (TitleView, TitleAsk) {
        self.pose(
            TitleTask::Rest,
            TitleAsk::Done(
                Some(TitleScanResult { next_idx: (self.idx + 1) as usize, resolved }),
            ),
        )
    }

    /// The book is passed over.
    pub open spec fn failed(self, e: &'static str) -> (TitleView, TitleAsk) {
        TitleView { error: Some(e), ..self }.done(false)
    }

    pub open spec fn begun(self, from: usize) -> (TitleView, TitleAsk) {
        TitleView { error: None, ..self }.pose(
            TitleTask::Name,
            TitleAsk::NextUntitled { from },
        )
    }

    pub open spec fn named(self, reply: TitleReply) -> (TitleView, TitleAsk) {
        match reply {
            TitleReply::Untitled(Some(n)) => TitleView {
                idx: n.0,
                name: as_text(n.1@),
                ..self
            }.pose(TitleTask::Size, TitleAsk::FileSize),
            TitleReply::Untitled(None) => self.pose(TitleTask::Rest, TitleAsk::Done(None)),
            _ => (self, TitleAsk::Done(None)),
        }
    }

    pub open spec fn sized(self, reply: TitleReply) -> (TitleView, TitleAsk) {
        match reply {
            TitleReply::Size(Ok(size)) => if size < 22 {
                self.failed("too small")
            } else {
                let len = if size < 512 {
                    size
                } else {
                    512
                };
                self.pose(
                    TitleTask::Tail,
                    TitleAsk::ReadFile { offset: (size - len) as u32, len: len as usize },
                )
            },
            TitleReply::Size(Err(e)) => self.failed(e),
            _ => (self, TitleAsk::Done(None)),
        }
    }

    pub open spec fn tail_read(self, reply: TitleReply) -> (TitleView, TitleAsk) {
        match reply {
            TitleReply::Bytes(Ok(d)) => TitleView { scratch: d@, ..self }.pose(
                TitleTask::Eocd,
                TitleAsk::ParseTail,
            ),
            TitleReply::Bytes(Err(e)) => self.failed(e),
            _ => (self, TitleAsk::Done(None)),
        }
    }

    pub open spec fn placed(self, reply: TitleReply) -> (TitleView, TitleAsk) {
        match reply {
            TitleReply::Directory(Ok(at)) => self.pose(
                TitleTask::Room { offset: at.0, size: at.1 },
                TitleAsk::Room { len: at.1 as usize },
            ),
            TitleReply::Directory(Err(e)) => self.failed(e),
            _ => (self, TitleAsk::Done(None)),
        }
    }

    /// The directory of the archive is gathered in the scratch bytes.
    pub open spec fn gathered(self, offset: u32, size: u32) -> (TitleView, TitleAsk) {
        if self.scratch.len() < size {
            self.pose(
                TitleTask::Read { offset, size },
                TitleAsk::ReadFile {
                    offset: (offset + self.scratch.len()) as u32,
                    len: (size - self.scratch.len()) as usize,
                },
            )
        } else {
            self.pose(TitleTask::Parse, TitleAsk::ParseDirectory)
        }
    }

    pub open spec fn roomed(self, offset: u32, size: u32, reply: TitleReply) -> (
        TitleView,
        TitleAsk,
    ) {
        match reply {
            TitleReply::Flag(ok) => if ok {
                TitleView { scratch: Seq::empty(), ..self }.gathered(offset, size)
            } else {
                self.failed("CD too large")
            },
            _ => (self, TitleAsk::Done(None)),
        }
    }

    pub open spec fn read(self, offset: u32, size: u32, reply: TitleReply) -> (
        TitleView,
        TitleAsk,
    ) {
        match reply {
            TitleReply::Bytes(Ok(d)) => if d@.len() == 0 {
                self.failed("CD truncated")
            } else {
                TitleView { scratch: self.scratch + d@, ..self }.gathered(offset, size)
            },
            TitleReply::Bytes(Err(e)) => self.failed(e),
            _ => (self, TitleAsk::Done(None)),
        }
    }

    pub open spec fn parsed(self, reply: TitleReply) -> (TitleView, TitleAsk) {
        match reply {
            TitleReply::Outcome(Ok(_)) => self.pose(
                TitleTask::Container,
                TitleAsk::FindContainer,
            ),
            TitleReply::Outcome(Err(e)) => self.failed(e),
            _ => (self, TitleAsk::Done(None)),
        }
    }

    pub open spec fn container_found(self, reply: TitleReply) -> (TitleView, TitleAsk) {
        match reply {
            TitleReply::Entry(Some(idx)) => self.pose(
                TitleTask::Path,
                TitleAsk::ContainerPath { idx },
            ),
            TitleReply::Entry(None) => self.pose(TitleTask::Path, TitleAsk::ScanForOpf),
            _ => (self, TitleAsk::Done(None)),
        }
    }

    pub open spec fn path_read(self, reply: TitleReply) -> (TitleView, TitleAsk) {
        match reply {
            TitleReply::Bytes(Ok(path)) => if utf8::valid_utf8(path@) {
                TitleView { scratch: path@, ..self }.pose(
                    TitleTask::Find { icase: false },
                    TitleAsk::FindEntry { icase: false },
                )
            } else {
                self.failed("bad OPF path")
            },
            TitleReply::Bytes(Err(e)) => self.failed(e),
            _ => (self, TitleAsk::Done(None)),
        }
    }

    pub open spec fn entry_found(self, icase: bool, reply: TitleReply) -> (TitleView, TitleAsk) {
        match reply {
            TitleReply::Entry(Some(idx)) => self.pose(TitleTask::Opf, TitleAsk::ReadTitle { idx }),
            TitleReply::Entry(None) => if icase {
                self.failed("OPF not found")
            } else {
                self.pose(
                    TitleTask::Find { icase: true },
                    TitleAsk::FindEntry { icase: true },
                )
            },
            _ => (self, TitleAsk::Done(None)),
        }
    }

    pub open spec fn title_read(self, reply: TitleReply) -> (TitleView, TitleAsk) {
        match reply {
            TitleReply::Bytes(Ok(title)) => if title@.len() == 0 {
                self.failed("no title in OPF")
            } else {
                TitleView { scratch: title@, ..self }.pose(
                    TitleTask::Save,
                    TitleAsk::SaveTitle { idx: self.idx },
                )
            },
            TitleReply::Bytes(Err(e)) => self.failed(e),
            _ => (self, TitleAsk::Done(None)),
        }
    }

    pub open spec fn saved(self, reply: TitleReply) -> (TitleView, TitleAsk) {
        match reply {
            TitleReply::Outcome(_) => self.done(true),
            _ => (self, TitleAsk::Done(None)),
        }
    }

    /// What an answer makes of the look-up, and what is asked next.
    pub open spec fn resumed(self, reply: TitleReply) -> (TitleView, TitleAsk) {
        match self.task {
            TitleTask::Rest => (self, TitleAsk::Done(None)),
            TitleTask::Name => self.named(reply),
            TitleTask::Size => self.sized(reply),
            TitleTask::Tail => self.tail_read(reply),
            TitleTask::Eocd => self.placed(reply),
            TitleTask::Room { offset, size } => self.roomed(offset, size, reply),
            TitleTask::Read { offset, size } => self.read(offset, size, reply),
            TitleTask::Parse => self.parsed(reply),
            TitleTask::Container => self.container_found(reply),
            TitleTask::Path => self.path_read(reply),
            TitleTask::Find { icase } => self.entry_found(icase, reply),
            TitleTask::Opf => self.title_read(reply),
            TitleTask::Save => self.saved(reply),
        }
    }

    /// A look-up that ends leads on to the book after, and counts as resolved
    /// exactly where a title was handed over to be kept.
    pub proof fn law_look_up_moves_on(self, reply: TitleReply)
        requires
            self.wf(),
            self.fits(reply),
        ensures
            self.resumed(reply).1 matches TitleAsk::Done(Some(t)) ==> t.next_idx == self.idx + 1,
            self.resumed(reply).1 matches TitleAsk::Done(Some(t)) ==> t.resolved == (self.task
                == TitleTask::Save),
    {
    }

    /// From its name on, a book that is looked up stays the one it is.
    pub proof fn law_the_book_is_kept(self, reply: TitleReply)
        requires
            self.task != TitleTask::Name,
        ensures
            self.resumed(reply).0.idx == self.idx,
            self.resumed(reply).0.name == self.name,
    {
    }

    /// The title that is kept is the one that was read, whole, and kept for the
    /// book it was read of.
    pub proof fn law_the_title_read_is_kept(self, reply: TitleReply)
        ensures
            self.resumed(reply).1 matches TitleAsk::SaveTitle { idx } ==> {
                &&& idx == self.idx
                &&& self.task == TitleTask::Opf
                &&& reply matches TitleReply::Bytes(Ok(title)) && title@.len() > 0
                    && self.resumed(reply).0.scratch == title@
            },
            self.task == TitleTask::Opf ==> (reply matches TitleReply::Bytes(Ok(title))
                ==> title@.len() > 0 ==> self.resumed(reply).1 == TitleAsk::SaveTitle {
                idx: self.idx,
            }),
    {
    }

    /// The end of the archive is read: its last bytes, up to the very last.
    pub proof fn law_the_end_is_read(self, size: u32)
        requires
            self.task == TitleTask::Size,
            size >= 22,
        ensures
            self.resumed(TitleReply::Size(Ok(size))).1 matches TitleAsk::ReadFile { offset, len }
                && offset + len == size && len >= 22 && (len == size || len == 512),
    {
    }

    /// What is gathered of the archive's directory is what stands in the file
    /// from its start on.
    pub open spec fn gathers(self, file: Seq<u8>) -> bool {
        match self.task {
            TitleTask::Read { offset, size } => {
                &&& offset + size <= file.len()
                &&& self.scratch == file.subrange(offset as int, offset + self.scratch.len())
            },
            _ => true,
        }
    }

    /// An answer with what stands in the file where it was asked for, or with
    /// room to read it.
    pub open spec fn answered_from(self, file: Seq<u8>, reply: TitleReply) -> bool {
        match (self.task, reply) {
            (TitleTask::Room { .. }, TitleReply::Flag(ok)) => ok,
            (TitleTask::Read { offset, .. }, TitleReply::Bytes(Ok(d))) => {
                let at = offset + self.scratch.len();
                d@.len() > 0 && d@ == file.subrange(at, at + d@.len())
            },
            _ => false,
        }
    }

    /// The archive's directory is read piece by piece, without a gap, and parsed
    /// when it is there as it stands in the file.
    pub proof fn law_the_directory_is_gathered(
        self,
        offset: u32,
        size: u32,
        file: Seq<u8>,
        reply: TitleReply,
    )
        requires
            self.wf(),
            self.fits(reply),
            self.gathers(file),
            offset + size <= file.len(),
            self.answered_from(file, reply),
            self.task == (TitleTask::Read { offset, size }) || self.task == (TitleTask::Room {
                offset,
                size,
            }),
        ensures
            ({
                let (next, ask) = self.resumed(reply);
                let have = next.scratch.len();
                &&& next.gathers(file)
                &&& have == size ==> ask == TitleAsk::ParseDirectory
                &&& have == size ==> next.scratch == file.subrange(offset as int, offset + size)
                &&& have != size ==> ask == (TitleAsk::ReadFile {
                    offset: (offset + have) as u32,
                    len: (size - have) as usize,
                })
                &&& have != size ==> next.task == (TitleTask::Read { offset, size })
                &&& self.task is Read ==> have > self.scratch.len()
            }),
    {
        let (next, ask) = self.resumed(reply);
        assert(next.scratch =~= file.subrange(offset as int, offset + next.scratch.len()));
    }

    /// A path is looked for as it is first, then without regard to case, and
    /// given up only after both.
    pub proof fn law_paths_are_looked_for_twice(self, icase: bool)
        requires
            self.task == (TitleTask::Find { icase }),
        ensures
            !icase ==> self.resumed(TitleReply::Entry(None)).1 == (TitleAsk::FindEntry {
                icase: true,
            }),
            icase ==> self.resumed(TitleReply::Entry(None)).1 is Done,
            self.resumed(TitleReply::Entry(None)).0.scratch == self.scratch,
            forall|idx: usize|
                (#[trigger] self.resumed(TitleReply::Entry(Some(idx)))).1 == (TitleAsk::ReadTitle {
                    idx,
                }),
    {
    }

    /// A step that fails passes the book over, for the reason it failed.
    pub proof fn law_failures_pass_a_book_over(self, e: &'static str)
        ensures
            forall|reply: TitleReply|
                self.waits_for(reply) && (reply == TitleReply::Size(Err(e)) || reply
                    == TitleReply::Bytes(Err(e)) || reply == TitleReply::Directory(Err(e)) || (
                reply == TitleReply::Outcome(Err(e)) && self.task != TitleTask::Save)) ==> {
                    &&& (#[trigger] self.resumed(reply)).1 == TitleAsk::Done(
                        Some(TitleScanResult { next_idx: (self.idx + 1) as usize, resolved: false }),
                    )
                    &&& self.resumed(reply).0.error == Some(e)
                },
    {
    }

    /// An answer to the question that was asked.
    pub open spec fn waits_for(self, reply: TitleReply) -> bool {
        match self.task {
            TitleTask::Rest => false,
            TitleTask::Name => reply is Untitled,
            TitleTask::Size => reply is Size,
            TitleTask::Tail | TitleTask::Read { .. } | TitleTask::Path
            | TitleTask::Opf => reply is Bytes,
            TitleTask::Eocd => reply is Directory,
            TitleTask::Room { .. } => reply is Flag,
            TitleTask::Parse | TitleTask::Save => reply is Outcome,
            TitleTask::Container | TitleTask::Find { .. } => reply is Entry,
        }
    }
}

impl TitleScan {
    pub fn new() -> (r: TitleScan)
        ensures
            r@.wf(),
            r@ == (TitleView {
                task: TitleTask::Rest,
                idx: 0,
                name: Seq::empty(),
                scratch: Seq::empty(),
                error: None,
            }),
    {
        let r = TitleScan {
            task: TitleTask::Rest,
            idx: 0,
            name: Vec::new(),
            scratch: Vec::new(),
            error: None,
        };
        assert(r@.name =~= Seq::empty());
        assert(r@.scratch =~= Seq::empty());
        r
    }

    fn pose(&mut self, task: TitleTask, ask: TitleAsk) -> (r: TitleAsk)
        requires
            (TitleView { task, ..old(self)@ }).wf(),
        ensures
            final(self)@.wf(),
            (final(self)@, r) == old(self)@.pose(task, ask),
    {
        self.task = task;
        ask
    }

    fn finish(&mut self, resolved: bool) -> (r: TitleAsk)
        requires
            old(self)@.wf(),
        ensures
            final(self)@.wf(),
            (final(self)@, r) == old(self)@.done(resolved),
    {
        let next_idx = self.idx + 1;
        self.pose(TitleTask::Rest, TitleAsk::Done(Some(TitleScanResult { next_idx, resolved })))
    }

    fn fail(&mut self, e: &'static str) -> (r: TitleAsk)
        requires
            old(self)@.wf(),
        ensures
            final(self)@.wf(),
            (final(self)@, r) == old(self)@.failed(e),
    {
        self.error = Some(e);
        self.finish(false)
    }

    /// Starts looking up the title of the first book from `from` on that has
    /// none.
    pub fn scan_one_epub_title(&mut self, from: usize) -> (r: TitleAsk)
        requires
            old(self)@.wf(),
        ensures
            final(self)@.wf(),
            (final(self)@, r) == old(self)@.begun(from),
    {
        self.error = None;
        self.pose(TitleTask::Name, TitleAsk::NextUntitled { from })
    }

    fn gather(&mut self, offset: u32, size: u32) -> (r: TitleAsk)
        requires
            old(self)@.idx < usize::MAX,
            offset + size <= u32::MAX,
        ensures
            final(self)@.wf(),
            (final(self)@, r) == old(self)@.gathered(offset, size),
    {
        let have = self.scratch.len();
        if have < size as usize {
            self.pose(
                TitleTask::Read { offset, size },
                TitleAsk::ReadFile { offset: offset + have as u32, len: size as usize - have },
            )
        } else {
            self.pose(TitleTask::Parse, TitleAsk::ParseDirectory)
        }
    }

    fn on_name(&mut self, reply: TitleReply) -> (r: TitleAsk)
        requires
            old(self)@.wf(),
            old(self)@.task == TitleTask::Name,
            old(self)@.fits(reply),
        ensures
            final(self)@.wf(),
            (final(self)@, r) == old(self)@.named(reply),
    {
        match reply {
            TitleReply::Untitled(Some((idx, bytes))) => {
                let mut name: Vec<u8> = Vec::new();
                if utf8_text(bytes.as_slice()).is_some() {
                    push_bytes(&mut name, bytes.as_slice());
                }
                assert(name@ =~= as_text(bytes@));
                self.idx = idx;
                self.name = name;
                self.pose(TitleTask::Size, TitleAsk::FileSize)
            },
            TitleReply::Untitled(None) => self.pose(TitleTask::Rest, TitleAsk::Done(None)),
            _ => TitleAsk::Done(None),
        }
    }

    fn on_size(&mut self, reply: TitleReply) -> (r: TitleAsk)
        requires
            old(self)@.wf(),
            old(self)@.task == TitleTask::Size,
        ensures
            final(self)@.wf(),
            (final(self)@, r) == old(self)@.sized(reply),
    {
        match reply {
            TitleReply::Size(Ok(size)) => {
                if size < 22 {
                    self.fail("too small")
                } else {
                    let len = if size < 512 {
                        size
                    } else {
                        512
                    };
                    self.pose(
                        TitleTask::Tail,
                        TitleAsk::ReadFile { offset: size - len, len: len as usize },
                    )
                }
            },
            TitleReply::Size(Err(e)) => self.fail(e),
            _ => TitleAsk::Done(None),
        }
    }

    fn on_tail(&mut self, reply: TitleReply) -> (r: TitleAsk)
        requires
            old(self)@.wf(),
            old(self)@.task == TitleTask::Tail || old(self)@.task == TitleTask::Eocd,
            old(self)@.fits(reply),
        ensures
            final(self)@.wf(),
            (final(self)@, r) == old(self)@.resumed(reply),
    {
        if self.task == TitleTask::Tail {
            match reply {
                TitleReply::Bytes(Ok(d)) => {
                    self.scratch = d;
                    self.pose(TitleTask::Eocd, TitleAsk::ParseTail)
                },
                TitleReply::Bytes(Err(e)) => self.fail(e),
                _ => TitleAsk::Done(None),
            }
        } else {
            match reply {
                TitleReply::Directory(Ok(at)) => self.pose(
                    TitleTask::Room { offset: at.0, size: at.1 },
                    TitleAsk::Room { len: at.1 as usize },
                ),
                TitleReply::Directory(Err(e)) => self.fail(e),
                _ => TitleAsk::Done(None),
            }
        }
    }

    fn on_room(&mut self, offset: u32, size: u32, reply: TitleReply) -> (r: TitleAsk)
        requires
            old(self)@.wf(),
            offset + size <= u32::MAX,
        ensures
            final(self)@.wf(),
            (final(self)@, r) == old(self)@.roomed(offset, size, reply),
    {
        match reply {
            TitleReply::Flag(ok) => {
                if ok {
                    self.scratch = Vec::new();
                    assert(self.scratch@ =~= Seq::empty());
                    self.gather(offset, size)
                } else {
                    self.fail("CD too large")
                }
            },
            _ => TitleAsk::Done(None),
        }
    }

    fn on_read(&mut self, offset: u32, size: u32, reply: TitleReply) -> (r: TitleAsk)
        requires
            old(self)@.wf(),
            offset + size <= u32::MAX,
        ensures
            final(self)@.wf(),
            (final(self)@, r) == old(self)@.read(offset, size, reply),
    {
        match reply {
            TitleReply::Bytes(Ok(d)) => {
                if d.len() == 0 {
                    self.fail("CD truncated")
                } else {
                    push_bytes(&mut self.scratch, d.as_slice());
                    self.gather(offset, size)
                }
            },
            TitleReply::Bytes(Err(e)) => self.fail(e),
            _ => TitleAsk::Done(None),
        }
    }

    fn on_package(&mut self, reply: TitleReply) -> (r: TitleAsk)
        requires
            old(self)@.wf(),
            old(self)@.task == TitleTask::Parse || old(self)@.task == TitleTask::Container
                || old(self)@.task == TitleTask::Path,
        ensures
            final(self)@.wf(),
            (final(self)@, r) == old(self)@.resumed(reply),
    {
        match self.task {
            TitleTask::Parse => match reply {
                TitleReply::Outcome(Ok(_)) => self.pose(
                    TitleTask::Container,
                    TitleAsk::FindContainer,
                ),
                TitleReply::Outcome(Err(e)) => self.fail(e),
                _ => TitleAsk::Done(None),
            },
            TitleTask::Container => match reply {
                TitleReply::Entry(Some(idx)) => self.pose(
                    TitleTask::Path,
                    TitleAsk::ContainerPath { idx },
                ),
                TitleReply::Entry(None) => self.pose(TitleTask::Path, TitleAsk::ScanForOpf),
                _ => TitleAsk::Done(None),
            },
            _ => match reply {
                TitleReply::Bytes(Ok(path)) => {
                    if utf8_text(path.as_slice()).is_some() {
                        self.scratch = path;
                        self.pose(
                            TitleTask::Find { icase: false },
                            TitleAsk::FindEntry { icase: false },
                        )
                    } else {
                        self.fail("bad OPF path")
                    }
                },
                TitleReply::Bytes(Err(e)) => self.fail(e),
                _ => TitleAsk::Done(None),
            },
        }
    }

    fn on_title(&mut self, reply: TitleReply) -> (r: TitleAsk)
        requires
            old(self)@.wf(),
            old(self)@.task is Find || old(self)@.task == TitleTask::Opf || old(self)@.task
                == TitleTask::Save,
        ensures
            final(self)@.wf(),
            (final(self)@, r) == old(self)@.resumed(reply),
    {
        match self.task {
            TitleTask::Find { icase } => match reply {
                TitleReply::Entry(Some(idx)) => self.pose(
                    TitleTask::Opf,
                    TitleAsk::ReadTitle { idx },
                ),
                TitleReply::Entry(None) => {
                    if icase {
                        self.fail("OPF not found")
                    } else {
                        self.pose(
                            TitleTask::Find { icase: true },
                            TitleAsk::FindEntry { icase: true },
                        )
                    }
                },
                _ => TitleAsk::Done(None),
            },
            TitleTask::Opf => match reply {
                TitleReply::Bytes(Ok(title)) => {
                    if title.len() == 0 {
                        self.fail("no title in OPF")
                    } else {
                        self.scratch = title;
                        let idx = self.idx;
                        self.pose(TitleTask::Save, TitleAsk::SaveTitle { idx })
                    }
                },
                TitleReply::Bytes(Err(e)) => self.fail(e),
                _ => TitleAsk::Done(None),
            },
            _ => match reply {
                TitleReply::Outcome(_) => self.finish(true),
                _ => TitleAsk::Done(None),
            },
        }
    }

    /// Goes on with the look-up, by the answer to its question.
    pub fn resume(&mut self, reply: TitleReply) -> (r: TitleAsk)
        requires
            old(self)@.wf(),
            old(self)@.fits(reply),
        ensures
            final(self)@.wf(),
            (final(self)@, r) == old(self)@.resumed(reply),
    {
        match self.task {
            TitleTask::Rest => TitleAsk::Done(None),
            TitleTask::Name => self.on_name(reply),
            TitleTask::Size => self.on_size(reply),
            TitleTask::Tail | TitleTask::Eocd => self.on_tail(reply),
            TitleTask::Room { offset, size } => self.on_room(offset, size, reply),
            TitleTask::Read { offset, size } => self.on_read(offset, size, reply),
            TitleTask::Parse | TitleTask::Container | TitleTask::Path => self.on_package(reply),
            TitleTask::Find { icase: _ } | TitleTask::Opf | TitleTask::Save => self.on_title(
                reply,
            ),
        }
    }

    /// The directory of the package document, whose path is in the scratch
    /// bytes.
    pub fn opf_dir(&self) -> (r: &[u8])
        ensures
            r@ == dir_part(self@.scratch, self@.scratch.len() as int),
    {
        dir_of(self.scratch.as_slice())
    }
}

} // verus!
