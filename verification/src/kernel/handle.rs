//! The storage requests that apps make through the kernel, and what becomes of
//! the driver's answers.

use vstd::prelude::*;

use crate::bytes::text_bytes;
use crate::kernel::bookmarks::BookmarkCache;

verus! {

#[derive(Debug, Clone, Copy, PartialEq, Eq, Structural)]
pub enum StorageError {
    OpenVolume,
    OpenDir,
    OpenFile,
    ReadFailed,
    WriteFailed,
    SeekFailed,
    DeleteFailed,
    DirFull,
    NotFound,
}

impl StorageError {
    pub open spec fn spec_text(self) -> &'static str {
        match self {
            StorageError::OpenVolume => "open volume failed",
            StorageError::OpenDir => "open dir failed",
            StorageError::OpenFile => "open file failed",
            StorageError::ReadFailed => "read failed",
            StorageError::WriteFailed => "write failed",
            StorageError::SeekFailed => "seek failed",
            StorageError::DeleteFailed => "delete failed",
            StorageError::DirFull => "directory full",
            StorageError::NotFound => "not found",
        }
    }

    /// The error in words.
    pub fn text(&self) -> (r: &'static str)
        ensures
            r@ == self.spec_text()@,
    {
        match self {
            StorageError::OpenVolume => "open volume failed",
            StorageError::OpenDir => "open dir failed",
            StorageError::OpenFile => "open file failed",
            StorageError::ReadFailed => "read failed",
            StorageError::WriteFailed => "write failed",
            StorageError::SeekFailed => "seek failed",
            StorageError::DeleteFailed => "delete failed",
            StorageError::DirFull => "directory full",
            StorageError::NotFound => "not found",
        }
    }
}

/// `w` stands in `s` at `i`.
pub open spec fn stands_at(s: Seq<u8>, w: Seq<u8>, i: int) -> bool {
    0 <= i && i + w.len() <= s.len() && s.subrange(i, i + w.len()) == w
}

/// `w` stands somewhere in `s`.
pub open spec fn holds(s: Seq<u8>, w: Seq<u8>) -> bool {
    exists|i: int| #[trigger] stands_at(s, w, i)
}

fn word_at(s: &[u8], w: &[u8], at: usize) -> (r: bool)
    requires
        at + w@.len() <= s@.len(),
    ensures
        r == stands_at(s@, w@, at as int),
{
    let n: usize = s.len();
    let mut j: usize = 0;
    while j < w.len()
        invariant
            at + w@.len() <= s@.len() == n,
            j <= w@.len(),
            forall|k: int| 0 <= k < j ==> s@[at + k] == w@[k],
        decreases w@.len() - j,
    {
        if s[at + j] != w[j] {
            proof {
                let part = s@.subrange(at as int, at + w@.len());
                assert(part[j as int] != w@[j as int]);
            }
            return false;
        }
        j += 1;
    }
    assert(s@.subrange(at as int, at + w@.len()) =~= w@);
    true
}

/// Whether `word` stands somewhere in `text`.
pub fn contains_word(text: &str, word: &str) -> (r: bool)
    ensures
        r == holds(text_bytes(text), text_bytes(word)),
{
    let s = text.as_bytes();
    let w = word.as_bytes();
    let n = s.len();
    let m = w.len();
    if m > n {
        assert forall|i: int| !(#[trigger] stands_at(s@, w@, i)) by {}
        return false;
    }
    let last = n - m;
    let mut i: usize = 0;
    while i < last
        invariant
            i <= last,
            s@ == text_bytes(text),
            w@ == text_bytes(word),
            n == s@.len(),
            m == w@.len(),
            last == n - m,
            forall|k: int| k < i ==> !#[trigger] stands_at(s@, w@, k),
        decreases last - i,
    {
        if word_at(s, w, i) {
            return true;
        }
        i += 1;
    }
    let r = word_at(s, w, last);
    proof {
        if !r {
            assert forall|k: int| !(#[trigger] stands_at(s@, w@, k)) by {
                if k == last {
                }
            }
        }
    }
    r
}

/// The error of a failed read, by the words of the driver's message.
pub open spec fn read_err(e: Seq<u8>) -> StorageError {
    if holds(e, text_bytes("volume")) {
        StorageError::OpenVolume
    } else if holds(e, text_bytes("dir")) {
        StorageError::OpenDir
    } else if holds(e, text_bytes("open file")) {
        StorageError::OpenFile
    } else if holds(e, text_bytes("seek")) {
        StorageError::SeekFailed
    } else {
        StorageError::ReadFailed
    }
}

/// The error of a failed write, by the words of the driver's message.
pub open spec fn write_err(e: Seq<u8>) -> StorageError {
    if holds(e, text_bytes("volume")) {
        StorageError::OpenVolume
    } else if holds(e, text_bytes("dir")) && !holds(e, text_bytes("make")) {
        StorageError::OpenDir
    } else if holds(e, text_bytes("make dir")) {
        StorageError::WriteFailed
    } else if holds(e, text_bytes("open file")) || holds(e, text_bytes("create")) {
        StorageError::OpenFile
    } else {
        StorageError::WriteFailed
    }
}

pub fn map_read_err(e: &str) -> (r: StorageError)
    ensures
        r == read_err(text_bytes(e)),
{
    if contains_word(e, "volume") {
        StorageError::OpenVolume
    } else if contains_word(e, "dir") {
        StorageError::OpenDir
    } else if contains_word(e, "open file") {
        StorageError::OpenFile
    } else if contains_word(e, "seek") {
        StorageError::SeekFailed
    } else {
        StorageError::ReadFailed
    }
}

pub fn map_write_err(e: &str) -> (r: StorageError)
    ensures
        r == write_err(text_bytes(e)),
{
    if contains_word(e, "volume") {
        StorageError::OpenVolume
    } else if contains_word(e, "dir") && !contains_word(e, "make") {
        StorageError::OpenDir
    } else if contains_word(e, "make dir") {
        StorageError::WriteFailed
    } else if contains_word(e, "open file") || contains_word(e, "create") {
        StorageError::OpenFile
    } else {
        StorageError::WriteFailed
    }
}

/// Where a file lies.
pub enum Place {
    /// The root of the card.
    Root,
    /// The directory of the apps' data.
    AppData,
    /// A directory inside that of the apps' data.
    AppSubdir(Vec<u8>),
    /// Any other directory in the root.
    Dir(Vec<u8>),
}

/// Where a file lies, as a value.
pub enum PlaceView {
    Root,
    AppData,
    AppSubdir(Seq<u8>),
    Dir(Seq<u8>),
}

impl View for Place {
    type V = PlaceView;

    open spec fn view(&self) -> PlaceView {
        match *self {
            Place::Root => PlaceView::Root,
            Place::AppData => PlaceView::AppData,
            Place::AppSubdir(d) => PlaceView::AppSubdir(d@),
            Place::Dir(d) => PlaceView::Dir(d@),
        }
    }
}

/// What is to be done with a file.
pub enum StorageOp {
    FileSize,
    /// Up to `len` bytes from `offset` on.
    ReadChunk { offset: u32, len: usize },
    /// The size of the file and up to `len` bytes from its start.
    ReadStart { len: usize },
    Write(Vec<u8>),
    Append(Vec<u8>),
    Delete,
    EnsureDir,
    SaveTitle(Vec<u8>),
}

/// What is to be done with a file, as a value.
pub enum OpView {
    FileSize,
    ReadChunk { offset: u32, len: usize },
    ReadStart { len: usize },
    Write(Seq<u8>),
    Append(Seq<u8>),
    Delete,
    EnsureDir,
    SaveTitle(Seq<u8>),
}

impl View for StorageOp {
    type V = OpView;

    open spec fn view(&self) -> OpView {
        match *self {
            StorageOp::FileSize => OpView::FileSize,
            StorageOp::ReadChunk { offset, len } => OpView::ReadChunk { offset, len },
            StorageOp::ReadStart { len } => OpView::ReadStart { len },
            StorageOp::Write(d) => OpView::Write(d@),
            StorageOp::Append(d) => OpView::Append(d@),
            StorageOp::Delete => OpView::Delete,
            StorageOp::EnsureDir => OpView::EnsureDir,
            StorageOp::SaveTitle(t) => OpView::SaveTitle(t@),
        }
    }
}

/// A request to the storage driver.
pub struct StorageCall {
    pub place: Place,
    pub name: Vec<u8>,
    pub op: StorageOp,
}

/// A request to the storage driver, as a value.
pub struct CallView {
    pub place: PlaceView,
    pub name: Seq<u8>,
    pub op: OpView,
}

impl View for StorageCall {
    type V = CallView;

    open spec fn view(&self) -> CallView {
        CallView { place: self.place@, name: self.name@, op: self.op@ }
    }
}

fn owned(s: &[u8]) -> (r: Vec<u8>)
    ensures
        r@ == s@,
{
    let mut v: Vec<u8> = Vec::new();
    v.extend_from_slice(s);
    assert(v@ =~= s@);
    v
}

impl CallView {
    /// The error that stands for the driver's message.
    pub open spec fn error_of(self, e: Seq<u8>) -> StorageError {
        match self.op {
            OpView::FileSize => read_err(e),
            OpView::ReadChunk { .. } => read_err(e),
            OpView::ReadStart { .. } => read_err(e),
            OpView::Write(_) => write_err(e),
            OpView::Append(_) => write_err(e),
            OpView::EnsureDir => write_err(e),
            OpView::SaveTitle(_) => write_err(e),
            OpView::Delete => StorageError::DeleteFailed,
        }
    }
}

impl StorageCall {
    /// The error that the app gets to see when the driver fails with `e`. The
    /// `sync_` calls hand on the driver's message instead.
    pub fn error(&self, e: &str) -> (r: StorageError)
        ensures
            r == self@.error_of(text_bytes(e)),
    {
        match &self.op {
            StorageOp::FileSize => map_read_err(e),
            StorageOp::ReadChunk { offset: _, len: _ } => map_read_err(e),
            StorageOp::ReadStart { len: _ } => map_read_err(e),
            StorageOp::Write(_) => map_write_err(e),
            StorageOp::Append(_) => map_write_err(e),
            StorageOp::EnsureDir => map_write_err(e),
            StorageOp::SaveTitle(_) => map_write_err(e),
            StorageOp::Delete => StorageError::DeleteFailed,
        }
    }
}

/// The state of the kernel that apps can reach.
pub struct Kernel {
    pub bm_cache: BookmarkCache,
    pub sd_ok: bool,
    pub cached_battery_mv: u16,
}

/// An app's access to the kernel.
pub struct KernelHandle<'k> {
    pub kernel: &'k mut Kernel,
}

impl<'k> KernelHandle<'k> {
    pub fn new(kernel: &'k mut Kernel) -> (r: KernelHandle<'k>)
        ensures
            *r.kernel == *old(kernel),
            *final(r.kernel) == *final(kernel),
    {
        KernelHandle { kernel }
    }

    /// Takes the result of probing the card.
    pub fn check_sd(&mut self, probe_ok: bool) -> (r: bool)
        ensures
            r == probe_ok,
            *final(self).kernel == (Kernel { sd_ok: probe_ok, ..*old(self).kernel }),
            *final(final(self).kernel) == *final(old(self).kernel),
    {
        self.kernel.sd_ok = probe_ok;
        probe_ok
    }

    pub fn battery_mv(&self) -> (r: u16)
        ensures
            r == old(self.kernel).cached_battery_mv,
    {
        self.kernel.cached_battery_mv
    }

    pub fn sd_ok(&self) -> (r: bool)
        ensures
            r == old(self.kernel).sd_ok,
    {
        self.kernel.sd_ok
    }

    pub fn bookmark_cache(&self) -> (r: &BookmarkCache)
        ensures
            *r == old(self.kernel).bm_cache,
    {
        &self.kernel.bm_cache
    }

    pub fn bookmark_cache_mut(&mut self) -> (r: &mut BookmarkCache)
        ensures
            *r == old(self).kernel.bm_cache,
            *final(self).kernel == (Kernel { bm_cache: *final(r), ..*old(self).kernel }),
            *final(final(self).kernel) == *final(old(self).kernel),
    {
        &mut self.kernel.bm_cache
    }

    pub fn file_size(&self, name: &[u8]) -> (r: StorageCall)
        ensures
            r@ == (CallView { place: PlaceView::Root, name: name@, op: OpView::FileSize }),
    {
        self.sync_file_size(name)
    }

    pub fn read_file_chunk(&self, name: &[u8], offset: u32, len: usize) -> (r: StorageCall)
        ensures
            r@ == (CallView {
                place: PlaceView::Root,
                name: name@,
                op: OpView::ReadChunk { offset, len },
            }),
    {
        self.sync_read_chunk(name, offset, len)
    }

    pub fn read_file_start(&self, name: &[u8], len: usize) -> (r: StorageCall)
        ensures
            r@ == (CallView { place: PlaceView::Root, name: name@, op: OpView::ReadStart { len } }),
    {
        self.sync_read_file_start(name, len)
    }

    pub fn write_file(&self, name: &[u8], data: &[u8]) -> (r: StorageCall)
        ensures
            r@ == (CallView { place: PlaceView::Root, name: name@, op: OpView::Write(data@) }),
    {
        StorageCall { place: Place::Root, name: owned(name), op: StorageOp::Write(owned(data)) }
    }

    pub fn delete_file(&self, name: &[u8]) -> (r: StorageCall)
        ensures
            r@ == (CallView { place: PlaceView::Root, name: name@, op: OpView::Delete }),
    {
        StorageCall { place: Place::Root, name: owned(name), op: StorageOp::Delete }
    }

    /// Makes the directory of the apps' data, where it is missing.
    pub fn ensure_app_dir(&self) -> (r: StorageCall)
        ensures
            r@ == (CallView {
                place: PlaceView::AppData,
                name: Seq::empty(),
                op: OpView::EnsureDir,
            }),
    {
        StorageCall { place: Place::AppData, name: Vec::new(), op: StorageOp::EnsureDir }
    }

    pub fn read_app_data_start(&self, name: &[u8], len: usize) -> (r: StorageCall)
        ensures
            r@ == (CallView {
                place: PlaceView::AppData,
                name: name@,
                op: OpView::ReadStart { len },
            }),
    {
        self.sync_read_app_data_start(name, len)
    }

    pub fn read_app_data(&self, name: &[u8], offset: u32, len: usize) -> (r: StorageCall)
        ensures
            r@ == (CallView {
                place: PlaceView::AppData,
                name: name@,
                op: OpView::ReadChunk { offset, len },
            }),
    {
        StorageCall {
            place: Place::AppData,
            name: owned(name),
            op: StorageOp::ReadChunk { offset, len },
        }
    }

    pub fn write_app_data(&self, name: &[u8], data: &[u8]) -> (r: StorageCall)
        ensures
            r@ == (CallView { place: PlaceView::AppData, name: name@, op: OpView::Write(data@) }),
    {
        self.sync_write_app_data(name, data)
    }

    pub fn ensure_app_subdir(&self, dir: &[u8]) -> (r: StorageCall)
        ensures
            r@ == (CallView {
                place: PlaceView::AppSubdir(dir@),
                name: Seq::empty(),
                op: OpView::EnsureDir,
            }),
    {
        self.sync_ensure_app_subdir(dir)
    }

    pub fn read_app_subdir(
        &self,
        dir: &[u8],
        name: &[u8],
        offset: u32,
        len: usize,
    ) -> (r: StorageCall)
        ensures
            r@ == (CallView {
                place: PlaceView::AppSubdir(dir@),
                name: name@,
                op: OpView::ReadChunk { offset, len },
            }),
    {
        self.sync_read_app_subdir_chunk(dir, name, offset, len)
    }

    pub fn write_app_subdir(&self, dir: &[u8], name: &[u8], data: &[u8]) -> (r: StorageCall)
        ensures
            r@ == (CallView {
                place: PlaceView::AppSubdir(dir@),
                name: name@,
                op: OpView::Write(data@),
            }),
    {
        self.sync_write_app_subdir(dir, name, data)
    }

    pub fn append_app_subdir(&self, dir: &[u8], name: &[u8], data: &[u8]) -> (r: StorageCall)
        ensures
            r@ == (CallView {
                place: PlaceView::AppSubdir(dir@),
                name: name@,
                op: OpView::Append(data@),
            }),
    {
        self.sync_append_app_subdir(dir, name, data)
    }

    pub fn file_size_app_subdir(&self, dir: &[u8], name: &[u8]) -> (r: StorageCall)
        ensures
            r@ == (CallView {
                place: PlaceView::AppSubdir(dir@),
                name: name@,
                op: OpView::FileSize,
            }),
    {
        self.sync_file_size_app_subdir(dir, name)
    }

    pub fn delete_app_subdir(&self, dir: &[u8], name: &[u8]) -> (r: StorageCall)
        ensures
            r@ == (CallView { place: PlaceView::AppSubdir(dir@), name: name@, op: OpView::Delete }),
    {
        StorageCall {
            place: Place::AppSubdir(owned(dir)),
            name: owned(name),
            op: StorageOp::Delete,
        }
    }

    pub fn read_chunk_in_dir(
        &self,
        dir: &[u8],
        name: &[u8],
        offset: u32,
        len: usize,
    ) -> (r: StorageCall)
        ensures
            r@ == (CallView {
                place: PlaceView::Dir(dir@),
                name: name@,
                op: OpView::ReadChunk { offset, len },
            }),
    {
        StorageCall {
            place: Place::Dir(owned(dir)),
            name: owned(name),
            op: StorageOp::ReadChunk { offset, len },
        }
    }

    pub fn sync_file_size(&self, name: &[u8]) -> (r: StorageCall)
        ensures
            r@ == (CallView { place: PlaceView::Root, name: name@, op: OpView::FileSize }),
    {
        StorageCall { place: Place::Root, name: owned(name), op: StorageOp::FileSize }
    }

    pub fn sync_read_chunk(&self, name: &[u8], offset: u32, len: usize) -> (r: StorageCall)
        ensures
            r@ == (CallView {
                place: PlaceView::Root,
                name: name@,
                op: OpView::ReadChunk { offset, len },
            }),
    {
        StorageCall {
            place: Place::Root,
            name: owned(name),
            op: StorageOp::ReadChunk { offset, len },
        }
    }

    pub fn sync_read_file_start(&self, name: &[u8], len: usize) -> (r: StorageCall)
        ensures
            r@ == (CallView { place: PlaceView::Root, name: name@, op: OpView::ReadStart { len } }),
    {
        StorageCall { place: Place::Root, name: owned(name), op: StorageOp::ReadStart { len } }
    }

    pub fn sync_save_title(&self, filename: &[u8], title: &[u8]) -> (r: StorageCall)
        ensures
            r@ == (CallView {
                place: PlaceView::Root,
                name: filename@,
                op: OpView::SaveTitle(title@),
            }),
    {
        StorageCall {
            place: Place::Root,
            name: owned(filename),
            op: StorageOp::SaveTitle(owned(title)),
        }
    }

    pub fn sync_read_app_data_start(&self, name: &[u8], len: usize) -> (r: StorageCall)
        ensures
            r@ == (CallView {
                place: PlaceView::AppData,
                name: name@,
                op: OpView::ReadStart { len },
            }),
    {
        StorageCall { place: Place::AppData, name: owned(name), op: StorageOp::ReadStart { len } }
    }

    pub fn sync_write_app_data(&self, name: &[u8], data: &[u8]) -> (r: StorageCall)
        ensures
            r@ == (CallView {
                place: PlaceView::AppData,
                name: name@,
                op: OpView::Write(data@),
            }),
    {
        StorageCall { place: Place::AppData, name: owned(name), op: StorageOp::Write(owned(data)) }
    }

    pub fn sync_ensure_app_subdir(&self, dir: &[u8]) -> (r: StorageCall)
        ensures
            r@ == (CallView {
                place: PlaceView::AppSubdir(dir@),
                name: Seq::empty(),
                op: OpView::EnsureDir,
            }),
    {
        StorageCall {
            place: Place::AppSubdir(owned(dir)),
            name: Vec::new(),
            op: StorageOp::EnsureDir,
        }
    }

    pub fn sync_read_app_subdir_chunk(
        &self,
        dir: &[u8],
        name: &[u8],
        offset: u32,
        len: usize,
    ) -> (r: StorageCall)
        ensures
            r@ == (CallView {
                place: PlaceView::AppSubdir(dir@),
                name: name@,
                op: OpView::ReadChunk { offset, len },
            }),
    {
        StorageCall {
            place: Place::AppSubdir(owned(dir)),
            name: owned(name),
            op: StorageOp::ReadChunk { offset, len },
        }
    }

    pub fn sync_write_app_subdir(&self, dir: &[u8], name: &[u8], data: &[u8]) -> (r: StorageCall)
        ensures
            r@ == (CallView {
                place: PlaceView::AppSubdir(dir@),
                name: name@,
                op: OpView::Write(data@),
            }),
    {
        StorageCall {
            place: Place::AppSubdir(owned(dir)),
            name: owned(name),
            op: StorageOp::Write(owned(data)),
        }
    }

    pub fn sync_append_app_subdir(&self, dir: &[u8], name: &[u8], data: &[u8]) -> (r: StorageCall)
        ensures
            r@ == (CallView {
                place: PlaceView::AppSubdir(dir@),
                name: name@,
                op: OpView::Append(data@),
            }),
    {
        StorageCall {
            place: Place::AppSubdir(owned(dir)),
            name: owned(name),
            op: StorageOp::Append(owned(data)),
        }
    }

    pub fn sync_file_size_app_subdir(&self, dir: &[u8], name: &[u8]) -> (r: StorageCall)
        ensures
            r@ == (CallView {
                place: PlaceView::AppSubdir(dir@),
                name: name@,
                op: OpView::FileSize,
            }),
    {
        StorageCall {
            place: Place::AppSubdir(owned(dir)),
            name: owned(name),
            op: StorageOp::FileSize,
        }
    }
}

} // verus!
