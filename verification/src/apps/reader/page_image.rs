//! The image of the page on screen: out of the cache, or out of the book.

use vstd::prelude::*;
use vstd::utf8;

use crate::apps::reader::app::{ReaderApp, ReaderView};
use crate::apps::reader::images::{
    dims_of, image_dims, jpeg_magic, jpeg_name, names_jpeg, names_png, pad, padded, png_magic,
    png_name, row_bytes, starts_jpeg, starts_png, Image, ImageView,
};
use crate::apps::reader::pages::PagerView;
use crate::apps::reader::work::{
    first_origin, has_text, image_src, img_fits, AfterLoad, Ask, DecodeJob, ImgStep, Reply, Task, ZipEntry,
    SRC_CAP,
};
use crate::apps::reader::wrap::{LineSpan, IMAGE_DISPLAY_H};
use crate::bytes::{push_bytes, utf8_text};

verus! {

impl ReaderView {
    /// The page's image is looked for. A page with an image and no text shows
    /// the image on all of the screen.
    pub open spec fn image_begun(self, next: AfterLoad) -> (ReaderView, Ask) {
        let r = ReaderView { page_img: None, fullscreen_img: false, ..self };
        let full = ReaderView {
            fullscreen_img: first_origin(self.pager.lines, 0) is Some && !has_text(
                self.pager.lines,
            ),
            ..r
        };
        let src = image_src(self.pager);
        if !self.is_epub || self.spine.len() == 0 {
            r.go_on(Task::Loaded { next })
        } else if src.len() == 0 || !utf8::valid_utf8(src) {
            full.go_on(Task::Loaded { next })
        } else {
            ReaderView { scratch: src, ..full }.img(
                next,
                ImgStep::Resolve,
                Ask::ResolveImage { ch: self.chapter },
            )
        }
    }

    pub open spec fn img(self, next: AfterLoad, step: ImgStep, ask: Ask) -> (ReaderView, Ask) {
        self.pose(Task::Img { next, step }, ask)
    }

    pub open spec fn img_done(self, next: AfterLoad) -> (ReaderView, Ask) {
        self.go_on(Task::Loaded { next })
    }

    /// The image is not in the cache: it is looked for in the archive.
    pub open spec fn img_sought(self, next: AfterLoad, hash: u32) -> (ReaderView, Ask) {
        self.img(next, ImgStep::Find { hash, icase: false }, Ask::FindEntry { icase: false })
    }

    pub open spec fn img_job(self, entry: ZipEntry, data_offset: u32, is_jpeg: bool) -> DecodeJob {
        DecodeJob {
            is_jpeg,
            stored: entry.stored,
            data_offset,
            comp_size: entry.comp_size,
            uncomp_size: entry.uncomp_size,
            max_w: self.pager.text_w as u16,
            max_h: if self.fullscreen_img {
                self.screen.text_area()
            } else {
                IMAGE_DISPLAY_H
            },
        }
    }

    pub open spec fn img_decoding(self, next: AfterLoad, hash: u32, job: DecodeJob) -> (
        ReaderView,
        Ask,
    ) {
        self.img(next, ImgStep::Decode { hash, job }, Ask::Decode { job })
    }

    pub open spec fn img_resolved(self, next: AfterLoad, reply: Reply) -> (ReaderView, Ask) {
        match reply {
            Reply::Resolved(hash, path) => if utf8::valid_utf8(path@) {
                ReaderView { scratch: path@, ..self }.img(
                    next,
                    ImgStep::Size { hash },
                    Ask::ImageSize { hash },
                )
            } else {
                self.img_done(next)
            },
            _ => (self, Ask::Idle),
        }
    }

    pub open spec fn img_sized(self, next: AfterLoad, hash: u32, reply: Reply) -> (
        ReaderView,
        Ask,
    ) {
        match reply {
            Reply::Size(Ok(size)) => if size >= 5 {
                self.img(
                    next,
                    ImgStep::Head { hash, size },
                    Ask::ReadImage { hash, offset: 0, len: 4 },
                )
            } else {
                self.img_sought(next, hash)
            },
            Reply::Size(Err(_)) => self.img_sought(next, hash),
            _ => (self, Ask::Idle),
        }
    }

    pub open spec fn img_headed(self, next: AfterLoad, hash: u32, size: u32, reply: Reply) -> (
        ReaderView,
        Ask,
    ) {
        match reply {
            Reply::Bytes(Ok(d)) => match dims_of(d@, size) {
                Some((width, height)) => self.img(
                    next,
                    ImgStep::Room { hash, width, height },
                    Ask::Room { len: (row_bytes(width as int) * height) as usize },
                ),
                None => self.img_sought(next, hash),
            },
            Reply::Bytes(Err(_)) => self.img_sought(next, hash),
            _ => (self, Ask::Idle),
        }
    }

    pub open spec fn img_roomed(
        self,
        next: AfterLoad,
        hash: u32,
        width: u16,
        height: u16,
        reply: Reply,
    ) -> (ReaderView, Ask) {
        match reply {
            Reply::Flag(ok) => if ok && width > 0 && height > 0 {
                self.img(
                    next,
                    ImgStep::Data { hash, width, height },
                    Ask::ReadImage {
                        hash,
                        offset: 4,
                        len: (row_bytes(width as int) * height) as usize,
                    },
                )
            } else {
                self.img_sought(next, hash)
            },
            _ => (self, Ask::Idle),
        }
    }

    /// The image out of the cache.
    pub open spec fn img_loaded(
        self,
        next: AfterLoad,
        hash: u32,
        width: u16,
        height: u16,
        reply: Reply,
    ) -> (ReaderView, Ask) {
        match reply {
            Reply::Bytes(Ok(d)) => ReaderView {
                page_img: Some(
                    ImageView {
                        width,
                        height,
                        stride: row_bytes(width as int) as usize,
                        data: padded(d@, row_bytes(width as int) * height),
                    },
                ),
                ..self
            }.img_done(next),
            Reply::Bytes(Err(_)) => self.img_sought(next, hash),
            _ => (self, Ask::Idle),
        }
    }

    pub open spec fn img_found(self, next: AfterLoad, hash: u32, icase: bool, reply: Reply) -> (
        ReaderView,
        Ask,
    ) {
        match reply {
            Reply::Entry(Some(entry)) => self.img(
                next,
                ImgStep::Local { hash, entry },
                Ask::LocalHeader { offset: entry.local_offset },
            ),
            Reply::Entry(None) => if icase {
                self.img_done(next)
            } else {
                self.img(
                    next,
                    ImgStep::Find { hash, icase: true },
                    Ask::FindEntry { icase: true },
                )
            },
            _ => (self, Ask::Idle),
        }
    }

    /// The kind of the image is told by its name, or by its first bytes.
    pub open spec fn img_located(
        self,
        next: AfterLoad,
        hash: u32,
        entry: ZipEntry,
        reply: Reply,
    ) -> (ReaderView, Ask) {
        match reply {
            Reply::Size(Ok(skip)) => {
                let at = (entry.local_offset + skip) as u32;
                if jpeg_name(self.scratch) || png_name(self.scratch) {
                    self.img_decoding(
                        next,
                        hash,
                        self.img_job(entry, at, jpeg_name(self.scratch)),
                    )
                } else if entry.stored {
                    self.img(
                        next,
                        ImgStep::Magic { hash, entry, data_offset: at },
                        Ask::ReadBook { offset: at, len: 8 },
                    )
                } else {
                    self.img_done(next)
                }
            },
            Reply::Size(Err(_)) => self.img_done(next),
            _ => (self, Ask::Idle),
        }
    }

    pub open spec fn img_told(
        self,
        next: AfterLoad,
        hash: u32,
        entry: ZipEntry,
        data_offset: u32,
        reply: Reply,
    ) -> (ReaderView, Ask) {
        match reply {
            Reply::Bytes(Ok(d)) => if jpeg_magic(d@) || png_magic(d@) {
                self.img_decoding(
                    next,
                    hash,
                    self.img_job(entry, data_offset, jpeg_magic(d@)),
                )
            } else {
                self.img_done(next)
            },
            Reply::Bytes(Err(_)) => self.img_done(next),
            _ => (self, Ask::Idle),
        }
    }

    /// A decoded image is saved. A failed decoding is tried once more with the
    /// memory that the chapter takes up.
    pub open spec fn img_decoded(
        self,
        next: AfterLoad,
        hash: u32,
        job: DecodeJob,
        reply: Reply,
    ) -> (ReaderView, Ask) {
        match reply {
            Reply::Decoded(Ok(img)) => ReaderView { pending_img: Some(img@), ..self }.img(
                next,
                ImgStep::HeadWrite { hash },
                Ask::WriteImageHeader { hash },
            ),
            Reply::Decoded(Err(_)) => if self.pager.ch_cache.len() > 0 {
                ReaderView {
                    pager: PagerView { ch_cache: Seq::empty(), ..self.pager },
                    ..self
                }.img_decoding(next, hash, job)
            } else {
                self.img_done(next)
            },
            _ => (self, Ask::Idle),
        }
    }

    pub open spec fn img_shown(self, next: AfterLoad) -> (ReaderView, Ask) {
        ReaderView { page_img: self.pending_img, pending_img: None, ..self }.img_done(next)
    }

    pub open spec fn img_head_written(self, next: AfterLoad, hash: u32, reply: Reply) -> (
        ReaderView,
        Ask,
    ) {
        match reply {
            Reply::Outcome(Ok(_)) => self.img(
                next,
                ImgStep::DataWrite,
                Ask::AppendImage { hash },
            ),
            Reply::Outcome(Err(_)) => self.img_shown(next),
            _ => (self, Ask::Idle),
        }
    }

    pub open spec fn img_data_written(self, next: AfterLoad, reply: Reply) -> (ReaderView, Ask) {
        match reply {
            Reply::Outcome(_) => self.img_shown(next),
            _ => (self, Ask::Idle),
        }
    }

    pub open spec fn img_step(self, next: AfterLoad, step: ImgStep, reply: Reply) -> (
        ReaderView,
        Ask,
    ) {
        match step {
            ImgStep::Resolve => self.img_resolved(next, reply),
            ImgStep::Size { hash } => self.img_sized(next, hash, reply),
            ImgStep::Head { hash, size } => self.img_headed(next, hash, size, reply),
            ImgStep::Room { hash, width, height } => self.img_roomed(
                next,
                hash,
                width,
                height,
                reply,
            ),
            ImgStep::Data { hash, width, height } => self.img_loaded(
                next,
                hash,
                width,
                height,
                reply,
            ),
            ImgStep::Find { hash, icase } => self.img_found(next, hash, icase, reply),
            ImgStep::Local { hash, entry } => self.img_located(next, hash, entry, reply),
            ImgStep::Magic { hash, entry, data_offset } => self.img_told(
                next,
                hash,
                entry,
                data_offset,
                reply,
            ),
            ImgStep::Decode { hash, job } => self.img_decoded(next, hash, job, reply),
            ImgStep::HeadWrite { hash } => self.img_head_written(next, hash, reply),
            ImgStep::DataWrite => self.img_data_written(next, reply),
        }
    }
}

fn origin_line(lines: &[LineSpan]) -> (r: Option<usize>)
    ensures
        (match r {
            Some(k) => Some(k as int),
            None => None,
        }) == first_origin(lines@, 0),
        r matches Some(k) ==> k < lines@.len() && lines@[k as int].image_origin(),
{
    let mut i: usize = 0;
    while i < lines.len()
        invariant
            i <= lines@.len(),
            first_origin(lines@, 0) == first_origin(lines@, i as int),
        decreases lines@.len() - i,
    {
        if lines[i].is_image_origin() {
            return Some(i);
        }
        i += 1;
    }
    None
}

fn any_text(lines: &[LineSpan]) -> (r: bool)
    ensures
        r == has_text(lines@),
{
    let mut i: usize = 0;
    while i < lines.len()
        invariant
            i <= lines@.len(),
            forall|k: int| 0 <= k < i ==> (#[trigger] lines@[k]).image() || lines@[k].len == 0,
        decreases lines@.len() - i,
    {
        let l = lines[i];
        if !l.is_image() && l.len > 0 {
            assert(!lines@[i as int].image() && lines@[i as int].len > 0);
            return true;
        }
        i += 1;
    }
    false
}

impl ReaderApp {
    fn take_image_src(&self) -> (r: Vec<u8>)
        requires
            self@.wf(),
        ensures
            r@ == image_src(self@.pager),
    {
        proof {
            self@.lemma_wf();
        }
        let p = self.pager();
        let mut src: Vec<u8> = Vec::new();
        if let Some(k) = origin_line(p.lines.as_slice()) {
            let l = p.lines[k];
            let start = l.start as usize;
            let len = l.len as usize;
            if start + len <= p.buf_len {
                let n = if len < SRC_CAP {
                    len
                } else {
                    SRC_CAP
                };
                let all = p.buf.as_slice();
                push_bytes(&mut src, &all[start..start + n]);
            }
        }
        assert(src@ =~= image_src(self@.pager));
        src
    }

    /// Looks for the image of the page on screen.
    pub fn decode_page_images(&mut self, next: AfterLoad) -> (r: Ask)
        requires
            old(self)@.wf(),
        ensures
            final(self)@.steady(),
            (final(self)@, r) == old(self)@.image_begun(next),
    {
        self.set_page_img(None);
        self.set_fullscreen(false);
        if !self.is_epub() || self.spine().len() == 0 {
            return self.go_on(Task::Loaded { next });
        }
        let full = origin_line(self.pager().lines.as_slice()).is_some() && !any_text(
            self.pager().lines.as_slice(),
        );
        let src = self.take_image_src();
        self.set_fullscreen(full);
        if src.len() == 0 || utf8_text(src.as_slice()).is_none() {
            return self.go_on(Task::Loaded { next });
        }
        self.set_scratch(src);
        let ch = self.chapter();
        self.pose(Task::Img { next, step: ImgStep::Resolve }, Ask::ResolveImage { ch })
    }

    fn seek_img(&mut self, next: AfterLoad, hash: u32) -> (r: Ask)
        requires
            old(self)@.wf(),
        ensures
            final(self)@.steady(),
            (final(self)@, r) == old(self)@.img_sought(next, hash),
    {
        self.pose(
            Task::Img { next, step: ImgStep::Find { hash, icase: false } },
            Ask::FindEntry { icase: false },
        )
    }

    fn start_decode(&mut self, next: AfterLoad, hash: u32, job: DecodeJob) -> (r: Ask)
        requires
            old(self)@.wf(),
        ensures
            final(self)@.steady(),
            (final(self)@, r) == old(self)@.img_decoding(next, hash, job),
    {
        self.pose(Task::Img { next, step: ImgStep::Decode { hash, job } }, Ask::Decode { job })
    }

    fn page_img_job(&self, entry: ZipEntry, data_offset: u32, is_jpeg: bool) -> (r: DecodeJob)
        requires
            self@.wf(),
        ensures
            r == self@.img_job(entry, data_offset, is_jpeg),
    {
        proof {
            self@.lemma_wf();
        }
        DecodeJob {
            is_jpeg,
            stored: entry.stored,
            data_offset,
            comp_size: entry.comp_size,
            uncomp_size: entry.uncomp_size,
            max_w: self.pager().text_w as u16,
            max_h: if self.is_fullscreen() {
                self.shown_on().text_area_h()
            } else {
                IMAGE_DISPLAY_H
            },
        }
    }

    fn on_img_resolved(&mut self, next: AfterLoad, reply: Reply) -> (r: Ask)
        requires
            old(self)@.steady(),
        ensures
            final(self)@.steady(),
            (final(self)@, r) == old(self)@.img_resolved(next, reply),
    {
        match reply {
            Reply::Resolved(hash, path) => {
                if utf8_text(path.as_slice()).is_some() {
                    self.set_scratch(path);
                    self.pose(
                        Task::Img { next, step: ImgStep::Size { hash } },
                        Ask::ImageSize { hash },
                    )
                } else {
                    self.go_on(Task::Loaded { next })
                }
            },
            _ => Ask::Idle,
        }
    }

    fn on_img_sized(&mut self, next: AfterLoad, hash: u32, reply: Reply) -> (r: Ask)
        requires
            old(self)@.steady(),
        ensures
            final(self)@.steady(),
            (final(self)@, r) == old(self)@.img_sized(next, hash, reply),
    {
        match reply {
            Reply::Size(Ok(size)) => {
                if size >= 5 {
                    self.pose(
                        Task::Img { next, step: ImgStep::Head { hash, size } },
                        Ask::ReadImage { hash, offset: 0, len: 4 },
                    )
                } else {
                    self.seek_img(next, hash)
                }
            },
            Reply::Size(Err(_)) => self.seek_img(next, hash),
            _ => Ask::Idle,
        }
    }

    fn on_img_headed(&mut self, next: AfterLoad, hash: u32, size: u32, reply: Reply) -> (r: Ask)
        requires
            old(self)@.steady(),
            reply matches Reply::Bytes(Ok(d)) ==> d@.len() <= 4,
        ensures
            final(self)@.steady(),
            (final(self)@, r) == old(self)@.img_headed(next, hash, size, reply),
    {
        match reply {
            Reply::Bytes(Ok(d)) => match image_dims(d.as_slice(), size) {
                Some((width, height)) => {
                    let len = image_len(width, height);
                    self.pose(
                        Task::Img { next, step: ImgStep::Room { hash, width, height } },
                        Ask::Room { len },
                    )
                },
                None => self.seek_img(next, hash),
            },
            Reply::Bytes(Err(_)) => self.seek_img(next, hash),
            _ => Ask::Idle,
        }
    }

    fn on_img_roomed(
        &mut self,
        next: AfterLoad,
        hash: u32,
        width: u16,
        height: u16,
        reply: Reply,
    ) -> (r: Ask)
        requires
            old(self)@.steady(),
        ensures
            final(self)@.steady(),
            (final(self)@, r) == old(self)@.img_roomed(next, hash, width, height, reply),
    {
        match reply {
            Reply::Flag(ok) => {
                if ok && width > 0 && height > 0 {
                    let len = image_len(width, height);
                    self.pose_bound(
                        Task::Img { next, step: ImgStep::Data { hash, width, height } },
                        Ask::ReadImage { hash, offset: 4, len },
                    )
                } else {
                    self.seek_img(next, hash)
                }
            },
            _ => Ask::Idle,
        }
    }

    fn on_img_loaded(
        &mut self,
        next: AfterLoad,
        hash: u32,
        width: u16,
        height: u16,
        reply: Reply,
    ) -> (r: Ask)
        requires
            old(self)@.steady(),
            reply matches Reply::Bytes(Ok(d)) ==> d@.len() <= row_bytes(width as int) * height,
        ensures
            final(self)@.steady(),
            (final(self)@, r) == old(self)@.img_loaded(next, hash, width, height, reply),
    {
        match reply {
            Reply::Bytes(Ok(d)) => {
                let len = image_len(width, height);
                let mut data = d;
                pad(&mut data, len);
                self.set_page_img(
                    Some(Image { width, height, stride: (width as usize + 7) / 8, data }),
                );
                self.go_on(Task::Loaded { next })
            },
            Reply::Bytes(Err(_)) => self.seek_img(next, hash),
            _ => Ask::Idle,
        }
    }

    fn on_img_found(&mut self, next: AfterLoad, hash: u32, icase: bool, reply: Reply) -> (r: Ask)
        requires
            old(self)@.steady(),
        ensures
            final(self)@.steady(),
            (final(self)@, r) == old(self)@.img_found(next, hash, icase, reply),
    {
        match reply {
            Reply::Entry(Some(entry)) => self.pose(
                Task::Img { next, step: ImgStep::Local { hash, entry } },
                Ask::LocalHeader { offset: entry.local_offset },
            ),
            Reply::Entry(None) => {
                if icase {
                    self.go_on(Task::Loaded { next })
                } else {
                    self.pose(
                        Task::Img { next, step: ImgStep::Find { hash, icase: true } },
                        Ask::FindEntry { icase: true },
                    )
                }
            },
            _ => Ask::Idle,
        }
    }

    fn on_img_located(&mut self, next: AfterLoad, hash: u32, entry: ZipEntry, reply: Reply) -> (r:
        Ask)
        requires
            old(self)@.steady(),
            reply matches Reply::Size(Ok(skip)) ==> entry.local_offset + skip <= u32::MAX,
        ensures
            final(self)@.steady(),
            (final(self)@, r) == old(self)@.img_located(next, hash, entry, reply),
    {
        match reply {
            Reply::Size(Ok(skip)) => {
                let at = entry.local_offset + skip;
                let jpeg = names_jpeg(self.scratch().as_slice());
                let png = names_png(self.scratch().as_slice());
                if jpeg || png {
                    let job = self.page_img_job(entry, at, jpeg);
                    self.start_decode(next, hash, job)
                } else if entry.stored {
                    self.pose(
                        Task::Img { next, step: ImgStep::Magic { hash, entry, data_offset: at } },
                        Ask::ReadBook { offset: at, len: 8 },
                    )
                } else {
                    self.go_on(Task::Loaded { next })
                }
            },
            Reply::Size(Err(_)) => self.go_on(Task::Loaded { next }),
            _ => Ask::Idle,
        }
    }

    fn on_img_told(
        &mut self,
        next: AfterLoad,
        hash: u32,
        entry: ZipEntry,
        data_offset: u32,
        reply: Reply,
    ) -> (r: Ask)
        requires
            old(self)@.steady(),
        ensures
            final(self)@.steady(),
            (final(self)@, r) == old(self)@.img_told(next, hash, entry, data_offset, reply),
    {
        match reply {
            Reply::Bytes(Ok(d)) => {
                let jpeg = starts_jpeg(d.as_slice());
                let png = starts_png(d.as_slice());
                if jpeg || png {
                    let job = self.page_img_job(entry, data_offset, jpeg);
                    self.start_decode(next, hash, job)
                } else {
                    self.go_on(Task::Loaded { next })
                }
            },
            Reply::Bytes(Err(_)) => self.go_on(Task::Loaded { next }),
            _ => Ask::Idle,
        }
    }

    fn on_img_decoded(&mut self, next: AfterLoad, hash: u32, job: DecodeJob, reply: Reply) -> (r:
        Ask)
        requires
            old(self)@.steady(),
        ensures
            final(self)@.steady(),
            (final(self)@, r) == old(self)@.img_decoded(next, hash, job, reply),
    {
        match reply {
            Reply::Decoded(Ok(img)) => {
                self.set_pending(Some(img));
                self.pose(
                    Task::Img { next, step: ImgStep::HeadWrite { hash } },
                    Ask::WriteImageHeader { hash },
                )
            },
            Reply::Decoded(Err(_)) => {
                if self.pager().ch_cache.len() > 0 {
                    proof {
                        self@.lemma_wf();
                    }
                    self.pager_mut().drop_chapter_text();
                    self.start_decode(next, hash, job)
                } else {
                    self.go_on(Task::Loaded { next })
                }
            },
            _ => Ask::Idle,
        }
    }

    fn show_pending(&mut self, next: AfterLoad) -> (r: Ask)
        requires
            old(self)@.wf(),
        ensures
            final(self)@.steady(),
            (final(self)@, r) == old(self)@.img_shown(next),
    {
        self.show_pending_img();
        self.go_on(Task::Loaded { next })
    }

    fn on_img_head_written(&mut self, next: AfterLoad, hash: u32, reply: Reply) -> (r: Ask)
        requires
            old(self)@.steady(),
        ensures
            final(self)@.steady(),
            (final(self)@, r) == old(self)@.img_head_written(next, hash, reply),
    {
        match reply {
            Reply::Outcome(Ok(_)) => self.pose(
                Task::Img { next, step: ImgStep::DataWrite },
                Ask::AppendImage { hash },
            ),
            Reply::Outcome(Err(_)) => self.show_pending(next),
            _ => Ask::Idle,
        }
    }

    fn on_img_data_written(&mut self, next: AfterLoad, reply: Reply) -> (r: Ask)
        requires
            old(self)@.steady(),
        ensures
            final(self)@.steady(),
            (final(self)@, r) == old(self)@.img_data_written(next, reply),
    {
        match reply {
            Reply::Outcome(_) => self.show_pending(next),
            _ => Ask::Idle,
        }
    }

    pub(crate) fn on_img_step(&mut self, next: AfterLoad, step: ImgStep, reply: Reply) -> (r: Ask)
        requires
            old(self)@.steady(),
            img_fits(step, reply),
        ensures
            final(self)@.steady(),
            (final(self)@, r) == old(self)@.img_step(next, step, reply),
    {
        match step {
            ImgStep::Resolve => self.on_img_resolved(next, reply),
            ImgStep::Size { hash } => self.on_img_sized(next, hash, reply),
            ImgStep::Head { hash, size } => self.on_img_headed(next, hash, size, reply),
            ImgStep::Room { hash, width, height } => self.on_img_roomed(
                next,
                hash,
                width,
                height,
                reply,
            ),
            ImgStep::Data { hash, width, height } => self.on_img_loaded(
                next,
                hash,
                width,
                height,
                reply,
            ),
            ImgStep::Find { hash, icase } => self.on_img_found(next, hash, icase, reply),
            ImgStep::Local { hash, entry } => self.on_img_located(next, hash, entry, reply),
            ImgStep::Magic { hash, entry, data_offset } => self.on_img_told(
                next,
                hash,
                entry,
                data_offset,
                reply,
            ),
            ImgStep::Decode { hash, job } => self.on_img_decoded(next, hash, job, reply),
            ImgStep::HeadWrite { hash } => self.on_img_head_written(next, hash, reply),
            ImgStep::DataWrite => self.on_img_data_written(next, reply),
        }
    }
}

/// The bytes of an image of one bit per pixel.
fn image_len(width: u16, height: u16) -> (r: usize)
    ensures
        r == row_bytes(width as int) * height,
{
    let stride = (width as usize + 7) / 8;
    assert(0 <= stride * height <= 8192 * 65535) by (nonlinear_arith)
        requires
            0 <= stride <= 8192,
            0 <= height <= 65535,
    ;
    stride * height as usize
}

} // verus!
