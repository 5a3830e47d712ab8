//! Searching chapters for images that are not cached, and caching them.

use vstd::prelude::*;
use vstd::utf8;

use crate::apps::reader::app::{ReaderApp, ReaderView, State};
use crate::apps::reader::cache::{count_up, counted_up, BgCacheState, CacheView};
use crate::apps::reader::images::{
    find_reference, is_image_ext_jpeg, is_image_ext_png, jpeg_path, next_reference, png_path,
    reference_at,
};
use crate::apps::reader::pages::{overlaid, PagerView, PAGE_BUF};
use crate::apps::reader::work::{
    least, near, near_chapter, scan_fits, AfterScan, Ask, DecodeJob, Reply, ScanAt, ScanStep,
    Task, WorkOutcome, ZipEntry, CHUNK_OVERLAP, PRECACHE_IMG_MAX, SRC_CAP,
};
use crate::apps::reader::wrap::Markup;
use crate::bytes::{push_bytes, utf8_text};

verus! {

impl ReaderView {
    /// The chapters near that on screen, one after another, until an image
    /// goes to the worker.
    pub open spec fn nearby(self, k: u8, opening: bool) -> (ReaderView, Ask) {
        let ch = near(self.chapter as int, k as int);
        if k >= 5 {
            self.nearby_done(false, opening)
        } else if ch < self.spine.len() && self.cache.done[ch] {
            self.scan_begun(ch, 0, AfterScan::Nearby { k, opening })
        } else {
            self.go_on(Task::Nearby { k: (k + 1) as u8, opening })
        }
    }

    pub open spec fn nearby_done(self, found: bool, opening: bool) -> (ReaderView, Ask) {
        let r = self.with_bg(
            if found {
                BgCacheState::WaitNearbyImage
            } else {
                BgCacheState::CacheChapter
            },
        );
        if opening {
            ReaderView { state: State::NeedIndex, ..r }.go_on(Task::Loop)
        } else {
            r.rest()
        }
    }

    /// All chapters from that on screen on, then those before it.
    pub open spec fn found_next(self) -> (ReaderView, Ask) {
        let c = self.cache;
        if c.img_ch < self.spine.len() && !(c.img_wrapped && c.img_ch >= self.chapter) {
            self.scan_begun(c.img_ch as int, c.img_offset, AfterScan::Find)
        } else if !c.img_wrapped && self.chapter > 0 {
            ReaderView {
                cache: CacheView { img_ch: 0, img_offset: 0, img_wrapped: true, ..c },
                ..self
            }.pose(Task::FindBusy, Ask::WorkerIdle)
        } else {
            self.with_bg(BgCacheState::Idle).rest()
        }
    }

    /// While the worker is busy its result is waited for.
    pub open spec fn found_busy(self, reply: Reply) -> (ReaderView, Ask) {
        match reply {
            Reply::Flag(idle) => if idle {
                self.rest()
            } else {
                self.with_bg(BgCacheState::WaitImage).rest()
            },
            _ => (self, Ask::Idle),
        }
    }

    pub open spec fn scan_read_at(self, ch: int, offset: u32, goal: AfterScan) -> (
        ReaderView,
        Ask,
    ) {
        self.pose(
            Task::ScanRead { ch: ch as u16, offset, goal },
            Ask::ReadChapter {
                ch: ch as u16,
                offset,
                len: least(PAGE_BUF as int, self.cache.sizes[ch] - offset) as usize,
            },
        )
    }

    /// Chapter `ch` is searched from `start` on. The buffer for reading ahead
    /// serves for the search.
    pub open spec fn scan_begun(self, ch: int, start: u32, goal: AfterScan) -> (ReaderView, Ask) {
        let size = self.cache.sizes[ch];
        let r = ReaderView {
            pager: PagerView { prefetch_page: None, ..self.pager },
            ..self
        };
        if !self.cache.done[ch] || size == 0 {
            self.scan_none(goal)
        } else if start < size {
            r.scan_read_at(ch, start, goal)
        } else {
            r.scan_none(goal)
        }
    }

    pub open spec fn scan_none(self, goal: AfterScan) -> (ReaderView, Ask) {
        match goal {
            AfterScan::Nearby { k, opening } => self.go_on(Task::Nearby { k: counted8(k), opening }),
            AfterScan::Find => ReaderView {
                cache: CacheView {
                    img_ch: counted_up(self.cache.img_ch),
                    img_offset: 0,
                    ..self.cache
                },
                ..self
            }.go_on(Task::Find),
        }
    }

    pub open spec fn scan_failed(self, goal: AfterScan) -> (ReaderView, Ask) {
        match goal {
            AfterScan::Nearby { k, opening } => self.go_on(Task::Nearby { k: counted8(k), opening }),
            AfterScan::Find => self.rest(),
        }
    }

    /// An image went to the worker, or was cached at once.
    pub open spec fn scan_hit(self, at: ScanAt, dispatched: bool) -> (ReaderView, Ask) {
        match at.goal {
            AfterScan::Nearby { k, opening } => if dispatched {
                self.nearby_done(true, opening)
            } else {
                self.go_on(Task::Nearby { k: counted8(k), opening })
            },
            AfterScan::Find => ReaderView {
                cache: CacheView { img_offset: (at.offset + at.i) as u32, ..self.cache },
                ..self
            }.pose(Task::FindBusy, Ask::WorkerIdle),
        }
    }

    pub open spec fn scan_chunk_read(self, ch: u16, offset: u32, goal: AfterScan, reply: Reply) -> (
        ReaderView,
        Ask,
    ) {
        match reply {
            Reply::Bytes(Ok(d)) => if d@.len() == 0 {
                self.scan_none(goal)
            } else {
                ReaderView {
                    pager: PagerView { prefetch: overlaid(self.pager.prefetch, d@), ..self.pager },
                    ..self
                }.scan(
                    ScanAt { ch, offset, n: d@.len() as usize, i: 0, goal },
                    ScanStep::Chunk,
                    Ask::Again,
                )
            },
            Reply::Bytes(Err(_)) => self.scan_failed(goal),
            _ => (self, Ask::Idle),
        }
    }

    pub open spec fn scan(self, at: ScanAt, scan: ScanStep, ask: Ask) -> (ReaderView, Ask) {
        self.pose(Task::Scan { at, scan }, ask)
    }

    pub open spec fn scan_on(self, at: ScanAt) -> (ReaderView, Ask) {
        self.scan(at, ScanStep::Chunk, Ask::Again)
    }

    /// The next reference in the chunk, or the next chunk. Chunks overlap by one
    /// byte less than the longest reference has, so that one that the end of a
    /// chunk cuts off is whole in the next.
    pub open spec fn scan_chunk(self, at: ScanAt) -> (ReaderView, Ask) {
        let b = self.pager.prefetch;
        let size = self.cache.sizes[at.ch as int];
        match next_reference(b, at.n as int, self.pager.markup, at.i as int) {
            Some(j) => {
                let len = b[j + 2] as int;
                let src = b.subrange(j + 3, j + 3 + least(len, SRC_CAP as int));
                let behind = ScanAt { i: (j + 3 + len) as usize, ..at };
                if utf8::valid_utf8(src) {
                    ReaderView { scratch: src, ..self }.scan(
                        behind,
                        ScanStep::Resolve,
                        Ask::ResolveImage { ch: at.ch },
                    )
                } else {
                    self.scan_on(behind)
                }
            },
            None => if at.offset + at.n >= size {
                self.scan_none(at.goal)
            } else {
                let step = if at.n > CHUNK_OVERLAP + 1 {
                    at.n - CHUNK_OVERLAP
                } else {
                    1
                };
                self.scan_read_at(at.ch as int, (at.offset + step) as u32, at.goal)
            },
        }
    }

    pub open spec fn scan_resolved(self, at: ScanAt, reply: Reply) -> (ReaderView, Ask) {
        match reply {
            Reply::Resolved(hash, path) => if utf8::valid_utf8(path@) {
                ReaderView { scratch: path@, ..self }.scan(
                    at,
                    ScanStep::Size { hash },
                    Ask::ImageSize { hash },
                )
            } else {
                self.scan_on(at)
            },
            _ => (self, Ask::Idle),
        }
    }

    /// An image that has a cache file is passed over. One of a kind that
    /// cannot be shown gets an empty file.
    pub open spec fn scan_sized(self, at: ScanAt, hash: u32, reply: Reply) -> (ReaderView, Ask) {
        match reply {
            Reply::Size(Ok(_)) => self.scan_on(at),
            Reply::Size(Err(_)) => if jpeg_path(self.scratch) || png_path(self.scratch) {
                self.scan(
                    at,
                    ScanStep::Find { hash, icase: false },
                    Ask::FindEntry { icase: false },
                )
            } else {
                self.scan(at, ScanStep::Skip, Ask::SkipImage { hash })
            },
            _ => (self, Ask::Idle),
        }
    }

    pub open spec fn scan_skipped(self, at: ScanAt, reply: Reply) -> (ReaderView, Ask) {
        match reply {
            Reply::Outcome(_) => self.scan_on(at),
            _ => (self, Ask::Idle),
        }
    }

    /// A large image is decoded at once, a small one by the worker.
    pub open spec fn scan_found(self, at: ScanAt, hash: u32, icase: bool, reply: Reply) -> (
        ReaderView,
        Ask,
    ) {
        match reply {
            Reply::Entry(Some(entry)) => if entry.uncomp_size > PRECACHE_IMG_MAX {
                self.scan(
                    at,
                    ScanStep::Local { hash, entry },
                    Ask::LocalHeader { offset: entry.local_offset },
                )
            } else {
                self.scan(
                    at,
                    ScanStep::Extract { hash },
                    Ask::ExtractImage { idx: entry.idx },
                )
            },
            Reply::Entry(None) => if icase {
                self.scan_on(at)
            } else {
                self.scan(
                    at,
                    ScanStep::Find { hash, icase: true },
                    Ask::FindEntry { icase: true },
                )
            },
            _ => (self, Ask::Idle),
        }
    }

    pub open spec fn scan_job(self, entry: ZipEntry, data_offset: u32) -> DecodeJob {
        DecodeJob {
            is_jpeg: jpeg_path(self.scratch),
            stored: entry.stored,
            data_offset,
            comp_size: entry.comp_size,
            uncomp_size: entry.uncomp_size,
            max_w: self.pager.text_w as u16,
            max_h: self.screen.text_area(),
        }
    }

    pub open spec fn scan_located(self, at: ScanAt, hash: u32, entry: ZipEntry, reply: Reply) -> (
        ReaderView,
        Ask,
    ) {
        match reply {
            Reply::Size(Ok(skip)) => self.scan(
                at,
                ScanStep::Decode { hash },
                Ask::Decode { job: self.scan_job(entry, (entry.local_offset + skip) as u32) },
            ),
            Reply::Size(Err(_)) => self.scan(at, ScanStep::Mark, Ask::SkipImage { hash }),
            _ => (self, Ask::Idle),
        }
    }

    pub open spec fn scan_decoded(self, at: ScanAt, hash: u32, reply: Reply) -> (ReaderView, Ask) {
        match reply {
            Reply::Decoded(Ok(img)) => ReaderView { pending_img: Some(img@), ..self }.scan(
                at,
                ScanStep::HeadWrite { hash },
                Ask::WriteImageHeader { hash },
            ),
            Reply::Decoded(Err(_)) => self.scan(at, ScanStep::Mark, Ask::SkipImage { hash }),
            _ => (self, Ask::Idle),
        }
    }

    pub open spec fn without_pending(self) -> ReaderView {
        ReaderView { pending_img: None, ..self }
    }

    pub open spec fn scan_head_written(self, at: ScanAt, hash: u32, reply: Reply) -> (
        ReaderView,
        Ask,
    ) {
        match reply {
            Reply::Outcome(Ok(_)) => self.scan(at, ScanStep::DataWrite, Ask::AppendImage { hash }),
            Reply::Outcome(Err(_)) => self.without_pending().scan_hit(at, false),
            _ => (self, Ask::Idle),
        }
    }

    pub open spec fn scan_data_written(self, at: ScanAt, reply: Reply) -> (ReaderView, Ask) {
        match reply {
            Reply::Outcome(_) => self.without_pending().scan_hit(at, false),
            _ => (self, Ask::Idle),
        }
    }

    pub open spec fn scan_marked(self, at: ScanAt, reply: Reply) -> (ReaderView, Ask) {
        match reply {
            Reply::Outcome(_) => self.scan_hit(at, false),
            _ => (self, Ask::Idle),
        }
    }

    pub open spec fn scan_extracted(self, at: ScanAt, hash: u32, reply: Reply) -> (
        ReaderView,
        Ask,
    ) {
        match reply {
            Reply::Outcome(Ok(_)) => self.scan(
                at,
                ScanStep::Submit,
                Ask::SubmitImage {
                    hash,
                    is_jpeg: jpeg_path(self.scratch),
                    max_w: self.pager.text_w as u16,
                    max_h: self.screen.text_area(),
                },
            ),
            Reply::Outcome(Err(_)) => self.scan(at, ScanStep::Skip, Ask::SkipImage { hash }),
            _ => (self, Ask::Idle),
        }
    }

    pub open spec fn scan_submitted(self, at: ScanAt, reply: Reply) -> (ReaderView, Ask) {
        match reply {
            Reply::Flag(ok) => if ok {
                self.scan_hit(at, true)
            } else {
                self.scan_failed(at.goal)
            },
            _ => (self, Ask::Idle),
        }
    }

    pub open spec fn scan_step(self, at: ScanAt, scan: ScanStep, reply: Reply) -> (
        ReaderView,
        Ask,
    ) {
        match scan {
            ScanStep::Chunk => self.scan_chunk(at),
            ScanStep::Resolve => self.scan_resolved(at, reply),
            ScanStep::Size { hash } => self.scan_sized(at, hash, reply),
            ScanStep::Skip => self.scan_skipped(at, reply),
            ScanStep::Find { hash, icase } => self.scan_found(at, hash, icase, reply),
            ScanStep::Local { hash, entry } => self.scan_located(at, hash, entry, reply),
            ScanStep::Decode { hash } => self.scan_decoded(at, hash, reply),
            ScanStep::HeadWrite { hash } => self.scan_head_written(at, hash, reply),
            ScanStep::DataWrite => self.scan_data_written(at, reply),
            ScanStep::Mark => self.scan_marked(at, reply),
            ScanStep::Extract { hash } => self.scan_extracted(at, hash, reply),
            ScanStep::Submit => self.scan_submitted(at, reply),
        }
    }

    /// The worker's result for an image: a decoded image is saved.
    pub open spec fn image_received(self, nearby: bool, reply: Reply) -> (ReaderView, Ask) {
        match reply {
            Reply::Worker(Some(w)) => if !w.current {
                self.rest()
            } else {
                match w.outcome {
                    WorkOutcome::ImageReady { hash, image } => ReaderView {
                        pending_img: Some(image@),
                        ..self
                    }.pose(Task::SaveHead { hash, nearby }, Ask::WriteImageHeader { hash }),
                    WorkOutcome::ImageFailed { hash } => self.image_done(nearby),
                    _ => self.rest(),
                }
            },
            Reply::Worker(None) => self.rest(),
            _ => (self, Ask::Idle),
        }
    }

    pub open spec fn image_done(self, nearby: bool) -> (ReaderView, Ask) {
        if nearby {
            self.go_on(Task::Nearby { k: 0, opening: false })
        } else {
            self.with_bg(BgCacheState::CacheImage).rest()
        }
    }

    pub open spec fn image_head_saved(self, hash: u32, nearby: bool, reply: Reply) -> (
        ReaderView,
        Ask,
    ) {
        match reply {
            Reply::Outcome(Ok(_)) => self.pose(
                Task::SaveData { nearby },
                Ask::AppendImage { hash },
            ),
            Reply::Outcome(Err(_)) => self.without_pending().image_done(nearby),
            _ => (self, Ask::Idle),
        }
    }

    pub open spec fn image_data_saved(self, nearby: bool, reply: Reply) -> (ReaderView, Ask) {
        match reply {
            Reply::Outcome(_) => self.without_pending().image_done(nearby),
            _ => (self, Ask::Idle),
        }
    }
}

proof fn lemma_next_reference(b: Seq<u8>, n: int, m: Markup, i: int, j: int)
    requires
        0 <= i <= j,
        reference_at(b, n, m, j),
    ensures
        next_reference(b, n, m, i) matches Some(q) && i <= q <= j,
    decreases j - i,
{
    if i < j && !reference_at(b, n, m, i) {
        lemma_next_reference(b, n, m, i + 1, j);
    }
}

impl ReaderView {
    /// The search for images misses no reference. One that the chunk at hand
    /// holds whole, at or behind the place where the search is, is found there
    /// unless one before it is found first. One that the chunk cuts off, or does
    /// not reach, lies at or behind the start of the next chunk, with which the
    /// search goes on once this chunk has no more. Left out is a chunk
    /// of fewer bytes than the longest reference has, which is not the
    /// chapter's last.
    pub proof fn law_no_reference_is_missed(self, at: ScanAt, text: Seq<u8>, p: int)
        requires
            at.placed(self),
            self.pager.prefetch.len() >= at.n,
            text.len() == self.cache.sizes[at.ch as int],
            self.pager.prefetch.take(at.n as int) == text.subrange(
                at.offset as int,
                at.offset + at.n,
            ),
            at.n > CHUNK_OVERLAP || at.offset + at.n >= text.len(),
            reference_at(text, text.len() as int, self.pager.markup, p),
            at.offset <= p,
        ensures
            ({
                let found = next_reference(
                    self.pager.prefetch,
                    at.n as int,
                    self.pager.markup,
                    at.i as int,
                );
                let whole = p + 3 + text[p + 2] <= at.offset + at.n;
                &&& whole && at.offset + at.i <= p ==> (found matches Some(q) && at.i <= q
                    && at.offset + q <= p)
                &&& found is Some ==> {
                    &&& self.scan_chunk(at).0.task matches Task::Scan { at: on, scan }
                    &&& on.offset == at.offset
                    &&& on.n == at.n
                }
                &&& !whole && found is None ==> {
                    &&& self.scan_chunk(at).0.task matches Task::ScanRead { ch, offset, goal }
                    &&& ch == at.ch
                    &&& at.offset < offset <= p
                    &&& goal == at.goal
                }
            }),
    {
        let b = self.pager.prefetch;
        let n = at.n as int;
        let m = self.pager.markup;
        let j = p - at.offset;
        assert forall|k: int| 0 <= k < n implies b[k] == text[at.offset + k] by {
            assert(b.take(n)[k] == text.subrange(at.offset as int, at.offset + at.n)[k]);
        }
        if j + 3 + text[p + 2] <= n && at.i <= j {
            assert(reference_at(b, n, m, j));
            lemma_next_reference(b, n, m, at.i as int, j);
        }
    }
}

/// The number after `k`, up to the largest.
pub open spec fn counted8(k: u8) -> u8 {
    if k < 255 {
        (k + 1) as u8
    } else {
        255
    }
}

fn count8(k: u8) -> (r: u8)
    ensures
        r == counted8(k),
{
    if k < 255 {
        k + 1
    } else {
        255
    }
}

impl ReaderApp {
    /// Hands an image of a chapter near that on screen to the worker.
    pub(crate) fn try_dispatch_nearby_image(&mut self, k: u8, opening: bool) -> (r: Ask)
        requires
            old(self)@.wf(),
        ensures
            final(self)@.steady(),
            (final(self)@, r) == old(self)@.nearby(k, opening),
    {
        if k >= 5 {
            return self.end_nearby(false, opening);
        }
        proof {
            self@.lemma_wf();
        }
        let ch = near_chapter(self.chapter(), k);
        if ch < self.spine().len() && self.cache().done[ch] {
            self.scan_chapter(ch, 0, AfterScan::Nearby { k, opening })
        } else {
            self.go_on(Task::Nearby { k: k + 1, opening })
        }
    }

    fn end_nearby(&mut self, found: bool, opening: bool) -> (r: Ask)
        requires
            old(self)@.wf(),
        ensures
            final(self)@.steady(),
            (final(self)@, r) == old(self)@.nearby_done(found, opening),
    {
        self.set_bg(
            if found {
                BgCacheState::WaitNearbyImage
            } else {
                BgCacheState::CacheChapter
            },
        );
        if opening {
            self.set_state(State::NeedIndex);
            self.go_on(Task::Loop)
        } else {
            self.rest()
        }
    }

    /// Looks for the next image of the book that is not cached.
    pub(crate) fn epub_find_and_dispatch_image(&mut self) -> (r: Ask)
        requires
            old(self)@.wf(),
        ensures
            final(self)@.steady(),
            (final(self)@, r) == old(self)@.found_next(),
    {
        proof {
            self@.lemma_wf();
        }
        let ch = self.cache().img_ch;
        let wrapped = self.cache().img_wrapped;
        let here = self.chapter();
        if (ch as usize) < self.spine().len() && !(wrapped && ch >= here) {
            let start = self.cache().img_offset;
            self.scan_chapter(ch as usize, start, AfterScan::Find)
        } else if !wrapped && here > 0 {
            self.cache_mut().set_search(0, 0, true);
            self.pose(Task::FindBusy, Ask::WorkerIdle)
        } else {
            self.set_bg(BgCacheState::Idle);
            self.rest()
        }
    }

    pub(crate) fn on_find_busy(&mut self, reply: Reply) -> (r: Ask)
        requires
            old(self)@.steady(),
        ensures
            final(self)@.steady(),
            (final(self)@, r) == old(self)@.found_busy(reply),
    {
        match reply {
            Reply::Flag(idle) => {
                if !idle {
                    self.set_bg(BgCacheState::WaitImage);
                }
                self.rest()
            },
            _ => Ask::Idle,
        }
    }

    fn read_chunk(&mut self, ch: usize, offset: u32, goal: AfterScan) -> (r: Ask)
        requires
            old(self)@.wf(),
            ch < old(self)@.cache.room(),
            offset < old(self)@.cache.sizes[ch as int],
        ensures
            final(self)@.steady(),
            (final(self)@, r) == old(self)@.scan_read_at(ch as int, offset, goal),
    {
        proof {
            self@.lemma_wf();
        }
        let left = (self.cache().sizes[ch] - offset) as usize;
        let len = if PAGE_BUF < left {
            PAGE_BUF
        } else {
            left
        };
        let ch = ch as u16;
        self.pose_bound(
            Task::ScanRead { ch, offset, goal },
            Ask::ReadChapter { ch, offset, len },
        )
    }

    fn scan_chapter(&mut self, ch: usize, start: u32, goal: AfterScan) -> (r: Ask)
        requires
            old(self)@.wf(),
            ch < old(self)@.cache.room(),
        ensures
            final(self)@.steady(),
            (final(self)@, r) == old(self)@.scan_begun(ch as int, start, goal),
    {
        proof {
            self@.lemma_wf();
        }
        let size = self.cache().sizes[ch];
        if !self.cache().done[ch] || size == 0 {
            return self.scan_nothing(goal);
        }
        self.pager_mut().ignore_prefetch();
        if start < size {
            self.read_chunk(ch, start, goal)
        } else {
            self.scan_nothing(goal)
        }
    }

    fn scan_nothing(&mut self, goal: AfterScan) -> (r: Ask)
        requires
            old(self)@.wf(),
        ensures
            final(self)@.steady(),
            (final(self)@, r) == old(self)@.scan_none(goal),
    {
        match goal {
            AfterScan::Nearby { k, opening } => self.go_on(Task::Nearby { k: count8(k), opening }),
            AfterScan::Find => {
                proof {
                    self@.lemma_wf();
                }
                let ch = count_up(self.cache().img_ch);
                let wrapped = self.cache().img_wrapped;
                self.cache_mut().set_search(ch, 0, wrapped);
                self.go_on(Task::Find)
            },
        }
    }

    fn fail_scan(&mut self, goal: AfterScan) -> (r: Ask)
        requires
            old(self)@.wf(),
        ensures
            final(self)@.steady(),
            (final(self)@, r) == old(self)@.scan_failed(goal),
    {
        match goal {
            AfterScan::Nearby { k, opening } => self.go_on(Task::Nearby { k: count8(k), opening }),
            AfterScan::Find => self.rest(),
        }
    }

    fn hit(&mut self, at: ScanAt, dispatched: bool) -> (r: Ask)
        requires
            old(self)@.wf(),
            at.offset + at.i <= u32::MAX,
        ensures
            final(self)@.steady(),
            (final(self)@, r) == old(self)@.scan_hit(at, dispatched),
    {
        match at.goal {
            AfterScan::Nearby { k, opening } => {
                if dispatched {
                    self.end_nearby(true, opening)
                } else {
                    self.go_on(Task::Nearby { k: count8(k), opening })
                }
            },
            AfterScan::Find => {
                proof {
                    self@.lemma_wf();
                }
                let ch = self.cache().img_ch;
                let wrapped = self.cache().img_wrapped;
                self.cache_mut().set_search(ch, at.offset + at.i as u32, wrapped);
                self.pose(Task::FindBusy, Ask::WorkerIdle)
            },
        }
    }

    pub(crate) fn on_scan_read(&mut self, ch: u16, offset: u32, goal: AfterScan, reply: Reply) -> (
        r: Ask)
        requires
            old(self)@.steady(),
            old(self)@.task == (Task::ScanRead { ch, offset, goal }),
            reply matches Reply::Bytes(Ok(d)) ==> d@.len() <= least(
                PAGE_BUF as int,
                old(self)@.cache.sizes[ch as int] - offset,
            ),
        ensures
            final(self)@.steady(),
            (final(self)@, r) == old(self)@.scan_chunk_read(ch, offset, goal, reply),
    {
        match reply {
            Reply::Bytes(Ok(d)) => {
                if d.len() == 0 {
                    self.scan_nothing(goal)
                } else {
                    proof {
                        self@.lemma_wf();
                    }
                    self.pager_mut().borrow_prefetch(d.as_slice());
                    let at = ScanAt { ch, offset, n: d.len(), i: 0, goal };
                    self.pose_bound(Task::Scan { at, scan: ScanStep::Chunk }, Ask::Again)
                }
            },
            Reply::Bytes(Err(_)) => self.fail_scan(goal),
            _ => Ask::Idle,
        }
    }

    fn pose_scan(&mut self, at: ScanAt, scan: ScanStep, ask: Ask) -> (r: Ask)
        requires
            old(self)@.wf(),
            at.placed(old(self)@),
        ensures
            final(self)@.steady(),
            (final(self)@, r) == old(self)@.scan(at, scan, ask),
    {
        self.pose_bound(Task::Scan { at, scan }, ask)
    }

    /// Searches the chunk for a reference to an image.
    pub(crate) fn scan_chapter_for_image(&mut self, at: ScanAt) -> (r: Ask)
        requires
            old(self)@.wf(),
            at.placed(old(self)@),
        ensures
            final(self)@.steady(),
            (final(self)@, r) == old(self)@.scan_chunk(at),
    {
        proof {
            self@.lemma_wf();
        }
        let found = find_reference(
            self.pager().prefetch.as_slice(),
            at.n,
            &self.pager().markup,
            at.i,
        );
        match found {
            Some(j) => {
                let len = self.pager().prefetch[j + 2] as usize;
                let n = if len < SRC_CAP {
                    len
                } else {
                    SRC_CAP
                };
                let mut src: Vec<u8> = Vec::new();
                let all = self.pager().prefetch.as_slice();
                push_bytes(&mut src, &all[j + 3..j + 3 + n]);
                assert(src@ =~= self@.pager.prefetch.subrange(j + 3, j + 3 + n));
                let behind = ScanAt { i: j + 3 + len, ..at };
                if utf8_text(src.as_slice()).is_some() {
                    self.set_scratch(src);
                    let ch = at.ch;
                    self.pose_scan(behind, ScanStep::Resolve, Ask::ResolveImage { ch })
                } else {
                    self.pose_scan(behind, ScanStep::Chunk, Ask::Again)
                }
            },
            None => {
                let size = self.cache().sizes[at.ch as usize];
                let end = at.offset + at.n as u32;
                if end >= size {
                    self.scan_nothing(at.goal)
                } else {
                    let step: u32 = if at.n > CHUNK_OVERLAP + 1 {
                        (at.n - CHUNK_OVERLAP) as u32
                    } else {
                        1
                    };
                    self.read_chunk(at.ch as usize, at.offset + step, at.goal)
                }
            },
        }
    }

    fn on_scan_resolved(&mut self, at: ScanAt, reply: Reply) -> (r: Ask)
        requires
            old(self)@.steady(),
            at.placed(old(self)@),
        ensures
            final(self)@.steady(),
            (final(self)@, r) == old(self)@.scan_resolved(at, reply),
    {
        match reply {
            Reply::Resolved(hash, path) => {
                if utf8_text(path.as_slice()).is_some() {
                    self.set_scratch(path);
                    self.pose_scan(at, ScanStep::Size { hash }, Ask::ImageSize { hash })
                } else {
                    self.pose_scan(at, ScanStep::Chunk, Ask::Again)
                }
            },
            _ => Ask::Idle,
        }
    }

    fn on_scan_sized(&mut self, at: ScanAt, hash: u32, reply: Reply) -> (r: Ask)
        requires
            old(self)@.steady(),
            at.placed(old(self)@),
        ensures
            final(self)@.steady(),
            (final(self)@, r) == old(self)@.scan_sized(at, hash, reply),
    {
        match reply {
            Reply::Size(Ok(_)) => self.pose_scan(at, ScanStep::Chunk, Ask::Again),
            Reply::Size(Err(_)) => {
                let path = self.scratch().as_slice();
                if is_image_ext_jpeg(path) || is_image_ext_png(path) {
                    self.pose_scan(
                        at,
                        ScanStep::Find { hash, icase: false },
                        Ask::FindEntry { icase: false },
                    )
                } else {
                    self.pose_scan(at, ScanStep::Skip, Ask::SkipImage { hash })
                }
            },
            _ => Ask::Idle,
        }
    }

    fn on_scan_found(&mut self, at: ScanAt, hash: u32, icase: bool, reply: Reply) -> (r: Ask)
        requires
            old(self)@.steady(),
            at.placed(old(self)@),
        ensures
            final(self)@.steady(),
            (final(self)@, r) == old(self)@.scan_found(at, hash, icase, reply),
    {
        match reply {
            Reply::Entry(Some(entry)) => {
                if entry.uncomp_size > PRECACHE_IMG_MAX {
                    self.pose_scan(
                        at,
                        ScanStep::Local { hash, entry },
                        Ask::LocalHeader { offset: entry.local_offset },
                    )
                } else {
                    self.pose_scan(
                        at,
                        ScanStep::Extract { hash },
                        Ask::ExtractImage { idx: entry.idx },
                    )
                }
            },
            Reply::Entry(None) => {
                if icase {
                    self.pose_scan(at, ScanStep::Chunk, Ask::Again)
                } else {
                    self.pose_scan(
                        at,
                        ScanStep::Find { hash, icase: true },
                        Ask::FindEntry { icase: true },
                    )
                }
            },
            _ => Ask::Idle,
        }
    }

    fn on_scan_located(&mut self, at: ScanAt, hash: u32, entry: ZipEntry, reply: Reply) -> (r: Ask)
        requires
            old(self)@.steady(),
            at.placed(old(self)@),
            reply matches Reply::Size(Ok(skip)) ==> entry.local_offset + skip <= u32::MAX,
        ensures
            final(self)@.steady(),
            (final(self)@, r) == old(self)@.scan_located(at, hash, entry, reply),
    {
        match reply {
            Reply::Size(Ok(skip)) => {
                proof {
                    self@.lemma_wf();
                }
                let job = DecodeJob {
                    is_jpeg: is_image_ext_jpeg(self.scratch().as_slice()),
                    stored: entry.stored,
                    data_offset: entry.local_offset + skip,
                    comp_size: entry.comp_size,
                    uncomp_size: entry.uncomp_size,
                    max_w: self.pager().text_w as u16,
                    max_h: self.shown_on().text_area_h(),
                };
                self.pose_scan(at, ScanStep::Decode { hash }, Ask::Decode { job })
            },
            Reply::Size(Err(_)) => self.pose_scan(at, ScanStep::Mark, Ask::SkipImage { hash }),
            _ => Ask::Idle,
        }
    }

    fn on_scan_decoded(&mut self, at: ScanAt, hash: u32, reply: Reply) -> (r: Ask)
        requires
            old(self)@.steady(),
            at.placed(old(self)@),
        ensures
            final(self)@.steady(),
            (final(self)@, r) == old(self)@.scan_decoded(at, hash, reply),
    {
        match reply {
            Reply::Decoded(Ok(img)) => {
                self.set_pending(Some(img));
                self.pose_scan(at, ScanStep::HeadWrite { hash }, Ask::WriteImageHeader { hash })
            },
            Reply::Decoded(Err(_)) => self.pose_scan(at, ScanStep::Mark, Ask::SkipImage { hash }),
            _ => Ask::Idle,
        }
    }

    fn on_scan_saved(&mut self, at: ScanAt, scan: ScanStep, reply: Reply) -> (r: Ask)
        requires
            old(self)@.steady(),
            at.placed(old(self)@),
            scan is HeadWrite || scan is DataWrite || scan is Mark || scan is Skip,
        ensures
            final(self)@.steady(),
            (final(self)@, r) == old(self)@.scan_step(at, scan, reply),
    {
        proof {
            self@.lemma_wf();
        }
        match scan {
            ScanStep::HeadWrite { hash } => match reply {
                Reply::Outcome(Ok(_)) => self.pose_scan(
                    at,
                    ScanStep::DataWrite,
                    Ask::AppendImage { hash },
                ),
                Reply::Outcome(Err(_)) => {
                    self.set_pending(None);
                    self.hit(at, false)
                },
                _ => Ask::Idle,
            },
            ScanStep::DataWrite => match reply {
                Reply::Outcome(_) => {
                    self.set_pending(None);
                    self.hit(at, false)
                },
                _ => Ask::Idle,
            },
            ScanStep::Mark => match reply {
                Reply::Outcome(_) => self.hit(at, false),
                _ => Ask::Idle,
            },
            _ => match reply {
                Reply::Outcome(_) => self.pose_scan(at, ScanStep::Chunk, Ask::Again),
                _ => Ask::Idle,
            },
        }
    }

    fn on_scan_worker(&mut self, at: ScanAt, scan: ScanStep, reply: Reply) -> (r: Ask)
        requires
            old(self)@.steady(),
            at.placed(old(self)@),
            scan is Extract || scan is Submit,
        ensures
            final(self)@.steady(),
            (final(self)@, r) == old(self)@.scan_step(at, scan, reply),
    {
        proof {
            self@.lemma_wf();
        }
        match scan {
            ScanStep::Extract { hash } => match reply {
                Reply::Outcome(Ok(_)) => {
                    let is_jpeg = is_image_ext_jpeg(self.scratch().as_slice());
                    let max_w = self.pager().text_w as u16;
                    let max_h = self.shown_on().text_area_h();
                    self.pose_scan(
                        at,
                        ScanStep::Submit,
                        Ask::SubmitImage { hash, is_jpeg, max_w, max_h },
                    )
                },
                Reply::Outcome(Err(_)) => self.pose_scan(
                    at,
                    ScanStep::Skip,
                    Ask::SkipImage { hash },
                ),
                _ => Ask::Idle,
            },
            _ => match reply {
                Reply::Flag(ok) => {
                    if ok {
                        self.hit(at, true)
                    } else {
                        self.fail_scan(at.goal)
                    }
                },
                _ => Ask::Idle,
            },
        }
    }

    pub(crate) fn on_scan_step(&mut self, at: ScanAt, scan: ScanStep, reply: Reply) -> (r: Ask)
        requires
            old(self)@.steady(),
            at.placed(old(self)@),
            scan_fits(scan, reply),
        ensures
            final(self)@.steady(),
            (final(self)@, r) == old(self)@.scan_step(at, scan, reply),
    {
        match scan {
            ScanStep::Chunk => self.scan_chapter_for_image(at),
            ScanStep::Resolve => self.on_scan_resolved(at, reply),
            ScanStep::Size { hash } => self.on_scan_sized(at, hash, reply),
            ScanStep::Skip => self.on_scan_saved(at, scan, reply),
            ScanStep::Find { hash, icase } => self.on_scan_found(at, hash, icase, reply),
            ScanStep::Local { hash, entry } => self.on_scan_located(at, hash, entry, reply),
            ScanStep::Decode { hash } => self.on_scan_decoded(at, hash, reply),
            ScanStep::HeadWrite { hash: _ } => self.on_scan_saved(at, scan, reply),
            ScanStep::DataWrite => self.on_scan_saved(at, scan, reply),
            ScanStep::Mark => self.on_scan_saved(at, scan, reply),
            ScanStep::Extract { hash: _ } => self.on_scan_worker(at, scan, reply),
            ScanStep::Submit => self.on_scan_worker(at, scan, reply),
        }
    }

    /// Takes the worker's result for an image.
    pub(crate) fn epub_recv_image_result(&mut self, nearby: bool, reply: Reply) -> (r: Ask)
        requires
            old(self)@.steady(),
        ensures
            final(self)@.steady(),
            (final(self)@, r) == old(self)@.image_received(nearby, reply),
    {
        match reply {
            Reply::Worker(Some(w)) => {
                if !w.current {
                    return self.rest();
                }
                match w.outcome {
                    WorkOutcome::ImageReady { hash, image } => {
                        self.set_pending(Some(image));
                        self.pose(Task::SaveHead { hash, nearby }, Ask::WriteImageHeader { hash })
                    },
                    WorkOutcome::ImageFailed { hash: _ } => self.end_image(nearby),
                    _ => self.rest(),
                }
            },
            Reply::Worker(None) => self.rest(),
            _ => Ask::Idle,
        }
    }

    fn end_image(&mut self, nearby: bool) -> (r: Ask)
        requires
            old(self)@.wf(),
        ensures
            final(self)@.steady(),
            (final(self)@, r) == old(self)@.image_done(nearby),
    {
        if nearby {
            self.go_on(Task::Nearby { k: 0, opening: false })
        } else {
            self.set_bg(BgCacheState::CacheImage);
            self.rest()
        }
    }

    pub(crate) fn on_image_head_saved(&mut self, hash: u32, nearby: bool, reply: Reply) -> (r: Ask)
        requires
            old(self)@.steady(),
        ensures
            final(self)@.steady(),
            (final(self)@, r) == old(self)@.image_head_saved(hash, nearby, reply),
    {
        match reply {
            Reply::Outcome(Ok(_)) => self.pose(
                Task::SaveData { nearby },
                Ask::AppendImage { hash },
            ),
            Reply::Outcome(Err(_)) => {
                self.set_pending(None);
                self.end_image(nearby)
            },
            _ => Ask::Idle,
        }
    }

    pub(crate) fn on_image_data_saved(&mut self, nearby: bool, reply: Reply) -> (r: Ask)
        requires
            old(self)@.steady(),
        ensures
            final(self)@.steady(),
            (final(self)@, r) == old(self)@.image_data_saved(nearby, reply),
    {
        match reply {
            Reply::Outcome(_) => {
                self.set_pending(None);
                self.end_image(nearby)
            },
            _ => Ask::Idle,
        }
    }
}

} // verus!
