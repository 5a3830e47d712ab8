//! The search for images: which chapters it goes through, that it comes to
//! every image, and that an image is saved under its own hash.

use vstd::prelude::*;

use crate::apps::reader::app::{ReaderView, State};
use crate::apps::reader::cache::BgCacheState;
use crate::apps::reader::images::{header_of, Image};
use crate::apps::reader::pages::PagerView;
use crate::apps::reader::work::{
    first_origin, has_text, image_src, near, AfterLoad, AfterScan, Ask, Reply, ScanAt, ScanStep,
    Task, WorkOutcome, WorkResult, ZipEntry, PRECACHE_IMG_MAX,
    SRC_CAP,
};
use crate::apps::reader::wrap::{LineSpan, IMAGE_DISPLAY_H};

verus! {

/// The chapters near one are itself and those up to two away, all of them, and
/// nearer ones before those farther away.
pub proof fn law_near_is_near(r: int, c: int, j: int, k: int)
    requires
        0 <= r,
        0 <= c,
        r - 2 <= c <= r + 2,
        0 <= j < k < 5,
    ensures
        exists|i: int| 0 <= i < 5 && #[trigger] near(r, i) == c,
        0 <= near(r, k),
        r - 2 <= near(r, k) <= r + 2,
        near(r, 0) == r,
        r >= 2 ==> farness(near(r, j), r) <= farness(near(r, k), r),
        r >= 2 ==> near(r, j) != near(r, k),
{
    let i = if c == r {
        0
    } else if c == r + 1 {
        1
    } else if c == r - 1 {
        2int
    } else if c == r + 2 {
        3
    } else {
        4
    };
    assert(near(r, i) == c);
}

/// How far apart two chapters are.
pub open spec fn farness(a: int, b: int) -> int {
    if a < b {
        b - a
    } else {
        a - b
    }
}

/// The hash of the image that a step of the search is about.
pub open spec fn sought(step: ScanStep) -> Option<u32> {
    match step {
        ScanStep::Size { hash } => Some(hash),
        ScanStep::Find { hash, icase } => Some(hash),
        ScanStep::Local { hash, entry } => Some(hash),
        ScanStep::Decode { hash } => Some(hash),
        ScanStep::HeadWrite { hash } => Some(hash),
        ScanStep::Extract { hash } => Some(hash),
        _ => None,
    }
}

/// The hash that something is written or handed to the worker under.
pub open spec fn named_by(ask: Ask) -> Option<u32> {
    match ask {
        Ask::ImageSize { hash } => Some(hash),
        Ask::ReadImage { hash, offset, len } => Some(hash),
        Ask::WriteImageHeader { hash } => Some(hash),
        Ask::AppendImage { hash } => Some(hash),
        Ask::SkipImage { hash } => Some(hash),
        Ask::SubmitImage { hash, is_jpeg, max_w, max_h } => Some(hash),
        _ => None,
    }
}

impl ReaderView {
    /// Every chapter near the one on screen that is cached is searched from its
    /// start, one after the other, and then caching goes on.
    pub proof fn law_near_chapters_are_searched(self, k: u8, opening: bool, reply: Reply)
        requires
            self.task == (Task::Nearby { k, opening }),
            self.cache.wf(),
            self.spine.len() <= self.cache.room(),
        ensures
            ({
                let ch = near(self.chapter as int, k as int);
                let (r, ask) = self.resumed(reply);
                &&& k < 5 && ch < self.spine.len() && self.cache.done[ch] && self.cache.sizes[ch]
                    > 0 ==> ask is ReadChapter && ask->ReadChapter_ch == ch
                    && ask->ReadChapter_offset == 0
                &&& k < 5 && !(ask is ReadChapter) ==> r.task == (Task::Nearby {
                    k: (k + 1) as u8,
                    opening,
                })
                &&& k >= 5 ==> r.cache.bg == BgCacheState::CacheChapter
                &&& k >= 5 && opening ==> r.state == State::NeedIndex
                &&& k >= 5 && !opening ==> r.task == Task::Rest && r.state == self.state
            }),
    {
    }

    /// The search through the whole book goes on to the next chapter with each
    /// that has no more, starts over once at the first, and is given up only
    /// when it is back where it began.
    pub proof fn law_the_whole_book_is_searched(self, reply: Reply)
        requires
            self.task == Task::Find,
            self.cache.wf(),
            self.spine.len() <= self.cache.room(),
        ensures
            ({
                let c = self.cache;
                let (r, ask) = self.resumed(reply);
                let ahead = c.img_ch < self.spine.len() && (c.img_wrapped ==> c.img_ch
                    < self.chapter);
                &&& ahead && c.done[c.img_ch as int] && c.img_offset < c.sizes[c.img_ch as int]
                    ==> ask is ReadChapter && ask->ReadChapter_ch == c.img_ch
                    && ask->ReadChapter_offset == c.img_offset
                &&& ahead && !(ask is ReadChapter) ==> r.task == Task::Find && r.cache.img_ch
                    == c.img_ch + 1 && r.cache.img_offset == 0 && r.cache.img_wrapped
                    == c.img_wrapped
                &&& !ahead && !c.img_wrapped && self.chapter > 0 ==> r.cache.img_wrapped
                    && r.cache.img_ch == 0 && r.cache.img_offset == 0 && r.cache.bg == c.bg
                &&& r.cache.bg == BgCacheState::Idle && c.bg != BgCacheState::Idle ==> !ahead && (
                c.img_wrapped || self.chapter == 0)
            }),
    {
    }

    /// What the search does for an image it does under the image's hash alone,
    /// and it stays at its place in the text meanwhile.
    pub proof fn law_the_search_keeps_the_hash(self, at: ScanAt, step: ScanStep, reply: Reply)
        requires
            self.task == (Task::Scan { at, scan: step }),
            sought(step) is Some,
        ensures
            ({
                let (r, ask) = self.resumed(reply);
                &&& named_by(ask) is Some ==> named_by(ask) == sought(step)
                &&& r.task matches Task::Scan { at: on, scan } ==> on == at && (sought(scan)
                    is Some ==> sought(scan) == sought(step))
            }),
    {
    }

    /// An image that has its cache file is passed over; one that has none is
    /// looked for in the archive, unpacked for the worker where it is small, and
    /// decoded at once where it is large.
    pub proof fn law_missing_images_are_made(
        self,
        at: ScanAt,
        hash: u32,
        entry: ZipEntry,
        icase: bool,
        size: u32,
    )
        ensures
            ({
                let sized = ReaderView {
                    task: Task::Scan { at, scan: ScanStep::Size { hash } },
                    ..self
                };
                let found = ReaderView {
                    task: Task::Scan { at, scan: ScanStep::Find { hash, icase } },
                    ..self
                };
                let (r, ask) = found.resumed(Reply::Entry(Some(entry)));
                &&& sized.resumed(Reply::Size(Ok(size))).0.task == (Task::Scan {
                    at,
                    scan: ScanStep::Chunk,
                })
                &&& entry.uncomp_size <= PRECACHE_IMG_MAX ==> ask == (Ask::ExtractImage {
                    idx: entry.idx,
                })
                &&& entry.uncomp_size > PRECACHE_IMG_MAX ==> ask == (Ask::LocalHeader {
                    offset: entry.local_offset,
                })
                &&& !icase ==> found.resumed(Reply::Entry(None)).1 == (Ask::FindEntry {
                    icase: true,
                })
                &&& icase ==> found.resumed(Reply::Entry(None)).0.task == (Task::Scan {
                    at,
                    scan: ScanStep::Chunk,
                })
            }),
    {
    }

    /// A decoded image is written whole, its header and then its rows, both
    /// under its hash, whether it was decoded here or by the worker.
    pub proof fn law_decoded_images_are_saved(
        self,
        at: ScanAt,
        hash: u32,
        nearby: bool,
        image: Image,
        w: WorkResult,
    )
        requires
            w.current,
            w.outcome == (WorkOutcome::ImageReady { hash, image }),
        ensures
            ({
                let here = ReaderView {
                    task: Task::Scan { at, scan: ScanStep::Decode { hash } },
                    ..self
                };
                let (r1, ask1) = here.resumed(Reply::Decoded(Ok(image)));
                let (r2, ask2) = r1.resumed(Reply::Outcome(Ok(())));
                let there = ReaderView { task: Task::RecvImage { nearby }, ..self };
                let (r3, ask3) = there.resumed(Reply::Worker(Some(w)));
                let (r4, ask4) = r3.resumed(Reply::Outcome(Ok(())));
                &&& ask1 == (Ask::WriteImageHeader { hash }) && ask3 == ask1
                &&& ask2 == (Ask::AppendImage { hash }) && ask4 == ask2
                &&& r1.written(ask1) == Some(header_of(image.width, image.height))
                &&& r3.written(ask3) == Some(header_of(image.width, image.height))
                &&& r2.written(ask2) == Some(image.data@)
                &&& r4.written(ask4) == Some(image.data@)
            }),
    {
    }

    /// The search goes on behind an image once it is dealt with: where it left
    /// off in the text, in the chapter it was in.
    pub proof fn law_the_search_goes_on(self, at: ScanAt, reply: Reply)
        requires
            at.goal == AfterScan::Find,
            at.offset + at.i <= u32::MAX,
            self.task == (Task::Scan { at, scan: ScanStep::Mark }) && reply is Outcome || self.task
                == (Task::Scan { at, scan: ScanStep::DataWrite }) && reply is Outcome || self.task
                == (Task::Scan { at, scan: ScanStep::Submit }) && reply == Reply::Flag(true),
        ensures
            ({
                let r = self.resumed(reply).0;
                &&& r.cache.img_offset == at.offset + at.i
                &&& r.cache.img_ch == self.cache.img_ch
                &&& r.cache.img_wrapped == self.cache.img_wrapped
                &&& r.task == Task::FindBusy
                &&& r.resumed(Reply::Flag(true)).0.cache.bg == self.cache.bg
                &&& r.resumed(Reply::Flag(false)).0.cache.bg == BgCacheState::WaitImage
            }),
    {
    }

    /// A page that is nothing but an image has it on all of the screen; among
    /// text it has the rows of its lines. Either way it is the image that the
    /// page's text names, in the page's chapter.
    pub proof fn law_the_image_of_the_page_is_looked_for(self, next: AfterLoad, reply: Reply)
        requires
            self.task == (Task::PageImage { next }),
            self.is_epub,
            self.spine.len() > 0,
            vstd::utf8::valid_utf8(image_src(self.pager)),
            image_src(self.pager).len() > 0,
        ensures
            ({
                let (r, ask) = self.resumed(reply);
                &&& ask == (Ask::ResolveImage { ch: self.chapter })
                &&& r.scratch == image_src(self.pager)
                &&& r.page_img is None
                &&& r.fullscreen_img <==> first_origin(self.pager.lines, 0) is Some && !has_text(
                    self.pager.lines,
                )
                &&& forall|e: ZipEntry, at: u32, j: bool|
                    (#[trigger] r.img_job(e, at, j)).max_h == if r.fullscreen_img {
                        self.screen.text_area()
                    } else {
                        IMAGE_DISPLAY_H
                    }
            }),
    {
    }
}

proof fn lemma_first_origin(lines: Seq<LineSpan>, i: int, k: int)
    requires
        0 <= i <= k <= lines.len(),
        forall|j: int| i <= j < k ==> !(#[trigger] lines[j]).image_origin(),
        k < lines.len() ==> lines[k].image_origin(),
    ensures
        first_origin(lines, i) == if k < lines.len() {
            Some(k)
        } else {
            None
        },
    decreases k - i,
{
    if i < k {
        lemma_first_origin(lines, i + 1, k);
    }
}

/// The image of a page is the first that its lines name, by the whole path that
/// stands there; a page without a line of an image has none.
pub proof fn law_the_first_image_is_shown(p: PagerView, k: int)
    requires
        0 <= k <= p.lines.len(),
        forall|j: int| 0 <= j < k ==> (#[trigger] p.lines[j]).flags < 8 || p.lines[j].len == 0,
        k < p.lines.len() ==> p.lines[k].flags == 8 && 0 < p.lines[k].len <= SRC_CAP
            && p.lines[k].start + p.lines[k].len <= p.buf_len <= p.buf.len(),
    ensures
        k < p.lines.len() ==> first_origin(p.lines, 0) == Some(k) && image_src(p) == p.buf.subrange(
            p.lines[k].start as int,
            p.lines[k].start + p.lines[k].len,
        ),
        k == p.lines.len() ==> first_origin(p.lines, 0) is None && image_src(p).len() == 0,
{
    lemma_first_origin(p.lines, 0, k);
}

/// A page has text where a line that is none of an image's holds any.
pub proof fn law_text_is_what_is_no_image(lines: Seq<LineSpan>, i: int)
    requires
        0 <= i < lines.len(),
        forall|j: int| 0 <= j < lines.len() ==> (#[trigger] lines[j]).flags <= 8,
    ensures
        lines[i].flags < 8 && lines[i].len > 0 ==> has_text(lines),
        (forall|j: int|
            0 <= j < lines.len() ==> (#[trigger] lines[j]).flags == 8 || lines[j].len == 0)
            ==> !has_text(lines),
{
}

} // verus!
