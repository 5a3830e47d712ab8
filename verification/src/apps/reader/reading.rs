//! Reading a book: a page is read where it starts, a saved place is found
//! again, and images are decoded as what they are.

use vstd::prelude::*;

use crate::apps::reader::app::{ReaderView, State};
use crate::apps::reader::images::{jpeg_name, jpeg_path, png_magic, png_name, png_path, Image};
use crate::apps::reader::pages::{PagerView, PAGE_BUF};
use crate::apps::reader::work::{
    AfterLoad, Ask, DecodeJob, ImgStep, Reply, ScanAt, ScanStep, Task, ZipEntry,
};
use crate::bytes::{eq_icase, lemma_ascii_text, text_bytes};

verus! {

/// A page is being loaded, after which `next` follows.
pub open spec fn loads_for(task: Task, next: AfterLoad) -> bool {
    ||| task == (Task::Open { next })
    ||| task == (Task::PageRead { next })
    ||| task == (Task::Prefetch { next })
    ||| task == (Task::PageImage { next })
    ||| task matches Task::Img { next: n, step } && n == next
    ||| task == (Task::Loaded { next })
}

impl ReaderView {
    /// Loading a page ends in what it was begun for: every step of it either
    /// goes on for the same end, with the same page, or fails.
    pub proof fn law_loading_keeps_its_goal(self, next: AfterLoad, reply: Reply)
        requires
            loads_for(self.task, next),
            !(self.task is Loaded),
        ensures
            ({
                let r = self.resumed(reply).0;
                ||| r.state == State::Error && r.error is Some
                ||| loads_for(r.task, next) && r.pager.page == self.pager.page
            }),
    {
        match self.task {
            Task::Img { next: n, step } => {
                match step {
                    ImgStep::Resolve
                    | ImgStep::Size { .. }
                    | ImgStep::Head { .. }
                    | ImgStep::Room { .. }
                    | ImgStep::Data { .. } => self.lemma_looking_goes_on(next, step, reply),
                    _ => self.lemma_decoding_goes_on(next, step, reply),
                }
            },
            Task::PageRead { next: n } => {
                if let Reply::Bytes(Ok(d)) = reply {
                    self.lemma_paged(self.pager.with_bytes(d@), next);
                }
            },
            Task::Open { next: n } => {
                if let Reply::Start(Ok(s)) = reply {
                    self.lemma_paged(
                        PagerView { file_size: s.0, ..self.pager.with_bytes(s.1@) },
                        next,
                    );
                }
            },
            _ => {},
        }
    }

    proof fn lemma_paged(self, p: PagerView, next: AfterLoad)
        ensures
            ({
                let r = ReaderView { pager: p, ..self }.paged(next).0;
                loads_for(r.task, next) && r.pager.page == p.page
            }),
    {
    }

    proof fn lemma_looking_goes_on(self, next: AfterLoad, step: ImgStep, reply: Reply)
        requires
            self.task == (Task::Img { next, step }),
            step is Resolve || step is Size || step is Head || step is Room || step is Data,
        ensures
            loads_for(self.img_step(next, step, reply).0.task, next),
            self.img_step(next, step, reply).0.pager.page == self.pager.page,
    {
    }

    proof fn lemma_decoding_goes_on(self, next: AfterLoad, step: ImgStep, reply: Reply)
        requires
            self.task == (Task::Img { next, step }),
            !(step is Resolve || step is Size || step is Head || step is Room || step is Data),
        ensures
            loads_for(self.img_step(next, step, reply).0.task, next),
            self.img_step(next, step, reply).0.pager.page == self.pager.page,
    {
    }

    /// A place that was saved is looked for from the start of the text on, page
    /// after page; without one the page on screen is loaded.
    pub proof fn law_a_saved_place_is_looked_for(self, target: u32, reply: Reply)
        requires
            self.state == State::NeedPage,
            self.task == Task::Loop,
        ensures
            self.restore_offset == Some(target) ==> {
                let r = self.resumed(reply).0;
                &&& r.task == (Task::Restore { target })
                &&& r.pager.page == 0
                &&& r.restore_offset is None
                &&& loads_for(r.resumed(reply).0.task, AfterLoad::Restore(target))
            },
            self.restore_offset is None ==> {
                let r = self.resumed(reply).0;
                &&& loads_for(r.task, AfterLoad::Page)
                &&& r.pager.page == self.pager.page
            },
    {
    }

    /// What is read for a page is the text from where the page starts: out of
    /// the chapter's cache file in a book with chapters, else out of the book's
    /// file. Only a file of which nothing is known is opened first.
    pub proof fn law_a_page_is_read_where_it_starts(self, next: AfterLoad)
        requires
            self.pager.ch_cache.len() == 0,
            self.pager.prefetch_page != Some(self.pager.page),
        ensures
            ({
                let ask = self.load_begun(next).1;
                let at = self.pager.offsets[self.pager.page as int];
                &&& self.is_epub && self.cache.ready ==> ask == (Ask::ReadChapter {
                    ch: self.chapter,
                    offset: at,
                    len: PAGE_BUF,
                })
                &&& !(self.is_epub && self.cache.ready) && self.pager.file_size > 0 ==> ask == (
                Ask::ReadBook { offset: at, len: PAGE_BUF })
                &&& !(self.is_epub && self.cache.ready) && self.pager.file_size == 0 ==> ask == (
                Ask::OpenBook { len: PAGE_BUF })
            }),
    {
    }

    /// What was read for a page is what the page is set from, all of it and
    /// nothing else; the file's size is the one it was opened with.
    pub proof fn law_what_was_read_is_set(self, next: AfterLoad, d: Vec<u8>, size: u32)
        requires
            d@.len() <= PAGE_BUF,
            self.pager.buf.len() == PAGE_BUF,
            size > 0,
        ensures
            self.task == (Task::PageRead { next }) ==> ({
                let r = self.resumed(Reply::Bytes(Ok(d))).0;
                &&& r.pager.buf_len == d@.len()
                &&& r.pager.buf.len() == PAGE_BUF
                &&& r.pager.buf.take(d@.len() as int) == d@
                &&& r.pager.lines == r.pager.wrap(d@.len() as int).0
                &&& r.pager.file_size == self.pager.file_size
            }),
            self.task == (Task::Open { next }) ==> ({
                let r = self.resumed(Reply::Start(Ok((size, d)))).0;
                &&& r.pager.buf_len == d@.len()
                &&& r.pager.buf.take(d@.len() as int) == d@
                &&& r.pager.lines == r.pager.wrap(d@.len() as int).0
                &&& r.pager.file_size == size
            }),
    {
        let all = d@ + self.pager.buf.skip(d@.len() as int);
        assert(all.take(d@.len() as int) =~= d@);
    }

    /// What is read ahead is the text from where the next page starts.
    pub proof fn law_the_next_page_is_read_ahead(self, next: AfterLoad, reply: Reply)
        requires
            self.steady(),
            self.task == (Task::PageRead { next }),
            reply matches Reply::Bytes(Ok(d)) && d@.len() <= PAGE_BUF,
        ensures
            ({
                let (r, ask) = self.resumed(reply);
                let page = r.pager.page;
                let d = reply->Bytes_0->Ok_0@;
                &&& page == self.pager.page
                &&& r.pager.buf.take(r.pager.buf_len as int) == d
                &&& r.pager.buf_len == d.len()
                &&& page + 1 < r.pager.total_pages ==> r.task == (Task::Prefetch { next }) && ask
                    == (if self.is_epub && self.cache.ready {
                    Ask::ReadChapter {
                        ch: self.chapter,
                        offset: r.pager.offsets[page + 1],
                        len: PAGE_BUF,
                    }
                } else {
                    Ask::ReadBook { offset: r.pager.offsets[page + 1], len: PAGE_BUF }
                })
            }),
    {
        self.lemma_wf();
        let d = reply->Bytes_0->Ok_0@;
        let p = self.pager.with_bytes(d);
        assert(p.buf.take(d.len() as int) =~= d);
    }

    /// Reading ahead changes nothing: with a page read ahead, going on to it
    /// brings the same text into the buffer as reading it then would.
    pub proof fn law_reading_ahead_changes_nothing(
        self,
        next: AfterLoad,
        later: AfterLoad,
        data: Vec<u8>,
    )
        requires
            self.steady(),
            self.task == (Task::Prefetch { next }),
            self.pager.ch_cache.len() == 0,
            self.pager.page + 1 < self.pager.total_pages,
            data@.len() <= PAGE_BUF,
        ensures
            ({
                let ahead = self.resumed(Reply::Bytes(Ok(data))).0.with_page(self.pager.page + 1);
                let a = ahead.load_begun(later).0.pager;
                let then = ReaderView {
                    task: Task::PageRead { next: later },
                    ..self.with_page(self.pager.page + 1)
                };
                let b = then.resumed(Reply::Bytes(Ok(data))).0.pager;
                &&& a.buf_len == b.buf_len
                &&& a.buf.take(a.buf_len as int) == b.buf.take(b.buf_len as int)
                &&& a.buf_len == data@.len()
                &&& a.buf.take(a.buf_len as int) == data@
                &&& a.page == b.page
                &&& a.prefetch_page is None
            }),
    {
        self.lemma_wf();
        let ahead = self.resumed(Reply::Bytes(Ok(data))).0.with_page(self.pager.page + 1);
        assert(ahead.pager.prefetch_page == Some(ahead.pager.page));
        assert(ahead.pager.prefetch.take(data@.len() as int) =~= data@);
        let q = self.with_page(self.pager.page + 1).pager.with_bytes(data@);
        assert(q.buf.take(data@.len() as int) =~= data@);
    }

    /// Going to the last page of a chapter ends on its last page.
    pub proof fn law_the_last_page_is_the_last(self, reply: Reply)
        requires
            self.task == Task::Last,
            self.pager.fully_indexed,
            self.pager.total_pages > 0,
        ensures
            ({
                let r = self.resumed(reply).0;
                &&& r.pager.page == self.pager.total_pages - 1
                &&& loads_for(r.task, AfterLoad::LastFinal)
            }),
    {
    }

    /// As long as not all pages are known, the last known one is loaded on the
    /// way to the last page.
    pub proof fn law_the_way_to_the_last_page(self, reply: Reply)
        requires
            self.task == Task::Last,
            !self.pager.fully_indexed,
            0 < self.pager.total_pages < crate::apps::reader::pages::MAX_PAGES,
        ensures
            ({
                let r = self.resumed(reply).0;
                &&& r.pager.page == self.pager.total_pages - 1
                &&& loads_for(r.task, AfterLoad::LastScan)
            }),
    {
    }

    /// A page that was loaded is shown, and has to be drawn.
    pub proof fn law_a_loaded_page_is_shown(self, reply: Reply)
        requires
            self.task == (Task::Loaded { next: AfterLoad::Page }) || self.task == (Task::Loaded {
                next: AfterLoad::LastFinal,
            }),
        ensures
            ({
                let r = self.resumed(reply).0;
                &&& r == (ReaderView { state: State::Ready, dirty: true, task: Task::Tail, ..self })
            }),
    {
    }
}

/// The path ends in these bytes.
pub open spec fn path_ends(path: Seq<u8>, end: Seq<u8>) -> bool {
    path.len() >= end.len() && path.subrange(path.len() - end.len(), path.len() as int) == end
}

/// The path is that of a JPEG file.
pub open spec fn says_jpeg(path: Seq<u8>) -> bool {
    ||| path_ends(path, seq![46u8, 106u8, 112u8, 103u8])
    ||| path_ends(path, seq![46u8, 106u8, 112u8, 101u8, 103u8])
    ||| path_ends(path, seq![46u8, 74u8, 80u8, 71u8])
    ||| path_ends(path, seq![46u8, 74u8, 80u8, 69u8, 71u8])
}

/// The path is that of a PNG file.
pub open spec fn says_png(path: Seq<u8>) -> bool {
    ||| path_ends(path, seq![46u8, 112u8, 110u8, 103u8])
    ||| path_ends(path, seq![46u8, 80u8, 78u8, 71u8])
}

proof fn lemma_names()
    ensures
        text_bytes(".jpg") == seq![46u8, 106u8, 112u8, 103u8],
        text_bytes(".jpeg") == seq![46u8, 106u8, 112u8, 101u8, 103u8],
        text_bytes(".JPG") == seq![46u8, 74u8, 80u8, 71u8],
        text_bytes(".JPEG") == seq![46u8, 74u8, 80u8, 69u8, 71u8],
        text_bytes(".png") == seq![46u8, 112u8, 110u8, 103u8],
        text_bytes(".PNG") == seq![46u8, 80u8, 78u8, 71u8],
        text_bytes("jpg") == seq![106u8, 112u8, 103u8],
        text_bytes("jpeg") == seq![106u8, 112u8, 101u8, 103u8],
        text_bytes("png") == seq![112u8, 110u8, 103u8],
{
    reveal_strlit(".jpg");
    reveal_strlit(".jpeg");
    reveal_strlit(".JPG");
    reveal_strlit(".JPEG");
    reveal_strlit(".png");
    reveal_strlit(".PNG");
    reveal_strlit("jpg");
    reveal_strlit("jpeg");
    reveal_strlit("png");
    lemma_ascii_text(".jpg");
    lemma_ascii_text(".jpeg");
    lemma_ascii_text(".JPG");
    lemma_ascii_text(".JPEG");
    lemma_ascii_text(".png");
    lemma_ascii_text(".PNG");
    lemma_ascii_text("jpg");
    lemma_ascii_text("jpeg");
    lemma_ascii_text("png");
    assert(text_bytes(".jpg") =~= seq![46u8, 106u8, 112u8, 103u8]);
    assert(text_bytes(".jpeg") =~= seq![46u8, 106u8, 112u8, 101u8, 103u8]);
    assert(text_bytes(".JPG") =~= seq![46u8, 74u8, 80u8, 71u8]);
    assert(text_bytes(".JPEG") =~= seq![46u8, 74u8, 80u8, 69u8, 71u8]);
    assert(text_bytes(".png") =~= seq![46u8, 112u8, 110u8, 103u8]);
    assert(text_bytes(".PNG") =~= seq![46u8, 80u8, 78u8, 71u8]);
    assert(text_bytes("jpg") =~= seq![106u8, 112u8, 103u8]);
    assert(text_bytes("jpeg") =~= seq![106u8, 112u8, 101u8, 103u8]);
    assert(text_bytes("png") =~= seq![112u8, 110u8, 103u8]);
}

/// The names that say JPEG and those that say PNG are told apart.
proof fn lemma_kinds(path: Seq<u8>)
    ensures
        says_jpeg(path) == jpeg_name(path),
        says_png(path) == png_name(path),
        !(says_jpeg(path) && says_png(path)),
{
    lemma_names();
    let n = path.len() as int;
    if n >= 4 {
        assert(path.skip(n - 4) =~= path.subrange(n - 4, n));
        assert(path.skip(n - 4)[2] == path[n - 2]);
    }
    if n >= 5 {
        assert(path.skip(n - 5) =~= path.subrange(n - 5, n));
        assert(path.skip(n - 5)[3] == path[n - 2]);
    }
}

impl ReaderView {
    /// A page's image is decoded as what its path says it is, and out of the
    /// bytes behind its local header. Where the path says nothing, the first
    /// bytes tell, if they are stored as they are; else the image is left.
    pub proof fn law_images_are_decoded_as_what_they_are(
        self,
        next: AfterLoad,
        hash: u32,
        entry: ZipEntry,
        skip: u32,
    )
        requires
            self.task == (Task::Img { next, step: ImgStep::Local { hash, entry } }),
            entry.local_offset + skip <= u32::MAX,
        ensures
            ({
                let (r, ask) = self.resumed(Reply::Size(Ok(skip)));
                let data = (entry.local_offset + skip) as u32;
                &&& says_jpeg(self.scratch) ==> ask is Decode && ask->job.is_jpeg
                &&& says_png(self.scratch) ==> ask is Decode && !ask->job.is_jpeg
                &&& ask matches Ask::Decode { job } ==> {
                    &&& job.data_offset == data
                    &&& job.stored == entry.stored
                    &&& job.comp_size == entry.comp_size
                    &&& job.uncomp_size == entry.uncomp_size
                    &&& job.max_w == self.pager.text_w as u16
                    &&& r.task == (Task::Img { next, step: ImgStep::Decode { hash, job } })
                }
                &&& !says_jpeg(self.scratch) && !says_png(self.scratch) ==> {
                    &&& entry.stored ==> ask == (Ask::ReadBook { offset: data, len: 8 })
                    &&& !entry.stored ==> r.task == (Task::Loaded { next })
                }
            }),
    {
        lemma_kinds(self.scratch);
    }

    /// An image whose name says nothing is decoded by its first bytes.
    pub proof fn law_first_bytes_tell_the_kind(
        self,
        next: AfterLoad,
        hash: u32,
        entry: ZipEntry,
        data_offset: u32,
        head: Vec<u8>,
    )
        requires
            self.task == (Task::Img { next, step: ImgStep::Magic { hash, entry, data_offset } }),
        ensures
            ({
                let ask = self.resumed(Reply::Bytes(Ok(head))).1;
                let jpeg = head@.len() >= 2 && head@[0] == 0xFF && head@[1] == 0xD8;
                let png = head@.len() >= 8 && head@[0] == 0x89 && head@[1] == 0x50 && head@[2]
                    == 0x4E && head@[3] == 0x47 && head@[4] == 0x0D && head@[5] == 0x0A && head@[6]
                    == 0x1A && head@[7] == 0x0A;
                &&& jpeg ==> ask is Decode && ask->job.is_jpeg && ask->job.data_offset
                    == data_offset
                &&& png ==> ask is Decode && !ask->job.is_jpeg && ask->job.data_offset
                    == data_offset
                &&& !jpeg && !png ==> !(ask is Decode)
            }),
    {
        let sig = seq![137u8, 80u8, 78u8, 71u8, 13u8, 10u8, 26u8, 10u8];
        if head@.len() >= 8 {
            let t = head@.take(8);
            assert(t[0] == head@[0] && t[1] == head@[1] && t[2] == head@[2] && t[3] == head@[3]
                && t[4] == head@[4] && t[5] == head@[5] && t[6] == head@[6] && t[7] == head@[7]);
            if png_magic(head@) {
                assert(t == sig);
                assert(sig[0] == 137 && sig[1] == 80 && sig[2] == 78 && sig[3] == 71 && sig[4]
                    == 13 && sig[5] == 10 && sig[6] == 26 && sig[7] == 10);
            } else if head@[0] == 0x89 && head@[1] == 0x50 && head@[2] == 0x4E && head@[3] == 0x47
                && head@[4] == 0x0D && head@[5] == 0x0A && head@[6] == 0x1A && head@[7] == 0x0A {
                assert(t =~= sig);
            }
        }
    }

    /// An image that was decoded for a page is the one that the page shows,
    /// whether or not it could be saved. A decoding that failed is tried once
    /// more, as it was, where the chapter can make room.
    pub proof fn law_the_decoded_image_is_shown(
        self,
        next: AfterLoad,
        hash: u32,
        job: DecodeJob,
        img: Image,
        head: Result<(), &'static str>,
        data: Result<(), &'static str>,
        e: &'static str,
    )
        requires
            self.task == (Task::Img { next, step: ImgStep::Decode { hash, job } }),
        ensures
            ({
                let (r1, ask1) = self.resumed(Reply::Decoded(Ok(img)));
                let (r2, ask2) = r1.resumed(Reply::Outcome(head));
                let r3 = r2.resumed(Reply::Outcome(data)).0;
                &&& ask1 == (Ask::WriteImageHeader { hash })
                &&& r1.pending_img == Some(img@)
                &&& head is Ok ==> ask2 == (Ask::AppendImage { hash }) && r2.pending_img == Some(
                    img@,
                ) && r3.page_img == Some(img@) && r3.task == (Task::Loaded { next })
                &&& head is Err ==> r2.page_img == Some(img@) && r2.task == (Task::Loaded { next })
                &&& self.pager.ch_cache.len() > 0 ==> self.resumed(Reply::Decoded(Err(e))).1 == (
                Ask::Decode { job }) && self.resumed(Reply::Decoded(Err(e))).0.pager.ch_cache.len()
                    == 0
                &&& self.pager.ch_cache.len() == 0 ==> self.resumed(Reply::Decoded(Err(e))).0.task
                    == (Task::Loaded { next })
            }),
    {
    }

    /// An image is looked for in the cache, saved to it and decoded under the
    /// hash of its path alone.
    pub proof fn law_an_image_keeps_its_hash(self, next: AfterLoad, step: ImgStep, reply: Reply)
        requires
            self.task == (Task::Img { next, step }),
            hash_of(step) is Some,
        ensures
            ({
                let (r, ask) = self.resumed(reply);
                &&& r.task matches Task::Img { next: n, step: s } ==> n == next && (hash_of(s)
                    is Some ==> hash_of(s) == hash_of(step))
                &&& ask matches Ask::ReadImage { hash, offset, len } ==> Some(hash) == hash_of(step)
                &&& ask matches Ask::WriteImageHeader { hash } ==> Some(hash) == hash_of(step)
                &&& ask matches Ask::AppendImage { hash } ==> Some(hash) == hash_of(step)
            }),
    {
    }

    /// The image that a page asks for is looked for in the cache first.
    pub proof fn law_the_cache_is_asked_first(self, next: AfterLoad, hash: u32, path: Vec<u8>)
        requires
            self.task == (Task::Img { next, step: ImgStep::Resolve }),
            vstd::utf8::valid_utf8(path@),
        ensures
            ({
                let (r, ask) = self.resumed(Reply::Resolved(hash, path));
                &&& ask == (Ask::ImageSize { hash })
                &&& r.task == (Task::Img { next, step: ImgStep::Size { hash } })
                &&& r.scratch == path@
            }),
    {
    }

    /// In the search for images, too, an image is decoded as what its path says
    /// it is, in whatever case that is written.
    pub proof fn law_found_images_are_decoded_as_what_they_are(
        self,
        at: ScanAt,
        hash: u32,
        entry: ZipEntry,
        skip: u32,
    )
        requires
            entry.local_offset + skip <= u32::MAX,
            self.scratch.len() >= 4,
        ensures
            ({
                let p = self.scratch;
                let n = p.len() as int;
                let jpeg = (p[n - 4] == 46 && eq_icase(
                    p.subrange(n - 3, n),
                    seq![106u8, 112u8, 103u8],
                )) || (n >= 5 && p[n - 5] == 46 && eq_icase(
                    p.subrange(n - 4, n),
                    seq![106u8, 112u8, 101u8, 103u8],
                ));
                let png = p[n - 4] == 46 && eq_icase(
                    p.subrange(n - 3, n),
                    seq![112u8, 110u8, 103u8],
                );
                let local = ReaderView {
                    task: Task::Scan { at, scan: ScanStep::Local { hash, entry } },
                    ..self
                };
                let extract = ReaderView {
                    task: Task::Scan { at, scan: ScanStep::Extract { hash } },
                    ..self
                };
                let size = ReaderView {
                    task: Task::Scan { at, scan: ScanStep::Size { hash } },
                    ..self
                };
                &&& local.resumed(Reply::Size(Ok(skip))).1 matches Ask::Decode { job }
                    && job.is_jpeg == jpeg && job.data_offset == entry.local_offset + skip
                    && job.stored == entry.stored && job.comp_size == entry.comp_size
                    && job.uncomp_size == entry.uncomp_size
                &&& extract.resumed(Reply::Outcome(Ok(()))).1 matches Ask::SubmitImage {
                    hash: h,
                    is_jpeg,
                    max_w,
                    max_h,
                } && h == hash && is_jpeg == jpeg
                &&& size.resumed(Reply::Size(Err("open file failed"))).1 == (if jpeg || png {
                    Ask::FindEntry { icase: false }
                } else {
                    Ask::SkipImage { hash }
                })
            }),
    {
        lemma_names();
        let p = self.scratch;
        let n = p.len() as int;
        assert(p.skip(n - 3) =~= p.subrange(n - 3, n));
        assert(p.skip(n - 4) =~= p.subrange(n - 4, n));
        assert(jpeg_path(p) == ((p[n - 4] == 46 && eq_icase(
            p.subrange(n - 3, n),
            seq![106u8, 112u8, 103u8],
        )) || (n >= 5 && p[n - 5] == 46 && eq_icase(
            p.subrange(n - 4, n),
            seq![106u8, 112u8, 101u8, 103u8],
        ))));
        assert(png_path(p) == (p[n - 4] == 46 && eq_icase(
            p.subrange(n - 3, n),
            seq![112u8, 110u8, 103u8],
        )));
    }
}

/// The hash of the image that a step is about.
pub open spec fn hash_of(step: ImgStep) -> Option<u32> {
    match step {
        ImgStep::Resolve => None,
        ImgStep::Size { hash } => Some(hash),
        ImgStep::Head { hash, size } => Some(hash),
        ImgStep::Room { hash, width, height } => Some(hash),
        ImgStep::Data { hash, width, height } => Some(hash),
        ImgStep::Find { hash, icase } => Some(hash),
        ImgStep::Local { hash, entry } => Some(hash),
        ImgStep::Magic { hash, entry, data_offset } => Some(hash),
        ImgStep::Decode { hash, job } => Some(hash),
        ImgStep::HeadWrite { hash } => Some(hash),
        ImgStep::DataWrite => None,
    }
}

} // verus!
