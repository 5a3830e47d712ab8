//! What the reader has written: names, titles, chapters, images, and the
//! record of the chapter cache.

use vstd::prelude::*;

use crate::apps::reader::app::{ReaderApp, ReaderView, State, TITLE_CAP};
use crate::apps::reader::images::{
    header_of, image_header, lemma_image_dims, padded, row_bytes, whole_image, ImageView,
};
use crate::apps::reader::work::{
    least, AfterLoad, Ask, ImgStep, Opf, Reply, Task, WorkOutcome, WorkResult,
};
use crate::bytes::push_bytes;

verus! {

/// The record of a book's chapter cache.
pub struct CacheRecord {
    /// The size of the book's file.
    pub epub_size: u32,
    /// The size of each chapter's text.
    pub sizes: Vec<u32>,
}

pub open spec fn bytes_of(b: Option<Vec<u8>>) -> Option<Seq<u8>> {
    match b {
        Some(b) => Some(b@),
        None => None,
    }
}

fn copied(b: &[u8]) -> (r: Vec<u8>)
    ensures
        r@ == b@,
{
    let mut out: Vec<u8> = Vec::new();
    push_bytes(&mut out, b);
    assert(out@ =~= b@);
    out
}

impl ReaderView {
    /// The bytes that a question has written or appended; the cache's record
    /// is not among them. Nothing is written for other questions, nor without
    /// an image that waits to be saved.
    pub open spec fn written(self, ask: Ask) -> Option<Seq<u8>> {
        match ask {
            Ask::WriteRecent => Some(self.filename),
            Ask::SaveTitle => Some(self.scratch),
            Ask::TruncateChapter { ch } => Some(Seq::empty()),
            Ask::WriteChapter { ch } => Some(self.scratch),
            Ask::WriteImageHeader { hash } => match self.pending_img {
                Some(i) => Some(header_of(i.width, i.height)),
                None => None,
            },
            Ask::AppendImage { hash } => match self.pending_img {
                Some(i) => Some(i.data),
                None => None,
            },
            Ask::SkipImage { hash } => Some(Seq::empty()),
            _ => None,
        }
    }

    /// The sizes that the cache's record holds: one for each chapter.
    pub open spec fn recorded_sizes(self) -> Seq<u32> {
        self.cache.sizes.take(self.spine.len() as int)
    }
}

impl ReaderApp {
    /// The bytes that `ask` has written or appended.
    pub fn bytes_to_write(&self, ask: Ask) -> (r: Option<Vec<u8>>)
        ensures
            bytes_of(r) == self@.written(ask),
    {
        match ask {
            Ask::WriteRecent => Some(copied(self.filename().as_slice())),
            Ask::SaveTitle => Some(copied(self.scratch().as_slice())),
            Ask::TruncateChapter { ch: _ } | Ask::SkipImage { hash: _ } => {
                let none: Vec<u8> = Vec::new();
                assert(none@ =~= Seq::empty());
                Some(none)
            },
            Ask::WriteChapter { ch: _ } => Some(copied(self.scratch().as_slice())),
            Ask::WriteImageHeader { hash: _ } => match self.waiting_image() {
                Some(i) => Some(image_header(i)),
                None => None,
            },
            Ask::AppendImage { hash: _ } => match self.waiting_image() {
                Some(i) => Some(copied(i.data.as_slice())),
                None => None,
            },
            _ => None,
        }
    }

    /// The record that `Ask::WriteMeta` has written.
    pub fn cache_record(&self) -> (r: CacheRecord)
        requires
            self@.wf(),
        ensures
            r.epub_size == self@.cache.epub_size,
            r.sizes@ == self@.recorded_sizes(),
    {
        proof {
            self@.lemma_wf();
        }
        let n = self.spine().len();
        let mut sizes: Vec<u32> = Vec::new();
        let mut i: usize = 0;
        while i < n
            invariant
                i <= n <= self@.cache.sizes.len(),
                sizes@ == self@.cache.sizes.take(i as int),
            decreases n - i,
        {
            sizes.push(self.cache().sizes[i]);
            i += 1;
            assert(sizes@ =~= self@.cache.sizes.take(i as int));
        }
        CacheRecord { epub_size: self.cache().epub_size, sizes }
    }
}

impl ReaderView {
    /// A book that is opened is noted by its name.
    pub proof fn law_the_book_is_noted(self, bm: crate::kernel::bookmarks::CacheView)
        requires
            self.state == State::NeedBookmark,
        ensures
            self.ticked(bm).1 == Ask::WriteRecent,
            self.ticked(bm).0.written(Ask::WriteRecent) == Some(self.filename),
    {
    }

    /// A book's title is saved as the package document gives it. As much of it
    /// as there is room for is shown.
    pub proof fn law_the_title_is_saved_whole(self, o: Opf)
        requires
            self.task == Task::OpfParse,
            o.title@.len() > 0,
        ensures
            self.resumed(Reply::Opf(Ok(o))).1 == Ask::SaveTitle,
            self.resumed(Reply::Opf(Ok(o))).0.written(Ask::SaveTitle) == Some(o.title@),
            self.resumed(Reply::Opf(Ok(o))).0.title == o.title@.take(
                least(o.title@.len() as int, TITLE_CAP as int),
            ),
    {
    }

    /// The text that the worker made of a chapter is what is written, and the
    /// size that the record will hold is that of the text.
    pub proof fn law_the_text_is_written(self, w: WorkResult, ch: u16, text: Vec<u8>)
        requires
            self.steady(),
            self.task == Task::RecvChapter,
            self.fits(Reply::Worker(Some(w))),
            w.current,
            w.outcome == (WorkOutcome::ChapterReady { ch, text }),
            !self.cache.done[ch as int],
            ch < self.spine.len(),
        ensures
            ({
                let (r, ask) = self.resumed(Reply::Worker(Some(w)));
                let kept = r.resumed(Reply::Outcome(Ok(()))).0;
                &&& ask == (Ask::WriteChapter { ch })
                &&& r.written(ask) == Some(text@)
                &&& kept.cache.done[ch as int]
                &&& kept.recorded_sizes()[ch as int] == text@.len()
            }),
    {
        self.lemma_wf();
    }

    /// What is written of an image and read back later is the image: the page
    /// shows it out of the cache as it was decoded.
    pub proof fn law_image_round_trip(
        self,
        later: ReaderView,
        i: ImageView,
        hash: u32,
        next: AfterLoad,
        size: u32,
        head: Vec<u8>,
        data: Vec<u8>,
    )
        requires
            whole_image(i),
            self.pending_img == Some(i),
            size == self.written(Ask::WriteImageHeader { hash })->0.len() + self.written(
                Ask::AppendImage { hash },
            )->0.len(),
            head@ == self.written(Ask::WriteImageHeader { hash })->0,
            data@ == self.written(Ask::AppendImage { hash })->0,
            later.task == (Task::Img { next, step: ImgStep::Size { hash } }),
        ensures
            ({
                let (r1, ask1) = later.resumed(Reply::Size(Ok(size)));
                let (r2, ask2) = r1.resumed(Reply::Bytes(Ok(head)));
                let (r3, ask3) = r2.resumed(Reply::Flag(true));
                let (r4, ask4) = r3.resumed(Reply::Bytes(Ok(data)));
                &&& ask1 == (Ask::ReadImage { hash, offset: 0, len: 4 })
                &&& ask2 == (Ask::Room { len: data@.len() as usize })
                &&& ask3 == (Ask::ReadImage { hash, offset: 4, len: data@.len() as usize })
                &&& r4 == (ReaderView {
                    page_img: Some(i),
                    task: Task::Loaded { next },
                    ..later
                })
            }),
    {
        lemma_image_dims(i);
        assert(header_of(i.width, i.height).len() == 4);
        assert(padded(data@, row_bytes(i.width as int) * i.height) =~= i.data);
    }
}

} // verus!
