//! Which chapters of a book are cached, and how far the background work on
//! chapters and images has come.

use vstd::prelude::*;

use crate::apps::reader::pages::{zeros32, MAX_TEXT};

verus! {

/// What the background work is at. It goes on while the user reads.
#[derive(Debug, Clone, Copy, PartialEq, Eq, Structural)]
pub enum BgCacheState {
    Idle,
    CacheChapter,
    WaitChapter,
    WaitNearbyImage,
    CacheImage,
    WaitImage,
}

pub struct ChapterCache {
    /// The size of the book's file.
    pub epub_size: u32,
    /// The size of the text of each cached chapter.
    pub sizes: Vec<u32>,
    /// The chapters whose text is cached.
    pub done: Vec<bool>,
    /// Chapters are read from the cache.
    pub ready: bool,
    /// The next chapter to cache.
    pub next: u16,
    /// Where the search for images goes on.
    pub img_ch: u16,
    pub img_offset: u32,
    /// The search has gone back to the first chapter.
    pub img_wrapped: bool,
    pub bg: BgCacheState,
}

/// The value of a chapter cache.
pub struct CacheView {
    pub epub_size: u32,
    pub sizes: Seq<u32>,
    pub done: Seq<bool>,
    pub ready: bool,
    pub next: u16,
    pub img_ch: u16,
    pub img_offset: u32,
    pub img_wrapped: bool,
    pub bg: BgCacheState,
}

impl View for ChapterCache {
    type V = CacheView;

    open spec fn view(&self) -> CacheView {
        CacheView {
            epub_size: self.epub_size,
            sizes: self.sizes@,
            done: self.done@,
            ready: self.ready,
            next: self.next,
            img_ch: self.img_ch,
            img_offset: self.img_offset,
            img_wrapped: self.img_wrapped,
            bg: self.bg,
        }
    }
}

/// The number after `n`, starting over after the last.
pub open spec fn counted_up(n: u16) -> u16 {
    if n == u16::MAX {
        0
    } else {
        (n + 1) as u16
    }
}

pub fn count_up(n: u16) -> (r: u16)
    ensures
        r == counted_up(n),
{
    if n == u16::MAX {
        0
    } else {
        n + 1
    }
}

pub open spec fn none_done(n: nat) -> Seq<bool> {
    Seq::new(n, |i: int| false)
}

impl CacheView {
    pub open spec fn wf(self) -> bool {
        &&& 0 < self.sizes.len() <= u16::MAX
        &&& self.done.len() == self.sizes.len()
        &&& forall|i: int| 0 <= i < self.sizes.len() ==> #[trigger] self.sizes[i] <= MAX_TEXT
    }

    /// For how many chapters there is room.
    pub open spec fn room(self) -> int {
        self.sizes.len() as int
    }

    /// Chapter `ch` was cached with `size` bytes of text.
    pub open spec fn with_chapter(self, ch: int, size: u32) -> CacheView {
        CacheView {
            sizes: self.sizes.update(ch, size),
            done: self.done.update(ch, true),
            ..self
        }
    }

    /// The next chapter from `n` on that is not cached, or `end`.
    pub open spec fn next_open(self, n: int, end: int) -> int
        decreases end - n,
    {
        if n < end && self.done[n] {
            self.next_open(n + 1, end)
        } else {
            n
        }
    }

    /// The search for images, begun at chapter `ch`.
    pub open spec fn image_search(self, ch: u16) -> CacheView {
        CacheView {
            img_ch: ch,
            img_offset: 0,
            img_wrapped: false,
            bg: BgCacheState::CacheImage,
            ..self
        }
    }

    /// Nothing cached of a new book.
    pub open spec fn for_new_book(self) -> CacheView {
        CacheView {
            bg: BgCacheState::Idle,
            done: none_done(self.done.len()),
            img_wrapped: false,
            ..self
        }
    }

    /// The first `count` chapters are cached, with these sizes.
    pub open spec fn with_meta(self, count: int, sizes: Seq<u32>) -> CacheView {
        CacheView {
            sizes,
            ready: true,
            done: Seq::new(self.done.len(), |i: int| i < count || self.done[i]),
            ..self
        }
    }
}

impl ChapterCache {
    pub fn new(room: usize) -> (r: ChapterCache)
        requires
            0 < room <= u16::MAX,
        ensures
            r@.wf(),
            r@ == (CacheView {
                epub_size: 0,
                sizes: Seq::new(room as nat, |i: int| 0u32),
                done: none_done(room as nat),
                ready: false,
                next: 0,
                img_ch: 0,
                img_offset: 0,
                img_wrapped: false,
                bg: BgCacheState::Idle,
            }),
    {
        ChapterCache {
            epub_size: 0,
            sizes: zeros32(room),
            done: all_open(room),
            ready: false,
            next: 0,
            img_ch: 0,
            img_offset: 0,
            img_wrapped: false,
            bg: BgCacheState::Idle,
        }
    }

    pub fn for_book(&mut self)
        requires
            old(self)@.wf(),
        ensures
            final(self)@.wf(),
            final(self)@ == old(self)@.for_new_book(),
    {
        self.bg = BgCacheState::Idle;
        let room = self.done.len();
        self.done = all_open(room);
        self.img_wrapped = false;
    }

    pub fn set_chapter(&mut self, ch: usize, size: u32)
        requires
            old(self)@.wf(),
            ch < old(self)@.room(),
            size <= MAX_TEXT,
        ensures
            final(self)@.wf(),
            final(self)@ == old(self)@.with_chapter(ch as int, size),
    {
        self.sizes.set(ch, size);
        self.done.set(ch, true);
    }

    /// Passes over the chapters that are cached.
    pub fn skip_done(&mut self, end: usize)
        requires
            old(self)@.wf(),
            end <= old(self)@.room(),
        ensures
            final(self)@.wf(),
            final(self)@ == (CacheView {
                next: old(self)@.next_open(old(self).next as int, end as int) as u16,
                ..old(self)@
            }),
    {
        let mut n = self.next;
        while (n as usize) < end && self.done[n as usize]
            invariant
                end <= self.done@.len() <= u16::MAX,
                *self == *old(self),
                self@.next_open(n as int, end as int) == self@.next_open(
                    self.next as int,
                    end as int,
                ),
            decreases end - n,
        {
            n += 1;
        }
        self.next = n;
    }

    /// Starts the search for images at chapter `ch`.
    pub fn search_images(&mut self, ch: u16)
        requires
            old(self)@.wf(),
        ensures
            final(self)@.wf(),
            final(self)@ == old(self)@.image_search(ch),
    {
        self.img_ch = ch;
        self.img_offset = 0;
        self.img_wrapped = false;
        self.bg = BgCacheState::CacheImage;
    }

    pub fn set_ready(&mut self, ready: bool)
        requires
            old(self)@.wf(),
        ensures
            final(self)@.wf(),
            final(self)@ == (CacheView { ready, ..old(self)@ }),
    {
        self.ready = ready;
    }

    pub fn set_epub_size(&mut self, epub_size: u32)
        requires
            old(self)@.wf(),
        ensures
            final(self)@.wf(),
            final(self)@ == (CacheView { epub_size, ..old(self)@ }),
    {
        self.epub_size = epub_size;
    }

    pub fn set_next(&mut self, next: u16)
        requires
            old(self)@.wf(),
        ensures
            final(self)@.wf(),
            final(self)@ == (CacheView { next, ..old(self)@ }),
    {
        self.next = next;
    }

    pub fn set_bg(&mut self, bg: BgCacheState)
        requires
            old(self)@.wf(),
        ensures
            final(self)@.wf(),
            final(self)@ == (CacheView { bg, ..old(self)@ }),
    {
        self.bg = bg;
    }

    /// Where the search for images goes on.
    pub fn set_search(&mut self, ch: u16, offset: u32, wrapped: bool)
        requires
            old(self)@.wf(),
        ensures
            final(self)@.wf(),
            final(self)@ == (CacheView {
                img_ch: ch,
                img_offset: offset,
                img_wrapped: wrapped,
                ..old(self)@
            }),
    {
        self.img_ch = ch;
        self.img_offset = offset;
        self.img_wrapped = wrapped;
    }

    pub fn set_sizes(&mut self, sizes: Vec<u32>)
        requires
            old(self)@.wf(),
            sizes@.len() == old(self)@.room(),
            forall|i: int| 0 <= i < sizes@.len() ==> #[trigger] sizes@[i] <= MAX_TEXT,
        ensures
            final(self)@.wf(),
            final(self)@ == (CacheView { sizes: sizes@, ..old(self)@ }),
    {
        self.sizes = sizes;
    }

    pub fn take_meta(&mut self, count: usize, sizes: Vec<u32>)
        requires
            old(self)@.wf(),
            count <= old(self)@.room(),
            sizes@.len() == old(self)@.room(),
            forall|i: int| 0 <= i < sizes@.len() ==> #[trigger] sizes@[i] <= MAX_TEXT,
        ensures
            final(self)@.wf(),
            final(self)@ == old(self)@.with_meta(count as int, sizes@),
    {
        self.sizes = sizes;
        self.ready = true;
        let mut i: usize = 0;
        let ghost was = self.done@;
        while i < count
            invariant
                i <= count <= was.len(),
                self.done@ == Seq::new(was.len(), |k: int| k < i || was[k]),
                self@ == (CacheView { sizes: sizes@, ready: true, done: self.done@, ..old(self)@ }),
            decreases count - i,
        {
            self.done.set(i, true);
            i += 1;
            assert(self.done@ =~= Seq::new(was.len(), |k: int| k < i || was[k]));
        }
        assert(self.done@ =~= Seq::new(was.len(), |k: int| k < count || was[k]));
    }
}

fn all_open(n: usize) -> (r: Vec<bool>)
    ensures
        r@ == none_done(n as nat),
{
    let mut v: Vec<bool> = Vec::new();
    let mut i: usize = 0;
    assert(v@ =~= none_done(0));
    while i < n
        invariant
            i <= n,
            v@ == none_done(i as nat),
        decreases n - i,
    {
        v.push(false);
        i += 1;
        assert(v@ =~= none_done(i as nat));
    }
    v
}

/// The next open chapter is open or past the end, and none before it is open.
pub proof fn law_next_open(c: CacheView, n: int, end: int)
    requires
        0 <= n,
        end <= c.done.len() <= u16::MAX,
    ensures
        n <= c.next_open(n, end),
        n <= end ==> c.next_open(n, end) <= end,
        n > end ==> c.next_open(n, end) == n,
        c.next_open(n, end) < end ==> !c.done[c.next_open(n, end)],
        forall|i: int| n <= i < c.next_open(n, end) ==> #[trigger] c.done[i],
    decreases end - n,
{
    if n < end && c.done[n] {
        law_next_open(c, n + 1, end);
    }
}

} // verus!
