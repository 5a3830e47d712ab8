//! A text cut into pages: the page on screen, the pages known so far, and the
//! buffers that hold them.

use vstd::prelude::*;

use crate::apps::reader::text::{trim_trailing_cr, trimmed_end};
use crate::apps::reader::wrap::{all_within, wrap_proportional, Layout, LineSpan, Markup};
use crate::fonts::{FontSet, Style};

verus! {

pub const LINE_H: u16 = 13;

pub const CHARS_PER_LINE: usize = 66;

pub const LINES_PER_PAGE: usize = 58;

pub const PAGE_BUF: usize = 8192;

pub const MAX_PAGES: usize = 1024;

/// The largest chapter that is kept in memory.
pub const CHAPTER_CACHE_MAX: usize = 98304;

/// The longest text that can be paged: the end of any page has an offset.
pub const MAX_TEXT: u32 = 4294959103;

/// The fonts in use and what follows from them for a page. Without fonts the
/// text is set in the built-in one, whose characters all have the same width.
pub struct Face {
    pub fonts: Option<FontSet>,
    pub line_h: u16,
    pub ascent: u16,
    pub max_lines: usize,
}

impl Face {
    pub open spec fn wf(self) -> bool {
        &&& self.line_h > 0
        &&& self.max_lines <= LINES_PER_PAGE
        &&& self.fonts matches Some(f) ==> f.regular.line_height > 0
    }

    /// What a set of fonts gives on a text area of some height.
    pub open spec fn fitted(fonts: Option<FontSet>, area_h: u16) -> Face {
        match fonts {
            Some(f) => {
                let line_h = if f.regular.line_height > 1 {
                    f.regular.line_height
                } else {
                    1
                };
                Face {
                    fonts,
                    line_h,
                    ascent: f.regular.ascent,
                    max_lines: if area_h / line_h < LINES_PER_PAGE {
                        (area_h / line_h) as usize
                    } else {
                        LINES_PER_PAGE
                    },
                }
            },
            None => Face { fonts: None, line_h: LINE_H, ascent: LINE_H, max_lines: LINES_PER_PAGE },
        }
    }

    pub fn fit(fonts: Option<FontSet>, area_h: u16) -> (r: Face)
        requires
            fonts matches Some(f) ==> f.regular.line_height > 0,
        ensures
            r == Face::fitted(fonts, area_h),
            r.wf(),
    {
        match fonts {
            Some(f) => {
                let h = f.line_height(Style::Regular);
                let line_h: u16 = if h > 1 {
                    h
                } else {
                    1
                };
                let ascent = f.ascent(Style::Regular);
                let fit = (area_h / line_h) as usize;
                let max_lines = if fit < LINES_PER_PAGE {
                    fit
                } else {
                    LINES_PER_PAGE
                };
                Face { fonts: Some(f), line_h, ascent, max_lines }
            },
            None => Face { fonts: None, line_h: LINE_H, ascent: LINE_H, max_lines: LINES_PER_PAGE },
        }
    }
}

/// The line that covers `start..end`, in the built-in font.
pub open spec fn plain_line(start: int, end: int) -> LineSpan {
    LineSpan { start: start as u16, len: (end - start) as u16, flags: 0, indent: 0 }
}

/// One more line, where the page has room for it.
pub open spec fn with_plain(lines: Seq<LineSpan>, start: int, end: int) -> Seq<LineSpan> {
    if lines.len() < LINES_PER_PAGE {
        lines.push(plain_line(start, end))
    } else {
        lines
    }
}

/// The lines of text in the built-in font and the bytes that they take, from
/// byte `i` on, with `col` characters on the open line that began at `start`.
/// A line ends at a newline or after 66 characters.
pub open spec fn mono_run(
    buf: Seq<u8>,
    n: int,
    max: int,
    i: int,
    start: int,
    col: int,
    lines: Seq<LineSpan>,
) -> (Seq<LineSpan>, int)
    decreases n - i,
{
    if i >= n {
        if start < n && lines.len() < max {
            (with_plain(lines, start, trimmed_end(buf, start, n)), n)
        } else {
            (lines, n)
        }
    } else if buf[i] == 13 {
        mono_run(buf, n, max, i + 1, start, col, lines)
    } else if buf[i] == 10 || col + 1 >= CHARS_PER_LINE {
        let end = if buf[i] == 10 {
            trimmed_end(buf, start, i)
        } else {
            i + 1
        };
        let more = with_plain(lines, start, end);
        if more.len() >= max {
            (more, i + 1)
        } else {
            mono_run(buf, n, max, i + 1, i + 1, 0, more)
        }
    } else {
        mono_run(buf, n, max, i + 1, start, col + 1, lines)
    }
}

/// `data` over the start of `buf`.
pub open spec fn overlaid(buf: Seq<u8>, data: Seq<u8>) -> Seq<u8> {
    data + buf.skip(data.len() as int)
}

/// Copies `data` over the start of `buf`.
pub(crate) fn overlay(buf: &mut Vec<u8>, data: &[u8])
    requires
        data@.len() <= old(buf)@.len(),
    ensures
        final(buf)@ == overlaid(old(buf)@, data@),
{
    let mut i: usize = 0;
    let ghost was = buf@;
    while i < data.len()
        invariant
            i <= data@.len() <= buf@.len(),
            buf@.len() == was.len(),
            forall|j: int| 0 <= j < i ==> buf@[j] == data@[j],
            forall|j: int| i <= j < buf@.len() ==> buf@[j] == was[j],
        decreases data@.len() - i,
    {
        let b = data[i];
        buf.set(i, b);
        i += 1;
    }
    assert(buf@ =~= overlaid(was, data@));
}

pub struct Pager {
    /// The size of the text: the file, or the chapter.
    pub file_size: u32,
    /// Where the pages start, as far as they are known.
    pub offsets: Vec<u32>,
    pub total_pages: usize,
    /// No page follows those that are known.
    pub fully_indexed: bool,
    pub page: usize,
    pub buf: Vec<u8>,
    pub buf_len: usize,
    pub lines: Vec<LineSpan>,
    /// Bytes read ahead.
    pub prefetch: Vec<u8>,
    pub prefetch_len: usize,
    /// The page that was read ahead.
    pub prefetch_page: Option<usize>,
    /// The whole chapter, where it is in memory.
    pub ch_cache: Vec<u8>,
    pub face: Face,
    pub text_w: u32,
    pub markup: Markup,
}

/// The value of a pager.
pub struct PagerView {
    pub file_size: u32,
    pub offsets: Seq<u32>,
    pub total_pages: usize,
    pub fully_indexed: bool,
    pub page: usize,
    pub buf: Seq<u8>,
    pub buf_len: usize,
    pub lines: Seq<LineSpan>,
    pub prefetch: Seq<u8>,
    pub prefetch_len: usize,
    pub prefetch_page: Option<usize>,
    pub ch_cache: Seq<u8>,
    pub face: Face,
    pub text_w: u32,
    pub markup: Markup,
}

impl View for Pager {
    type V = PagerView;

    open spec fn view(&self) -> PagerView {
        PagerView {
            file_size: self.file_size,
            offsets: self.offsets@,
            total_pages: self.total_pages,
            fully_indexed: self.fully_indexed,
            page: self.page,
            buf: self.buf@,
            buf_len: self.buf_len,
            lines: self.lines@,
            prefetch: self.prefetch@,
            prefetch_len: self.prefetch_len,
            prefetch_page: self.prefetch_page,
            ch_cache: self.ch_cache@,
            face: self.face,
            text_w: self.text_w,
            markup: self.markup,
        }
    }
}

impl PagerView {
    /// `page` is one of those that are known. Before a text is opened none is,
    /// and page 0 stands for it.
    pub open spec fn has_page(self, page: int) -> bool {
        0 <= page < self.total_pages || (page == 0 && self.total_pages == 0)
    }

    /// The last of the pages that are known.
    pub open spec fn last_page(self) -> int {
        if self.total_pages > 0 {
            self.total_pages - 1
        } else {
            0
        }
    }

    /// The page on screen is one of those that are known, every known page
    /// starts within reach, and every line lies in the buffer.
    pub open spec fn wf(self) -> bool {
        &&& self.offsets.len() == MAX_PAGES
        &&& self.has_page(self.page as int)
        &&& self.total_pages <= MAX_PAGES
        &&& self.offsets[0] <= MAX_TEXT
        &&& forall|i: int|
            0 <= i < self.total_pages ==> #[trigger] self.offsets[i] <= MAX_TEXT
        &&& self.file_size <= MAX_TEXT
        &&& self.buf.len() == PAGE_BUF
        &&& self.buf_len <= PAGE_BUF
        &&& self.lines.len() <= LINES_PER_PAGE
        &&& all_within(self.lines, PAGE_BUF as int)
        &&& self.prefetch.len() == PAGE_BUF
        &&& self.prefetch_len <= PAGE_BUF
        &&& self.ch_cache.len() <= CHAPTER_CACHE_MAX
        &&& self.face.wf()
    }

    /// Where the page on screen starts.
    pub open spec fn offset(self) -> u32 {
        self.offsets[self.page as int]
    }

    /// The layout of the first `n` bytes of the buffer in the fonts.
    pub open spec fn layout(self, fonts: FontSet, n: int) -> Layout {
        Layout {
            buf: self.buf,
            n,
            fonts,
            markup: self.markup,
            max_lines: self.face.max_lines as int,
            width: self.text_w as int,
        }
    }

    /// The lines of the first `n` bytes of the buffer, and how many bytes they
    /// take.
    pub open spec fn wrap(self, n: int) -> (Seq<LineSpan>, int) {
        match self.face.fonts {
            Some(f) => (self.layout(f, n).lines(), self.layout(f, n).consumed()),
            None => mono_run(
                self.buf,
                n,
                self.face.max_lines as int,
                0,
                0,
                0,
                Seq::empty(),
            ),
        }
    }

    /// The pager with the first `n` bytes of the buffer set in lines.
    pub open spec fn wrapped(self, n: int) -> PagerView {
        PagerView { lines: self.wrap(n).0, ..self }
    }

    /// Nothing known but where the text starts.
    pub open spec fn rewound(self) -> PagerView {
        PagerView {
            page: 0,
            offsets: self.offsets.update(0, 0),
            total_pages: 1,
            fully_indexed: false,
            buf_len: 0,
            lines: Seq::empty(),
            prefetch_page: None,
            prefetch_len: 0,
            ..self
        }
    }

    pub open spec fn without_prefetch(self) -> PagerView {
        PagerView { prefetch_page: None, prefetch_len: 0, ..self }
    }

    /// What the buffer holds after the bytes of the chapter in memory from
    /// `at` on were copied to it, and how many they are.
    pub open spec fn chunk_end(self, at: int) -> int {
        if at + PAGE_BUF < self.ch_cache.len() {
            at + PAGE_BUF
        } else {
            self.ch_cache.len() as int
        }
    }

    pub open spec fn chunk(self, at: int) -> PagerView {
        let data = self.ch_cache.subrange(at, self.chunk_end(at));
        PagerView { buf: overlaid(self.buf, data), buf_len: data.len() as usize, ..self }
    }

    /// The page on screen, out of the chapter in memory.
    pub open spec fn from_memory(self) -> PagerView {
        let at = if self.offset() < self.ch_cache.len() {
            self.offset() as int
        } else {
            self.ch_cache.len() as int
        };
        let p = self.chunk(at);
        p.without_prefetch().wrapped(p.buf_len as int)
    }

    /// The page that was read ahead, brought into the buffer.
    pub open spec fn from_prefetch(self) -> PagerView {
        PagerView {
            buf: self.prefetch,
            prefetch: self.buf,
            buf_len: self.prefetch_len,
            ..self
        }.without_prefetch()
    }

    /// Bytes that were read, brought into the buffer.
    pub open spec fn with_bytes(self, data: Seq<u8>) -> PagerView {
        PagerView { buf: overlaid(self.buf, data), buf_len: data.len() as usize, ..self }
    }

    /// Where the page after the one on screen starts, if there is one.
    pub open spec fn next_offset(self) -> int {
        self.offset() + self.wrap(self.buf_len as int).1
    }

    /// The page in the buffer set in lines, and the page after it noted.
    /// A page that is full and does not reach the end of the text has a page
    /// after it; otherwise, or with no room to note another page, the text is
    /// fully indexed.
    pub open spec fn noted(self) -> PagerView {
        let p = self.wrapped(self.buf_len as int);
        if self.page + 1 >= self.total_pages && !self.fully_indexed {
            if p.lines.len() >= self.face.max_lines && self.next_offset() < self.file_size
                && self.total_pages < MAX_PAGES {
                PagerView {
                    offsets: self.offsets.update(
                        self.total_pages as int,
                        self.next_offset() as u32,
                    ),
                    total_pages: (self.total_pages + 1) as usize,
                    ..p
                }
            } else {
                PagerView { fully_indexed: true, ..p }
            }
        } else {
            p
        }
    }

    /// Bytes that were read ahead, for the page after the one on screen.
    pub open spec fn with_prefetch(self, data: Seq<u8>) -> PagerView {
        PagerView {
            prefetch: overlaid(self.prefetch, data),
            prefetch_len: data.len() as usize,
            prefetch_page: Some((self.page + 1) as usize),
            ..self
        }
    }

    /// The pages of the chapter in memory from offset `at` on, where the last
    /// known page starts.
    pub open spec fn pages_from(self, at: int) -> PagerView
        decreases MAX_PAGES - self.total_pages,
    {
        if at < self.ch_cache.len() && self.total_pages < MAX_PAGES {
            let c = self.chunk(at);
            let p = c.wrapped(c.buf_len as int);
            let next = at + c.wrap(c.buf_len as int).1;
            if p.lines.len() >= self.face.max_lines && next < self.ch_cache.len() {
                PagerView {
                    offsets: p.offsets.update(p.total_pages as int, next as u32),
                    total_pages: (p.total_pages + 1) as usize,
                    ..p
                }.pages_from(next)
            } else {
                p
            }
        } else {
            self
        }
    }

    /// All pages of the chapter in memory.
    pub open spec fn indexed(self) -> PagerView {
        if self.ch_cache.len() == 0 {
            self
        } else {
            PagerView {
                fully_indexed: true,
                ..PagerView {
                    offsets: self.offsets.update(0, 0),
                    total_pages: 1,
                    ..self
                }.pages_from(0)
            }
        }
    }
}

proof fn lemma_mono_within(
    buf: Seq<u8>,
    n: int,
    max: int,
    i: int,
    start: int,
    col: int,
    lines: Seq<LineSpan>,
)
    requires
        0 <= start <= i <= n <= buf.len() <= PAGE_BUF,
        lines.len() <= LINES_PER_PAGE,
        all_within(lines, PAGE_BUF as int),
    ensures
        mono_run(buf, n, max, i, start, col, lines).0.len() <= LINES_PER_PAGE,
        all_within(mono_run(buf, n, max, i, start, col, lines).0, PAGE_BUF as int),
        0 <= mono_run(buf, n, max, i, start, col, lines).1 <= n,
    decreases n - i,
{
    if i < n {
        if buf[i] == 13 {
            lemma_mono_within(buf, n, max, i + 1, start, col, lines);
        } else if buf[i] == 10 || col + 1 >= CHARS_PER_LINE {
            let end = if buf[i] == 10 {
                trimmed_end(buf, start, i)
            } else {
                i + 1
            };
            let more = with_plain(lines, start, end);
            assert(plain_line(start, end).within(PAGE_BUF as int));
            assert(all_within(more, PAGE_BUF as int));
            if more.len() < max {
                lemma_mono_within(buf, n, max, i + 1, i + 1, 0, more);
            }
        } else {
            lemma_mono_within(buf, n, max, i + 1, start, col + 1, lines);
        }
    } else if start < n {
        assert(plain_line(start, trimmed_end(buf, start, n)).within(PAGE_BUF as int));
    }
}

impl PagerView {
    /// The lines of a page lie in its buffer, and a page takes no more bytes
    /// than the buffer holds.
    pub proof fn law_page_fits_buffer(self, n: int)
        requires
            self.wf(),
            0 <= n <= PAGE_BUF,
        ensures
            self.wrap(n).0.len() <= LINES_PER_PAGE,
            all_within(self.wrap(n).0, PAGE_BUF as int),
            0 <= self.wrap(n).1 <= PAGE_BUF,
    {
        match self.face.fonts {
            Some(f) => {
                self.layout(f, n).law_lines_within_page();
            },
            None => {
                lemma_mono_within(
                    self.buf,
                    n,
                    self.face.max_lines as int,
                    0,
                    0,
                    0,
                    Seq::empty(),
                );
            },
        }
    }
}

impl PagerView {
    /// The known pages start one after another, inside the chapter.
    pub open spec fn in_order(self) -> bool {
        &&& forall|i: int, j: int|
            0 <= i <= j < self.total_pages ==> #[trigger] self.offsets[i]
                <= #[trigger] self.offsets[j]
        &&& forall|i: int|
            0 <= i < self.total_pages ==> #[trigger] self.offsets[i] <= self.ch_cache.len()
    }

    pub(crate) proof fn lemma_pages_from(self, at: int)
        requires
            self.wf(),
            self.total_pages > 0,
            0 <= at <= self.ch_cache.len(),
            self.in_order(),
            self.offsets[self.total_pages - 1] == at,
        ensures
            self.pages_from(at).wf(),
            self.pages_from(at).in_order(),
            self.pages_from(at).ch_cache == self.ch_cache,
            self.pages_from(at).page == self.page,
            self.pages_from(at).offsets[0] == self.offsets[0],
            self.pages_from(at).total_pages >= self.total_pages,
        decreases MAX_PAGES - self.total_pages,
    {
        if at < self.ch_cache.len() && self.total_pages < MAX_PAGES {
            let c = self.chunk(at);
            assert(c.buf.len() == PAGE_BUF);
            c.law_page_fits_buffer(c.buf_len as int);
            let p = c.wrapped(c.buf_len as int);
            let next = at + c.wrap(c.buf_len as int).1;
            if p.lines.len() >= self.face.max_lines && next < self.ch_cache.len() {
                let q = PagerView {
                    offsets: p.offsets.update(p.total_pages as int, next as u32),
                    total_pages: (p.total_pages + 1) as usize,
                    ..p
                };
                q.lemma_pages_from(next);
            }
        }
    }

    /// The pages of a chapter in memory are found in order, from its start.
    pub proof fn law_pages_are_in_order(self)
        requires
            self.wf(),
            self.page == 0,
            self.ch_cache.len() > 0,
        ensures
            self.indexed().in_order(),
            self.indexed().offsets[0] == 0,
            self.indexed().fully_indexed,
    {
        let p = PagerView { offsets: self.offsets.update(0, 0), total_pages: 1, ..self };
        p.lemma_pages_from(0);
    }

    /// The first page from `p` on after which the next page, if any, starts
    /// behind `target`.
    pub open spec fn page_holding(self, target: u32, p: int) -> int
        decreases self.total_pages - p,
    {
        if p + 1 >= self.total_pages || self.offsets[p + 1] > target {
            p
        } else {
            self.page_holding(target, p + 1)
        }
    }

    /// A position is found again on the page that holds it: the page starts
    /// at or before the position, and every later page starts behind it.
    pub proof fn law_position_is_on_its_page(self, target: u32, p: int)
        requires
            0 <= p < self.total_pages,
            self.in_order(),
            self.offsets[p] <= target,
        ensures
            p <= self.page_holding(target, p) < self.total_pages,
            self.offsets[self.page_holding(target, p)] <= target,
            forall|q: int|
                self.page_holding(target, p) < q < self.total_pages
                    ==> #[trigger] self.offsets[q] > target,
        decreases self.total_pages - p,
    {
        if p + 1 < self.total_pages && self.offsets[p + 1] <= target {
            self.law_position_is_on_its_page(target, p + 1);
        }
    }
}

impl Pager {
    /// A pager without a text, and so without pages.
    pub fn new(face: Face, text_w: u32, markup: Markup) -> (r: Pager)
        requires
            face.wf(),
        ensures
            r@.wf(),
            r@ == (PagerView {
                file_size: 0,
                offsets: Seq::new(MAX_PAGES as nat, |i: int| 0u32),
                total_pages: 0,
                fully_indexed: false,
                page: 0,
                buf: Seq::new(PAGE_BUF as nat, |i: int| 0u8),
                buf_len: 0,
                lines: Seq::empty(),
                prefetch: Seq::new(PAGE_BUF as nat, |i: int| 0u8),
                prefetch_len: 0,
                prefetch_page: None,
                ch_cache: Seq::empty(),
                face,
                text_w,
                markup,
            }),
    {
        let offsets: Vec<u32> = zeros32(MAX_PAGES);
        let buf: Vec<u8> = zeros(PAGE_BUF);
        let prefetch: Vec<u8> = zeros(PAGE_BUF);
        let r = Pager {
            file_size: 0,
            offsets,
            total_pages: 0,
            fully_indexed: false,
            page: 0,
            buf,
            buf_len: 0,
            lines: Vec::new(),
            prefetch,
            prefetch_len: 0,
            prefetch_page: None,
            ch_cache: Vec::new(),
            face,
            text_w,
            markup,
        };
        assert(r@.lines =~= Seq::empty());
        assert(r@.ch_cache =~= Seq::empty());
        r
    }

    /// Sets the first `n` bytes of the buffer in lines and returns how many
    /// bytes the page takes.
    pub fn wrap_lines_counted(&mut self, n: usize) -> (r: usize)
        requires
            old(self)@.wf(),
            n <= PAGE_BUF,
        ensures
            final(self)@.wf(),
            final(self)@ == old(self)@.wrapped(n as int),
            r == old(self)@.wrap(n as int).1,
            r <= PAGE_BUF,
    {
        proof {
            self@.law_page_fits_buffer(n as int);
        }
        if self.face.fonts.is_some() {
            self.wrap_with_fonts(n)
        } else {
            self.wrap_monospace(n)
        }
    }

    fn wrap_with_fonts(&mut self, n: usize) -> (r: usize)
        requires
            old(self)@.wf(),
            old(self).face.fonts is Some,
            n <= PAGE_BUF,
        ensures
            final(self)@ == old(self)@.wrapped(n as int),
            r == old(self)@.wrap(n as int).1,
    {
        let mut arr: [LineSpan; 58] = [LineSpan::empty(); 58];
        let ghost page = self@.layout(self.face.fonts->Some_0, n as int);
        let mut consumed: usize = 0;
        let mut count: usize = 0;
        if let Some(f) = &self.face.fonts {
            let room: &mut [LineSpan] = &mut arr;
            let (c, k) = wrap_proportional(
                self.buf.as_slice(),
                n,
                f,
                &self.markup,
                room,
                self.face.max_lines,
                self.text_w,
            );
            consumed = c;
            count = k;
        }
        let all: &[LineSpan] = &arr;
        let mut lines: Vec<LineSpan> = Vec::new();
        lines.extend_from_slice(&all[0..count]);
        proof {
            assert(lines@ =~= page.lines());
        }
        self.lines = lines;
        consumed
    }

    /// Sets the first `n` bytes of the buffer in the built-in font.
    pub fn wrap_monospace(&mut self, n: usize) -> (r: usize)
        requires
            old(self)@.wf(),
            n <= PAGE_BUF,
        ensures
            (final(self).lines@, r as int) == mono_run(
                old(self).buf@,
                n as int,
                old(self).face.max_lines as int,
                0,
                0,
                0,
                Seq::empty(),
            ),
            final(self)@ == (PagerView { lines: final(self).lines@, ..old(self)@ }),
    {
        let max = self.face.max_lines;
        self.lines = Vec::new();
        assert(self.lines@ =~= Seq::empty());
        let mut col: usize = 0;
        let mut start: usize = 0;
        let mut i: usize = 0;
        let ghost buf = self.buf@;
        let ghost goal = mono_run(buf, n as int, max as int, 0, 0, 0, Seq::empty());
        let ghost before = *self;
        while i < n
            invariant
                self.buf@ == buf,
                buf == old(self).buf@,
                buf.len() == PAGE_BUF,
                n <= PAGE_BUF,
                max == old(self).face.max_lines,
                before@ == (PagerView { lines: before.lines@, ..old(self)@ }),
                goal == mono_run(buf, n as int, max as int, 0, 0, 0, Seq::empty()),
                start <= i <= n,
                col < CHARS_PER_LINE,
                goal == mono_run(
                    buf,
                    n as int,
                    max as int,
                    i as int,
                    start as int,
                    col as int,
                    self.lines@,
                ),
                self@ == (PagerView { lines: self.lines@, ..before@ }),
            decreases n - i,
        {
            let b = self.buf[i];
            if b == 13 {
            } else if b == 10 {
                let end = trim_trailing_cr(self.buf.as_slice(), start, i);
                self.push_line(start, end);
                start = i + 1;
                col = 0;
                if self.lines.len() >= max {
                    return start;
                }
            } else {
                col += 1;
                if col >= CHARS_PER_LINE {
                    self.push_line(start, i + 1);
                    start = i + 1;
                    col = 0;
                    if self.lines.len() >= max {
                        return start;
                    }
                }
            }
            i += 1;
        }
        if start < n && self.lines.len() < max {
            let end = trim_trailing_cr(self.buf.as_slice(), start, n);
            self.push_line(start, end);
        }
        n
    }

    /// Adds a line, where the page has room for it.
    pub fn push_line(&mut self, start: usize, end: usize)
        requires
            start <= end <= PAGE_BUF,
        ensures
            final(self).lines@ == with_plain(old(self).lines@, start as int, end as int),
            final(self)@ == (PagerView { lines: final(self).lines@, ..old(self)@ }),
            final(self).buf@ == old(self).buf@,
    {
        if self.lines.len() < LINES_PER_PAGE {
            self.lines.push(
                LineSpan { start: start as u16, len: (end - start) as u16, flags: 0, indent: 0 },
            );
        }
    }

    pub fn reset_paging(&mut self)
        requires
            old(self)@.wf(),
        ensures
            final(self)@.wf(),
            final(self)@ == old(self)@.rewound(),
    {
        self.page = 0;
        self.offsets.set(0, 0);
        self.total_pages = 1;
        self.fully_indexed = false;
        self.buf_len = 0;
        self.lines = Vec::new();
        self.prefetch_page = None;
        self.prefetch_len = 0;
        assert(self@ =~= old(self)@.rewound());
    }

    /// Forgets what was read ahead.
    pub fn drop_prefetch(&mut self)
        requires
            old(self)@.wf(),
        ensures
            final(self)@.wf(),
            final(self)@ == old(self)@.without_prefetch(),
    {
        self.prefetch_page = None;
        self.prefetch_len = 0;
    }

    fn copy_chunk(&mut self, at: usize)
        requires
            old(self)@.wf(),
            at <= old(self).ch_cache@.len(),
        ensures
            final(self)@.wf(),
            final(self)@ == old(self)@.chunk(at as int),
    {
        let len = self.ch_cache.len();
        let end = if len - at > PAGE_BUF {
            at + PAGE_BUF
        } else {
            len
        };
        let mut data: Vec<u8> = Vec::new();
        let all = self.ch_cache.as_slice();
        data.extend_from_slice(&all[at..end]);
        proof {
            assert(data@ =~= self.ch_cache@.subrange(at as int, end as int));
        }
        overlay(&mut self.buf, data.as_slice());
        self.buf_len = end - at;
    }

    /// Takes the page on screen out of the chapter in memory.
    pub fn load_from_memory(&mut self)
        requires
            old(self)@.wf(),
        ensures
            final(self)@.wf(),
            final(self)@ == old(self)@.from_memory(),
    {
        let off = self.offsets[self.page] as usize;
        let at = if off < self.ch_cache.len() {
            off
        } else {
            self.ch_cache.len()
        };
        self.copy_chunk(at);
        self.drop_prefetch();
        let n = self.buf_len;
        self.wrap_lines_counted(n);
    }

    /// Takes the page that was read ahead.
    pub fn load_from_prefetch(&mut self)
        requires
            old(self)@.wf(),
        ensures
            final(self)@.wf(),
            final(self)@ == old(self)@.from_prefetch(),
    {
        std::mem::swap(&mut self.buf, &mut self.prefetch);
        self.buf_len = self.prefetch_len;
        self.drop_prefetch();
    }

    /// Takes bytes that were read for the page on screen.
    pub fn load_bytes(&mut self, data: &[u8])
        requires
            old(self)@.wf(),
            data@.len() <= PAGE_BUF,
        ensures
            final(self)@.wf(),
            final(self)@ == old(self)@.with_bytes(data@),
    {
        overlay(&mut self.buf, data);
        self.buf_len = data.len();
    }

    /// Sets the page in the buffer in lines and notes the page after it.
    pub fn note_page(&mut self)
        requires
            old(self)@.wf(),
        ensures
            final(self)@.wf(),
            final(self)@ == old(self)@.noted(),
    {
        let n = self.buf_len;
        let consumed = self.wrap_lines_counted(n);
        let next = self.offsets[self.page] + consumed as u32;
        if self.page + 1 >= self.total_pages && !self.fully_indexed {
            if self.lines.len() >= self.face.max_lines && next < self.file_size {
                if self.total_pages < MAX_PAGES {
                    self.offsets.set(self.total_pages, next);
                    self.total_pages += 1;
                } else {
                    self.fully_indexed = true;
                }
            } else {
                self.fully_indexed = true;
            }
        }
    }

    /// Takes bytes that were read ahead.
    pub fn load_prefetch(&mut self, data: &[u8])
        requires
            old(self)@.wf(),
            data@.len() <= PAGE_BUF,
        ensures
            final(self)@.wf(),
            final(self)@ == old(self)@.with_prefetch(data@),
    {
        overlay(&mut self.prefetch, data);
        self.prefetch_len = data.len();
        self.prefetch_page = Some(self.page + 1);
    }

    pub fn go_to(&mut self, page: usize)
        requires
            old(self)@.wf(),
            old(self)@.has_page(page as int),
        ensures
            final(self)@.wf(),
            final(self)@ == (PagerView { page, ..old(self)@ }),
    {
        self.page = page;
    }

    pub fn last_known_page(&self) -> (r: usize)
        ensures
            r == self@.last_page(),
    {
        if self.total_pages > 0 {
            self.total_pages - 1
        } else {
            0
        }
    }

    /// The next load of the page does not take what was read ahead.
    pub fn ignore_prefetch(&mut self)
        requires
            old(self)@.wf(),
        ensures
            final(self)@.wf(),
            final(self)@ == (PagerView { prefetch_page: None, ..old(self)@ }),
    {
        self.prefetch_page = None;
    }

    pub fn set_file_size(&mut self, size: u32)
        requires
            old(self)@.wf(),
            size <= MAX_TEXT,
        ensures
            final(self)@.wf(),
            final(self)@ == (PagerView { file_size: size, ..old(self)@ }),
    {
        self.file_size = size;
    }

    /// The text is empty: one page without lines.
    pub fn show_nothing(&mut self)
        requires
            old(self)@.wf(),
        ensures
            final(self)@.wf(),
            final(self)@ == (PagerView {
                fully_indexed: true,
                lines: Seq::empty(),
                ..old(self)@
            }),
    {
        self.fully_indexed = true;
        self.lines = Vec::new();
        assert(self.lines@ =~= Seq::empty());
    }

    /// Takes the text of a chapter into memory.
    pub fn set_chapter_text(&mut self, text: Vec<u8>)
        requires
            old(self)@.wf(),
            text@.len() <= CHAPTER_CACHE_MAX,
        ensures
            final(self)@.wf(),
            final(self)@ == (PagerView { ch_cache: text@, ..old(self)@ }),
    {
        self.ch_cache = text;
    }

    /// Gives up the memory that a chapter takes.
    pub fn drop_chapter_text(&mut self)
        requires
            old(self)@.wf(),
        ensures
            final(self)@.wf(),
            final(self)@ == (PagerView { ch_cache: Seq::empty(), ..old(self)@ }),
    {
        self.ch_cache = Vec::new();
        assert(self.ch_cache@ =~= Seq::empty());
    }

    /// Takes bytes into the page buffer for another use than a page.
    pub fn borrow_buffer(&mut self, data: &[u8])
        requires
            old(self)@.wf(),
            data@.len() <= PAGE_BUF,
        ensures
            final(self)@.wf(),
            final(self)@ == (PagerView { buf: overlaid(old(self)@.buf, data@), ..old(self)@ }),
    {
        overlay(&mut self.buf, data);
    }

    /// Takes bytes into the buffer for reading ahead for another use.
    pub fn borrow_prefetch(&mut self, data: &[u8])
        requires
            old(self)@.wf(),
            data@.len() <= PAGE_BUF,
        ensures
            final(self)@.wf(),
            final(self)@ == (PagerView {
                prefetch: overlaid(old(self)@.prefetch, data@),
                ..old(self)@
            }),
    {
        overlay(&mut self.prefetch, data);
    }

    /// Finds all pages of the chapter in memory.
    pub fn preindex_all_pages(&mut self)
        requires
            old(self)@.wf(),
            old(self)@.page == 0,
        ensures
            final(self)@.wf(),
            final(self)@ == old(self)@.indexed(),
    {
        if self.ch_cache.len() == 0 {
            return ;
        }
        let total = self.ch_cache.len();
        self.offsets.set(0, 0);
        self.total_pages = 1;
        let ghost goal = self@.pages_from(0);
        let mut offset: usize = 0;
        let mut more = true;
        while more && offset < total && self.total_pages < MAX_PAGES
            invariant
                self@.wf(),
                total == self@.ch_cache.len(),
                0 <= offset <= total,
                goal == if more {
                    self@.pages_from(offset as int)
                } else {
                    self@
                },
            decreases
                MAX_PAGES - self.total_pages,
                if more {
                    1int
                } else {
                    0int
                },
        {
            let ghost p0 = self@;
            self.copy_chunk(offset);
            let n = self.buf_len;
            let consumed = self.wrap_lines_counted(n);
            let next = offset + consumed;
            if self.lines.len() >= self.face.max_lines && next < total {
                self.offsets.set(self.total_pages, next as u32);
                self.total_pages += 1;
                offset = next;
                proof {
                    assert(self@.pages_from(offset as int) == p0.pages_from(offset - consumed));
                }
            } else {
                more = false;
            }
        }
        self.fully_indexed = true;
    }
}

pub(crate) fn zeros(n: usize) -> (r: Vec<u8>)
    ensures
        r@ == Seq::new(n as nat, |i: int| 0u8),
{
    let mut v: Vec<u8> = Vec::new();
    let mut i: usize = 0;
    while i < n
        invariant
            i <= n,
            v@ == Seq::new(i as nat, |i: int| 0u8),
        decreases n - i,
    {
        v.push(0);
        i += 1;
        assert(v@ =~= Seq::new(i as nat, |i: int| 0u8));
    }
    assert(v@ =~= Seq::new(n as nat, |i: int| 0u8));
    v
}

pub(crate) fn zeros32(n: usize) -> (r: Vec<u32>)
    ensures
        r@ == Seq::new(n as nat, |i: int| 0u32),
{
    let mut v: Vec<u32> = Vec::new();
    let mut i: usize = 0;
    assert(v@ =~= Seq::new(0, |i: int| 0u32));
    while i < n
        invariant
            i <= n,
            v@ == Seq::new(i as nat, |i: int| 0u32),
        decreases n - i,
    {
        v.push(0);
        i += 1;
        assert(v@ =~= Seq::new(i as nat, |i: int| 0u32));
    }
    v
}

} // verus!
