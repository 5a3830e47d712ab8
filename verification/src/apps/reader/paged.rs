//! The pages of a text: each goes on where the one before ended, and nothing of
//! the text is lost between them.

use vstd::prelude::*;

use crate::apps::reader::pages::{
    mono_run, plain_line, with_plain, PagerView, CHARS_PER_LINE, LINES_PER_PAGE,
    MAX_PAGES, PAGE_BUF,
};
use crate::apps::reader::text::{continuation_run, decoded_char, sequence_len, trimmed_end};
use crate::apps::reader::wrap::{
    on_a_line, one_by_one, Layout, LineSpan, Progress,
};

verus! {

/// No character is cut off at the end of the text.
pub open spec fn ends_whole(text: Seq<u8>) -> bool {
    forall|i: int|
        0 <= i < text.len() && #[trigger] text[i] >= 0xC0 ==> i + sequence_len(text[i])
            <= text.len()
}

/// A byte that the built-in font shows.
pub open spec fn shown_byte(b: u8) -> bool {
    b != 10 && b != 13
}

spec fn bytes_kept(buf: Seq<u8>, lines: Seq<LineSpan>, end: int) -> bool {
    forall|j: int| 0 <= j < end && shown_byte(#[trigger] buf[j]) ==> on_a_line(lines, j)
}

proof fn lemma_plain_kept(buf: Seq<u8>, lines: Seq<LineSpan>, start: int, end: int, upto: int)
    requires
        0 <= start <= end <= upto <= buf.len() <= PAGE_BUF,
        bytes_kept(buf, lines, start),
        one_by_one(lines, start),
        forall|j: int| end <= j < upto ==> !shown_byte(#[trigger] buf[j]),
    ensures
        bytes_kept(buf, lines.push(plain_line(start, end)), upto),
        one_by_one(lines.push(plain_line(start, end)), upto),
{
    let more = lines.push(plain_line(start, end));
    assert forall|j: int| 0 <= j < upto && shown_byte(#[trigger] buf[j]) implies on_a_line(
        more,
        j,
    ) by {
        if j < start {
            let k = choose|k: int|
                0 <= k < lines.len() && (#[trigger] lines[k]).start <= j < lines[k].start
                    + lines[k].len;
            assert(more[k] == lines[k]);
        } else {
            assert(more[lines.len() as int] == plain_line(start, end));
        }
    }
}

proof fn lemma_mono_kept(
    buf: Seq<u8>,
    n: int,
    max: int,
    i: int,
    start: int,
    col: int,
    lines: Seq<LineSpan>,
)
    requires
        0 <= start <= i <= n <= buf.len() <= PAGE_BUF,
        lines.len() < max <= LINES_PER_PAGE,
        bytes_kept(buf, lines, start),
        one_by_one(lines, start),
    ensures
        ({
            let r = mono_run(buf, n, max, i, start, col, lines);
            &&& bytes_kept(buf, r.0, r.1)
            &&& one_by_one(r.0, r.1)
            &&& r.0.len() < max ==> r.1 == n
            &&& start <= r.1 <= n
        }),
    decreases n - i,
{
    if i >= n {
        if start < n {
            let end = trimmed_end(buf, start, n);
            lemma_plain_kept(buf, lines, start, end, n);
        }
    } else if buf[i] == 13 {
        lemma_mono_kept(buf, n, max, i + 1, start, col, lines);
    } else if buf[i] == 10 || col + 1 >= CHARS_PER_LINE {
        let end = if buf[i] == 10 {
            trimmed_end(buf, start, i)
        } else {
            i + 1
        };
        let more = with_plain(lines, start, end);
        lemma_plain_kept(buf, lines, start, end, i + 1);
        if more.len() < max {
            lemma_mono_kept(buf, n, max, i + 1, i + 1, 0, more);
        }
    } else {
        lemma_mono_kept(buf, n, max, i + 1, start, col + 1, lines);
    }
}

/// How many characters, each of a byte, stand between `a` and `b`.
pub open spec fn columns(buf: Seq<u8>, a: int, b: int) -> int
    decreases b - a,
{
    if a >= b {
        0
    } else {
        columns(buf, a, b - 1) + if buf[b - 1] == 13 {
            0int
        } else {
            1
        }
    }
}

/// A line in the built-in font: it starts where a line can start, has no more
/// than 66 characters and no end of a line among them, and ends at one, with
/// 66 characters, or with the text.
pub open spec fn plain_and_full(buf: Seq<u8>, n: int, line: LineSpan) -> bool {
    let start = line.start as int;
    let end = start + line.len;
    &&& line.flags == 0
    &&& line.indent == 0
    &&& end <= n
    &&& columns(buf, start, end) <= 66
    &&& forall|j: int| start <= j < end ==> #[trigger] buf[j] != 10
    &&& columns(buf, start, end) == 66 || end == n || buf[end] == 10 || (buf[end] == 13 && (end + 1
        == n || buf[end + 1] == 10))
}

spec fn all_plain(buf: Seq<u8>, n: int, lines: Seq<LineSpan>) -> bool {
    forall|k: int| 0 <= k < lines.len() ==> plain_and_full(buf, n, #[trigger] lines[k])
}

proof fn lemma_mono_plain(
    buf: Seq<u8>,
    n: int,
    max: int,
    i: int,
    start: int,
    col: int,
    lines: Seq<LineSpan>,
)
    requires
        0 <= start <= i <= n <= buf.len() <= PAGE_BUF,
        col == columns(buf, start, i),
        col < 66,
        forall|j: int| start <= j < i ==> #[trigger] buf[j] != 10,
        all_plain(buf, n, lines),
    ensures
        all_plain(buf, n, mono_run(buf, n, max, i, start, col, lines).0),
    decreases n - i,
{
    if i >= n {
        if start < n {
            let end = trimmed_end(buf, start, n);
            assert(plain_and_full(buf, n, plain_line(start, end)));
        }
    } else if buf[i] == 13 {
        lemma_mono_plain(buf, n, max, i + 1, start, col, lines);
    } else if buf[i] == 10 || col + 1 >= CHARS_PER_LINE {
        let end = if buf[i] == 10 {
            trimmed_end(buf, start, i)
        } else {
            i + 1
        };
        let more = with_plain(lines, start, end);
        assert(plain_and_full(buf, n, plain_line(start, end)));
        if more.len() < max {
            lemma_mono_plain(buf, n, max, i + 1, i + 1, 0, more);
        }
    } else {
        lemma_mono_plain(buf, n, max, i + 1, start, col + 1, lines);
    }
}

impl PagerView {
    /// In the built-in font every line is filled as far as it goes: up to the end
    /// of a line of the text, to 66 characters, or to the end of what was read.
    pub proof fn law_plain_lines_are_filled(self, n: int, k: int)
        requires
            self.wf(),
            self.face.fonts is None,
            0 <= n <= PAGE_BUF,
            0 <= k < self.wrap(n).0.len(),
        ensures
            plain_and_full(self.buf, n, self.wrap(n).0[k]),
    {
        lemma_mono_plain(
            self.buf,
            n,
            self.face.max_lines as int,
            0,
            0,
            0,
            Seq::empty(),
        );
    }
}

impl Layout {
    /// A page is left off only when it is full.
    proof fn lemma_stopped_is_full(self, p: Progress)
        requires
            p.stop is Some ==> self.full(p.lines),
        ensures
            self.run(p).stop is Some ==> self.full(self.run(p).lines),
        decreases
                if p.i < self.n {
                    self.n - p.i
                } else {
                    0
                },
    {
        if p.stop is None && p.i < self.n && self.step(p).i > p.i {
            self.lemma_stopped_is_full(self.step(p));
        }
    }
}

impl PagerView {
    /// A character of the page in the buffer starts at byte `j`.
    pub open spec fn character_at(self, j: int) -> bool {
        match self.face.fonts {
            Some(f) => self.layout(f, self.buf_len as int).glyph_at(j),
            None => 0 <= j < self.buf_len && shown_byte(self.buf[j]),
        }
    }

    /// All characters of the page in the buffer before byte `end` are on its
    /// lines, each on one, in their order.
    pub open spec fn holds_all(self, lines: Seq<LineSpan>, end: int) -> bool {
        &&& forall|j: int| #[trigger] self.character_at(j) && j < end ==> on_a_line(lines, j)
        &&& one_by_one(lines, end)
    }

    proof fn lemma_page_holds(self)
        requires
            self.wf(),
            self.face.max_lines > 0,
        ensures
            ({
                let (lines, taken) = self.wrap(self.buf_len as int);
                &&& self.holds_all(lines, taken)
                &&& lines.len() < self.face.max_lines ==> taken == self.buf_len
            }),
    {
        let n = self.buf_len as int;
        match self.face.fonts {
            Some(f) => {
                let page = self.layout(f, n);
                page.law_no_character_is_lost();
                page.lemma_stopped_is_full(page.start());
            },
            None => {
                lemma_mono_kept(
                    self.buf,
                    n,
                    self.face.max_lines as int,
                    0,
                    0,
                    0,
                    Seq::empty(),
                );
            },
        }
    }

    /// A page goes on where the one before ended: where the page in the buffer
    /// is set and the next one noted, every character before the start of the
    /// next page is on a line of this one, and none behind it. Where none is
    /// noted, and the text has no more of them than can be noted, every
    /// character that was read is on a line.
    pub proof fn law_the_next_page_goes_on(self)
        requires
            self.wf(),
            self.face.max_lines > 0,
            self.page + 1 == self.total_pages,
            !self.fully_indexed,
        ensures
            ({
                let p = self.noted();
                let next = p.offsets[self.total_pages as int] - self.offset();
                &&& p.total_pages == self.total_pages + 1 ==> {
                    &&& self.holds_all(p.lines, next)
                    &&& p.lines.len() >= self.face.max_lines
                    &&& 0 <= next
                    &&& p.offsets[self.total_pages as int] < self.file_size
                }
                &&& p.total_pages == self.total_pages ==> p.fully_indexed
                &&& p.total_pages == self.total_pages && self.total_pages < MAX_PAGES
                    && self.offset() + self.buf_len <= self.file_size ==> forall|j: int| #[trigger]
                    self.character_at(j) ==> on_a_line(p.lines, j)
                &&& p.total_pages == self.total_pages || p.total_pages == self.total_pages + 1
                &&& forall|k: int|
                    0 <= k < self.total_pages ==> #[trigger] p.offsets[k] == self.offsets[k]
            }),
    {
        self.lemma_page_holds();
        self.law_page_fits_buffer(self.buf_len as int);
    }
}

/// Two layouts of the same bytes, whatever stands behind these.
spec fn same_text(a: Layout, b: Layout) -> bool {
    &&& a.sized()
    &&& b.sized()
    &&& b == (Layout { buf: b.buf, ..a })
    &&& a.buf.len() == b.buf.len()
    &&& forall|i: int| 0 <= i < a.n ==> a.buf[i] == #[trigger] b.buf[i]
    &&& forall|i: int|
        0 <= i < a.n && #[trigger] a.buf[i] >= 0xC0 ==> i + sequence_len(a.buf[i]) <= a.n
}

proof fn lemma_same_token(a: Layout, b: Layout, i: int)
    requires
        same_text(a, b),
        0 <= i < a.n,
    ensures
        a.token(i) == b.token(i),
        i < a.token(i).next(i) <= a.n,
{
    a.lemma_token(i);
    assert(a.buf[i] == b.buf[i]);
    if i + 1 < a.n {
        assert(a.buf[i + 1] == b.buf[i + 1]);
    }
    if i + 2 < a.n {
        assert(a.buf[i + 2] == b.buf[i + 2]);
    }
    if a.buf[i] >= 0xC0 {
        let e = sequence_len(a.buf[i]);
        assert(i + e <= a.n);
        reveal_with_fuel(continuation_run, 5);
        assert(a.buf[i + 1] == b.buf[i + 1]);
        assert(e > 2 ==> a.buf[i + 2] == b.buf[i + 2]);
        assert(e > 3 ==> a.buf[i + 3] == b.buf[i + 3]);
        assert(decoded_char(a.buf, i) == decoded_char(b.buf, i));
        assert(decoded_char(a.buf, i).1 <= e);
    }
}

proof fn lemma_same_run(a: Layout, b: Layout, p: Progress)
    requires
        same_text(a, b),
        0 <= p.ls <= p.sp <= p.i <= a.n,
        p.stop matches Some(at) ==> 0 <= at <= a.n,
    ensures
        a.run(p) == b.run(p),
        0 <= a.run(p).ls <= a.run(p).i <= a.n,
        a.run(p).stop matches Some(at) ==> 0 <= at <= a.n,
    decreases
            if p.i < a.n {
                a.n - p.i
            } else {
                0
            },
{
    if p.stop is None && p.i < a.n {
        lemma_same_token(a, b, p.i);
        assert(trimmed_end(a.buf, p.ls, p.i) == trimmed_end(b.buf, p.ls, p.i)) by {
            if p.i > p.ls {
                assert(a.buf[p.i - 1] == b.buf[p.i - 1]);
            }
        }
        assert(trimmed_end(a.buf, p.ls, p.sp) == trimmed_end(b.buf, p.ls, p.sp)) by {
            if p.sp > p.ls {
                assert(a.buf[p.sp - 1] == b.buf[p.sp - 1]);
            }
        }
        assert(a.step(p) == b.step(p));
        lemma_same_run(a, b, a.step(p));
    }
}

proof fn lemma_same_mono(
    a: Seq<u8>,
    b: Seq<u8>,
    n: int,
    max: int,
    i: int,
    start: int,
    col: int,
    lines: Seq<LineSpan>,
)
    requires
        0 <= start <= i <= n <= a.len(),
        a.len() == b.len(),
        forall|j: int| 0 <= j < n ==> a[j] == #[trigger] b[j],
    ensures
        mono_run(a, n, max, i, start, col, lines) == mono_run(b, n, max, i, start, col, lines),
    decreases n - i,
{
    if i < n {
        assert(a[i] == b[i]);
        assert(i > start ==> a[i - 1] == b[i - 1]);
        if a[i] == 13 {
            lemma_same_mono(a, b, n, max, i + 1, start, col, lines);
        } else if a[i] == 10 || col + 1 >= CHARS_PER_LINE {
            let end = if a[i] == 10 {
                trimmed_end(a, start, i)
            } else {
                i + 1
            };
            lemma_same_mono(a, b, n, max, i + 1, i + 1, 0, with_plain(lines, start, end));
        } else {
            lemma_same_mono(a, b, n, max, i + 1, start, col + 1, lines);
        }
    } else if start < n {
        assert(a[n - 1] == b[n - 1]);
    }
}

impl PagerView {
    /// The bytes of the chapter from `at` on are in the buffer.
    pub open spec fn has_chunk(self, at: int) -> bool {
        let len = self.ch_cache.len() - at;
        &&& self.buf_len == if len < PAGE_BUF {
            len
        } else {
            PAGE_BUF as int
        }
        &&& self.buf.take(self.buf_len as int) == self.ch_cache.subrange(at, at + self.buf_len)
    }

    /// Two pagers that differ in what stands behind the bytes of the page, or in
    /// nothing that matters for its lines.
    proof fn lemma_same_page(self, other: PagerView, at: int)
        requires
            self.wf(),
            other.wf(),
            0 <= at <= self.ch_cache.len(),
            self.has_chunk(at),
            other.has_chunk(at),
            other.ch_cache == self.ch_cache,
            other.face == self.face,
            other.text_w == self.text_w,
            other.markup == self.markup,
            ends_whole(self.ch_cache),
        ensures
            self.wrap(self.buf_len as int) == other.wrap(self.buf_len as int),
            self.buf_len == other.buf_len,
            self.wrap(self.buf_len as int).1 <= self.buf_len,
            forall|j: int| self.character_at(j) ==> #[trigger] other.character_at(j),
    {
        let n = self.buf_len as int;
        assert forall|i: int| 0 <= i < n implies self.buf[i] == #[trigger] other.buf[i] && self.buf[i]
            == self.ch_cache[at + i] by {
            assert(self.buf.take(n)[i] == self.ch_cache.subrange(at, at + n)[i]);
            assert(other.buf.take(n)[i] == self.ch_cache.subrange(at, at + n)[i]);
        }
        match self.face.fonts {
            Some(f) => {
                let a = self.layout(f, n);
                let b = other.layout(f, n);
                if n == PAGE_BUF {
                    assert(self.buf =~= other.buf);
                    self.law_page_fits_buffer(n);
                } else {
                    assert forall|i: int| 0 <= i < a.n && #[trigger] a.buf[i] >= 0xC0 implies i
                        + sequence_len(a.buf[i]) <= a.n by {
                        assert(self.buf[i] == other.buf[i]);
                        assert(self.ch_cache[at + i] >= 0xC0);
                    }
                    assert(same_text(a, b));
                    lemma_same_run(a, b, a.start());
                    let p = a.run(a.start());
                    assert(trimmed_end(a.buf, p.ls, a.n) == trimmed_end(b.buf, p.ls, b.n)) by {
                        if a.n > p.ls {
                            assert(a.buf[a.n - 1] == b.buf[a.n - 1]);
                        }
                    }
                    assert forall|j: int| self.character_at(j) implies #[trigger]
                        other.character_at(j) by {
                        lemma_same_reach(a, b, 0, j);
                        lemma_same_token(a, b, j);
                    }
                }
            },
            None => {
                lemma_same_mono(
                    self.buf,
                    other.buf,
                    n,
                    self.face.max_lines as int,
                    0,
                    0,
                    0,
                    Seq::empty(),
                );
                self.law_page_fits_buffer(n);
                lemma_mono_end(
                    self.buf,
                    n,
                    self.face.max_lines as int,
                    0,
                    0,
                    0,
                    Seq::empty(),
                );
                assert forall|j: int| self.character_at(j) implies #[trigger]
                    other.character_at(j) by {
                    assert(self.buf[j] == other.buf[j]);
                }
            },
        }
    }
}

proof fn lemma_mono_end(
    buf: Seq<u8>,
    n: int,
    max: int,
    i: int,
    start: int,
    col: int,
    lines: Seq<LineSpan>,
)
    requires
        i <= n,
    ensures
        mono_run(buf, n, max, i, start, col, lines).1 <= n,
    decreases n - i,
{
    if i < n {
        if buf[i] == 13 {
            lemma_mono_end(buf, n, max, i + 1, start, col, lines);
        } else if buf[i] == 10 || col + 1 >= CHARS_PER_LINE {
            let end = if buf[i] == 10 {
                trimmed_end(buf, start, i)
            } else {
                i + 1
            };
            lemma_mono_end(buf, n, max, i + 1, i + 1, 0, with_plain(lines, start, end));
        } else {
            lemma_mono_end(buf, n, max, i + 1, start, col + 1, lines);
        }
    }
}

proof fn lemma_same_reach(a: Layout, b: Layout, from: int, j: int)
    requires
        same_text(a, b),
        0 <= from,
        a.reaches(from, j),
    ensures
        b.reaches(from, j),
    decreases j - from,
{
    if from != j {
        lemma_same_token(a, b, from);
        lemma_same_reach(a, b, a.token(from).next(from), j);
    }
}

impl PagerView {
    /// The same chapter, set in the same way.
    spec fn alike(self, other: PagerView) -> bool {
        &&& other.wf()
        &&& other.ch_cache == self.ch_cache
        &&& other.face == self.face
        &&& other.text_w == self.text_w
        &&& other.markup == self.markup
    }

    /// `q`, with page `k` of this pager in its buffer, ends where page `k + 1`
    /// starts.
    spec fn linked(self, k: int, q: PagerView) -> bool {
        let (lines, taken) = q.wrap(q.buf_len as int);
        &&& k + 1 < self.total_pages ==> {
            &&& self.offsets[k + 1] == self.offsets[k] + taken
            &&& lines.len() >= self.face.max_lines
        }
        &&& k + 1 == self.total_pages && self.total_pages < MAX_PAGES ==> lines.len()
            < self.face.max_lines || self.offsets[k] + taken >= self.ch_cache.len()
    }

    proof fn lemma_linked(self, at: int, k: int, q: PagerView)
        requires
            self.wf(),
            self.total_pages > 0,
            0 <= at <= self.ch_cache.len(),
            self.in_order(),
            self.offsets[self.total_pages - 1] == at,
            self.alike(q),
            ends_whole(self.ch_cache),
            self.total_pages - 1 <= k < self.pages_from(at).total_pages,
            q.has_chunk(self.pages_from(at).offsets[k] as int),
        ensures
            self.pages_from(at).linked(k, q),
            forall|i: int|
                0 <= i < self.total_pages ==> #[trigger] self.pages_from(at).offsets[i]
                    == self.offsets[i],
            self.alike(self.pages_from(at)),
        decreases MAX_PAGES - self.total_pages,
    {
        self.lemma_pages_from(at);
        lemma_pages_alike(self, at);
        q.law_page_fits_buffer(q.buf_len as int);
        if at < self.ch_cache.len() && self.total_pages < MAX_PAGES {
            let c = self.chunk(at);
            assert(c.buf.take(c.buf_len as int) =~= self.ch_cache.subrange(at, at + c.buf_len));
            assert(c.has_chunk(at));
            c.law_page_fits_buffer(c.buf_len as int);
            let p = c.wrapped(c.buf_len as int);
            let next = at + c.wrap(c.buf_len as int).1;
            if p.lines.len() >= self.face.max_lines && next < self.ch_cache.len() {
                let r = PagerView {
                    offsets: p.offsets.update(p.total_pages as int, next as u32),
                    total_pages: (p.total_pages + 1) as usize,
                    ..p
                };
                assert(self.pages_from(at) == r.pages_from(next));
                assert(self.alike(r));
                if k >= self.total_pages {
                    r.lemma_linked(next, k, q);
                } else {
                    r.lemma_pages_from(next);
                    r.lemma_prefix(next);
                    assert(r.pages_from(next).offsets[k] == at);
                    c.lemma_same_page(q, at);
                    assert(r.pages_from(next).offsets[k + 1] == next);
                }
                r.lemma_prefix(next);
                assert forall|i: int| 0 <= i < self.total_pages implies #[trigger] self.pages_from(
                    at,
                ).offsets[i] == self.offsets[i] by {
                    assert(r.pages_from(next).offsets[i] == r.offsets[i]);
                }
            } else {
                c.lemma_same_page(q, at);
            }
        }
    }

    proof fn lemma_prefix(self, at: int)
        requires
            self.total_pages > 0,
            self.total_pages <= MAX_PAGES,
            self.offsets.len() == MAX_PAGES,
        ensures
            forall|i: int|
                0 <= i < self.total_pages ==> #[trigger] self.pages_from(at).offsets[i]
                    == self.offsets[i],
        decreases MAX_PAGES - self.total_pages,
    {
        if at < self.ch_cache.len() && self.total_pages < MAX_PAGES {
            let c = self.chunk(at);
            let p = c.wrapped(c.buf_len as int);
            let next = at + c.wrap(c.buf_len as int).1;
            if p.lines.len() >= self.face.max_lines && next < self.ch_cache.len() {
                let r = PagerView {
                    offsets: p.offsets.update(p.total_pages as int, next as u32),
                    total_pages: (p.total_pages + 1) as usize,
                    ..p
                };
                r.lemma_prefix(next);
                assert forall|i: int| 0 <= i < self.total_pages implies #[trigger] self.pages_from(
                    at,
                ).offsets[i] == self.offsets[i] by {
                    assert(r.pages_from(next).offsets[i] == r.offsets[i]);
                }
            }
        }
    }

    /// No text is lost between the pages of a chapter in memory. The first page
    /// starts where the chapter does. Page `k`, as it is shown, has in its
    /// buffer the text from its start on, and on its lines, in their order, all
    /// characters up to the start of the page after it; the last page has all
    /// that its buffer holds. Left out are a chapter whose last character is
    /// cut off, and what lies behind the last page that can be noted.
    pub proof fn law_no_text_is_lost_between_pages(self, k: int)
        requires
            self.wf(),
            self.page == 0,
            self.ch_cache.len() > 0,
            self.face.max_lines > 0,
            ends_whole(self.ch_cache),
            0 <= k < self.indexed().total_pages,
        ensures
            ({
                let all = self.indexed();
                let shown = PagerView { page: k as usize, ..all }.from_memory();
                &&& all.ch_cache == self.ch_cache
                &&& all.offsets[0] == 0
                &&& all.fully_indexed
                &&& shown.has_chunk(all.offsets[k] as int)
                &&& k + 1 < all.total_pages ==> {
                    &&& all.offsets[k + 1] - all.offsets[k] <= shown.buf_len
                    &&& shown.holds_all(shown.lines, all.offsets[k + 1] - all.offsets[k])
                    &&& shown.lines.len() >= shown.face.max_lines
                }
                &&& k + 1 == all.total_pages && all.total_pages < MAX_PAGES ==> {
                    &&& forall|j: int| #[trigger]
                        shown.character_at(j) ==> on_a_line(shown.lines, j)
                    &&& all.offsets[k] + shown.buf_len == self.ch_cache.len() || shown.lines.len()
                        < shown.face.max_lines
                }
            }),
    {
        let p0 = PagerView { offsets: self.offsets.update(0, 0), total_pages: 1, ..self };
        p0.lemma_pages_from(0);
        p0.lemma_prefix(0);
        let all = self.indexed();
        let one = PagerView { page: k as usize, ..all };
        let at = all.offsets[k] as int;
        assert(at <= all.ch_cache.len());
        let c = one.chunk(at);
        assert(c.buf.take(c.buf_len as int) =~= all.ch_cache.subrange(at, at + c.buf_len));
        assert(c.has_chunk(at));
        c.law_page_fits_buffer(c.buf_len as int);
        lemma_pages_alike(p0, 0);
        assert(p0.alike(c));
        p0.lemma_linked(0, k, c);
        c.lemma_same_page(c, at);
        c.lemma_page_holds();
        let shown = one.from_memory();
        assert(shown.lines == c.wrap(c.buf_len as int).0);
        assert(shown.buf == c.buf && shown.buf_len == c.buf_len);
        assert forall|j: int| #[trigger] shown.character_at(j) implies c.character_at(j) by {}
        if k + 1 == all.total_pages && all.total_pages < MAX_PAGES {
            assert forall|j: int| #[trigger] shown.character_at(j) implies on_a_line(
                shown.lines,
                j,
            ) by {
                assert(c.character_at(j));
                assert(j < c.buf_len);
            }
        }
    }
}

/// Finding pages leaves the chapter and how it is set.
pub proof fn lemma_pages_alike(p: PagerView, at: int)
    ensures
        ({
            let r = p.pages_from(at);
            &&& r.ch_cache == p.ch_cache
            &&& r.face == p.face
            &&& r.text_w == p.text_w
            &&& r.markup == p.markup
        }),
    decreases MAX_PAGES - p.total_pages,
{
    if at < p.ch_cache.len() && p.total_pages < MAX_PAGES {
        let c = p.chunk(at);
        let q = c.wrapped(c.buf_len as int);
        let next = at + c.wrap(c.buf_len as int).1;
        if q.lines.len() >= p.face.max_lines && next < p.ch_cache.len() {
            lemma_pages_alike(
                PagerView {
                    offsets: q.offsets.update(q.total_pages as int, next as u32),
                    total_pages: (q.total_pages + 1) as usize,
                    ..q
                },
                next,
            );
        }
    }
}

} // verus!
