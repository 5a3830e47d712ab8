//! How wide the lines of a page are: no line is wider than the page, none is
//! ended before it has to be, and words are not torn where a line can end
//! between them.

use vstd::prelude::*;

use crate::apps::reader::pages::{Face, LINES_PER_PAGE};
use crate::apps::reader::wrap::{
    Layout, LineSpan, Progress, TextState, Token, IMAGE_DISPLAY_H, INDENT_PX,
};
use crate::fonts::FontSet;

verus! {

/// A token that takes up width.
pub open spec fn has_width(t: Token) -> bool {
    t is Glyph || t is ByteGlyph || t is Space || t is ByteSpace
}

/// A token behind which a line may end.
pub open spec fn lets_break(t: Token) -> bool {
    t is Space || t is ByteSpace || t is SoftHyphen
}

impl Layout {
    /// The styling at `i`, by the codes from `from` on, where it is `s`.
    pub open spec fn text_from(self, from: int, s: TextState, i: int) -> TextState
        decreases
                if from < i {
                    i - from
                } else {
                    0
                },
    {
        if from >= i || from >= self.n || self.token(from).next(from) <= from {
            s
        } else {
            self.text_from(
                self.token(from).next(from),
                match self.token(from) {
                    Token::Mark(code) => s.after(self.markup, code),
                    _ => s,
                },
                i,
            )
        }
    }

    /// The styling at `i`, by all codes before it.
    pub open spec fn text_at(self, i: int) -> TextState {
        self.text_from(
            0,
            TextState { bold: false, italic: false, heading: false, indent: 0 },
            i,
        )
    }

    /// How many pixels the token at `i` takes, in the style in force there.
    pub open spec fn advance_at(self, i: int) -> int {
        let metrics = self.fonts.metrics(self.text_at(i).style_of());
        match self.token(i) {
            Token::Glyph(ch, k) => metrics.advance_of(ch) as int,
            Token::ByteGlyph(b) => metrics.bytes@[b as int] as int,
            Token::Space(k) => metrics.advance_of(' ') as int,
            Token::ByteSpace => metrics.bytes@[32] as int,
            _ => 0,
        }
    }

    /// How many pixels the text between two tokens takes.
    pub open spec fn width_between(self, a: int, b: int) -> int
        decreases
                if a < b {
                    b - a
                } else {
                    0
                },
    {
        if a >= b || a >= self.n || self.token(a).next(a) <= a {
            0
        } else {
            self.advance_at(a) + self.width_between(self.token(a).next(a), b)
        }
    }

    /// The width that a line has at `i`: each level of quotation takes 24 pixels.
    pub open spec fn room_at(self, i: int) -> int {
        if self.width > 24 * self.text_at(i).indent {
            self.width - 24 * self.text_at(i).indent
        } else {
            0
        }
    }

    /// All characters of the page are quoted `depth` times.
    pub open spec fn evenly(self, depth: int) -> bool {
        forall|i: int|
            0 <= i < self.n && #[trigger] self.reaches(0, i) && has_width(self.token(i))
                ==> self.text_at(i).indent == depth
    }

    /// The width that is left for lines that are quoted `depth` times.
    pub open spec fn room(self, depth: int) -> int {
        if self.width > 24 * depth {
            self.width - 24 * depth
        } else {
            0
        }
    }

    proof fn lemma_text_from(self, from: int, s: TextState, i: int)
        requires
            self.sized(),
            0 <= from,
            self.reaches(from, i),
            i < self.n,
        ensures
            self.text_from(from, s, self.token(i).next(i)) == (match self.token(i) {
                Token::Mark(code) => self.text_from(from, s, i).after(self.markup, code),
                _ => self.text_from(from, s, i),
            }),
        decreases i - from,
    {
        self.lemma_reaches_forth(from, i);
        self.lemma_token(i);
        if from < i {
            let s2 = match self.token(from) {
                Token::Mark(code) => s.after(self.markup, code),
                _ => s,
            };
            self.lemma_text_from(self.token(from).next(from), s2, i);
        } else {
            reveal_with_fuel(Layout::text_from, 2);
        }
    }

    proof fn lemma_width_step(self, a: int, i: int)
        requires
            self.sized(),
            0 <= a,
            self.reaches(a, i),
            i < self.n,
        ensures
            self.width_between(a, self.token(i).next(i)) == self.width_between(a, i)
                + self.advance_at(i),
        decreases i - a,
    {
        self.lemma_reaches_forth(a, i);
        self.lemma_token(i);
        if a < i {
            self.lemma_width_step(self.token(a).next(a), i);
        } else {
            reveal_with_fuel(Layout::width_between, 2);
        }
    }

    proof fn lemma_width_split(self, a: int, b: int, c: int)
        requires
            self.sized(),
            0 <= a,
            self.reaches(a, b),
            self.reaches(b, c),
        ensures
            self.width_between(a, c) == self.width_between(a, b) + self.width_between(b, c),
            self.width_between(a, b) >= 0,
        decreases b - a,
    {
        self.lemma_reaches_forth(a, b);
        self.lemma_reaches_forth(b, c);
        if a < b {
            self.lemma_width_split(self.token(a).next(a), b, c);
        }
    }

    /// What is before each character of the stretch fits the width that is left
    /// at this depth.
    pub open spec fn fits(self, start: int, end: int, depth: int) -> bool {
        forall|k: int|
            start <= k < end && #[trigger] self.reaches(0, k) && k < self.n && has_width(
                self.token(k),
            ) ==> self.width_between(start, k) <= self.room(depth)
    }

    /// The text of the line goes up to `end`, less a carriage return; at `e` it
    /// was found that no more goes on the line, which stands in as far as it is
    /// quoted there.
    pub open spec fn ended_at(self, line: LineSpan, end: int, e: int) -> bool {
        let start = line.start as int;
        &&& self.reaches(0, start)
        &&& self.reaches(0, end)
        &&& self.reaches(0, e)
        &&& start <= end <= e
        &&& line.indent == self.text_at(e).indent
        &&& if e < self.n {
            start + line.len == end || (start + line.len == end - 1 && self.buf[end - 1] == 13)
        } else {
            start + line.len == self.n || (start + line.len == self.n - 1 && self.buf[self.n - 1]
                == 13)
        }
        &&& e >= self.n || self.token(e) is Newline || self.token(e) is Image || (has_width(
            self.token(e),
        ) && self.width_between(start, e) + self.advance_at(e) > self.room_at(e))
        &&& end == e || (has_width(self.token(e)) && behind_break(self, start, end)
            && forall|j: int|
            end <= j < e && #[trigger] self.reaches(0, j) ==> !lets_break(self.token(j)))
    }

    pub open spec fn well_ended(self, line: LineSpan) -> bool {
        &&& exists|end: int, e: int| #[trigger] self.ended_at(line, end, e)
        &&& forall|depth: int| #[trigger]
            self.evenly(depth) ==> self.fits(line.start as int, line.start + line.len, depth)
    }
}

/// A token behind which a line may end is the last one before `end`, not before
/// `start`.
pub open spec fn behind_break(page: Layout, start: int, end: int) -> bool {
    exists|j: int|
        start <= j < end && #[trigger] page.reaches(0, j) && j < page.n && lets_break(
            page.token(j),
        ) && page.token(j).next(j) == end
}

impl Layout {
    spec fn all_ended(self, lines: Seq<LineSpan>) -> bool {
        forall|k: int|
            0 <= k < lines.len() && (#[trigger] lines[k]).flags != 8 ==> self.well_ended(lines[k])
    }

    spec fn measured(self, p: Progress) -> bool {
        &&& 0 <= p.ls <= p.sp <= p.i <= self.buf.len()
        &&& self.reaches(0, p.ls)
        &&& self.reaches(0, p.sp)
        &&& self.reaches(0, p.i)
        &&& p.text == self.text_at(p.i)
        &&& p.px == self.width_between(p.ls, p.i)
        &&& p.sp > p.ls ==> p.sp_px == self.width_between(p.ls, p.sp) && behind_break(
            self,
            p.ls,
            p.sp,
        )
        &&& forall|j: int|
            p.sp <= j < p.i && #[trigger] self.reaches(0, j) ==> !lets_break(self.token(j))
        &&& forall|depth: int| #[trigger]
            self.evenly(depth) ==> {
                &&& self.fits(p.ls, p.i, depth)
                &&& p.px > self.room(depth) ==> p.sp == p.ls || p.sp_px == p.px
            }
        &&& self.all_ended(p.lines)
    }

    proof fn lemma_ended(self, p: Progress, end: int, e: int)
        requires
            self.sized(),
            self.measured(p),
            e == p.i,
            p.i < self.n,
            end == p.i || (end == p.sp && p.sp > p.ls && has_width(self.token(p.i))),
            self.token(e) is Newline || self.token(e) is Image || (has_width(
                self.token(e),
            ) && p.px + self.advance_at(e) > self.room_at(e)),
        ensures
            self.all_ended(self.with_line(p.lines, self.text_line(p.text, p.ls, end))),
    {
        let line = self.text_line(p.text, p.ls, end);
        assert(self.ended_at(line, end, e));
        assert(self.well_ended(line));
        let more = self.with_line(p.lines, line);
        assert forall|k: int| 0 <= k < more.len() && (#[trigger] more[k]).flags != 8 implies self.well_ended(
            more[k],
        ) by {
            if k < p.lines.len() {
                assert(more[k] == p.lines[k]);
            }
        }
    }

    proof fn lemma_fits_further(self, p: Progress, depth: int)
        requires
            self.sized(),
            self.measured(p),
            self.evenly(depth),
            p.i < self.n,
            p.px <= self.room(depth) || !has_width(self.token(p.i)),
        ensures
            self.fits(p.ls, self.token(p.i).next(p.i), depth),
    {
        let next = self.token(p.i).next(p.i);
        assert forall|k: int|
            p.ls <= k < next && #[trigger] self.reaches(0, k) && k < self.n && has_width(
                self.token(k),
            ) implies self.width_between(p.ls, k) <= self.room(depth) by {
            if k >= p.i {
                self.lemma_no_token_between(p.i, k);
            }
        }
    }

    proof fn lemma_fits_behind(self, p: Progress, depth: int)
        requires
            self.sized(),
            self.measured(p),
            self.evenly(depth),
            p.i < self.n,
            p.sp > p.ls,
            self.width >= 0,
            has_width(self.token(p.i)),
        ensures
            self.fits(p.sp, self.token(p.i).next(p.i), depth),
    {
        let next = self.token(p.i).next(p.i);
        assert forall|k: int|
            p.sp <= k < next && #[trigger] self.reaches(0, k) && k < self.n && has_width(
                self.token(k),
            ) implies self.width_between(p.sp, k) <= self.room(depth) by {
            self.lemma_reaches_on(0, p.ls, p.sp);
            self.lemma_reaches_on(0, p.sp, k);
            self.lemma_width_split(p.ls, p.sp, k);
            if k >= p.i {
                self.lemma_no_token_between(p.i, k);
            } else {
                assert(self.width_between(p.ls, k) <= self.room(depth));
            }
        }
    }

    #[verifier::rlimit(60)]
    proof fn lemma_measured_step(self, p: Progress)
        requires
            self.sized(),
            self.width >= 0,
            self.measured(p),
            p.i < self.n,
            p.stop is None,
        ensures
            self.step(p).stop is None ==> self.measured(self.step(p)),
            self.all_ended(self.step(p).lines),
            self.step(p).i > p.i,
    {
        let t = self.token(p.i);
        let next = t.next(p.i);
        let q = self.step(p);
        let plain = TextState { bold: false, italic: false, heading: false, indent: 0 };
        self.lemma_token(p.i);
        self.lemma_reaches_step(0, p.i);
        self.lemma_text_from(0, plain, p.i);
        self.lemma_reaches_on(0, p.ls, p.i);
        self.lemma_reaches_on(0, p.ls, p.sp);
        self.lemma_reaches_on(0, p.sp, p.i);
        self.lemma_width_step(p.ls, p.i);
        self.lemma_width_step(p.sp, p.i);
        self.lemma_width_step(p.i, p.i);
        self.lemma_width_split(p.ls, p.sp, p.i);
        assert(INDENT_PX == 24);
        assert(p.text.width_within(self.width) == self.room_at(p.i));
        assert forall|j: int| p.i <= j < next && #[trigger] self.reaches(0, j) implies j == p.i by {
            self.lemma_no_token_between(p.i, j);
        }
        match t {
            Token::Image { path_start, path_len } => {
                self.lemma_ended(p, p.i, p.i);
                let before = if p.ls < p.i {
                    self.with_line(p.lines, self.text_line(p.text, p.ls, p.i))
                } else {
                    p.lines
                };
                let more = self.with_image(before, path_start as int, path_len as int);
                assert forall|k: int| 0 <= k < more.len() && (#[trigger] more[k]).flags
                    != 8 implies self.well_ended(more[k]) by {
                    if k < before.len() {
                        assert(more[k] == before[k]);
                    }
                }
            },
            Token::Newline => {
                self.lemma_ended(p, p.i, p.i);
            },
            Token::Mark(_) | Token::Skip => {
                assert forall|depth: int| #[trigger] self.evenly(depth) implies self.fits(
                    p.ls,
                    next,
                    depth,
                ) by {
                    self.lemma_fits_further(p, depth);
                }
            },
            Token::SoftHyphen(_) => {
                assert forall|depth: int| #[trigger] self.evenly(depth) implies self.fits(
                    p.ls,
                    next,
                    depth,
                ) by {
                    self.lemma_fits_further(p, depth);
                }
                assert(self.reaches(0, p.i));
                assert(behind_break(self, p.ls, next));
            },
            Token::Space(_) | Token::ByteSpace => {
                if q.lines != p.lines || q.ls != p.ls {
                    self.lemma_ended(p, p.i, p.i);
                } else {
                    assert forall|depth: int| #[trigger] self.evenly(depth) implies self.fits(
                        p.ls,
                        next,
                        depth,
                    ) && p.px + self.advance_at(p.i) <= self.room(depth) by {
                        self.lemma_fits_further(p, depth);
                    }
                    assert(self.reaches(0, p.i));
                    assert(behind_break(self, p.ls, next));
                }
                if p.px + self.advance_at(p.i) > self.room_at(p.i) {
                    self.lemma_ended(p, p.i, p.i);
                }
            },
            Token::Glyph(_, _) | Token::ByteGlyph(_) => {
                if p.px + self.advance_at(p.i) > self.room_at(p.i) {
                    if p.sp > p.ls {
                        self.lemma_ended(p, p.sp, p.i);
                        assert forall|depth: int| #[trigger] self.evenly(depth) implies self.fits(
                            p.sp,
                            next,
                            depth,
                        ) by {
                            self.lemma_fits_behind(p, depth);
                        }
                    } else {
                        self.lemma_ended(p, p.i, p.i);
                    }
                } else {
                    assert forall|depth: int| #[trigger] self.evenly(depth) implies self.fits(
                        p.ls,
                        next,
                        depth,
                    ) && p.px + self.advance_at(p.i) <= self.room(depth) by {
                        self.lemma_fits_further(p, depth);
                    }
                }
            },
        }
    }

    proof fn lemma_measured_run(self, p: Progress)
        requires
            self.sized(),
            self.width >= 0,
            p.stop is None ==> self.measured(p),
            self.all_ended(p.lines),
        ensures
            self.run(p).stop is None ==> self.measured(self.run(p)) && self.run(p).i >= self.n,
            self.all_ended(self.run(p).lines),
        decreases
                if p.i < self.n {
                    self.n - p.i
                } else {
                    0
                },
    {
        if p.stop is None && p.i < self.n {
            self.lemma_measured_step(p);
            self.lemma_measured_run(self.step(p));
        }
    }

    /// Every line of text is filled as far as it goes and no further. It ends at
    /// a line's end of the text, before an image, at the end of the page's
    /// bytes, or where the next character would be too much for it; then it ends
    /// behind the last space or soft hyphen on it, and only where there is none
    /// in front of that character. On a page that is quoted throughout as
    /// often, or not at all, what is before each of its characters fits the width
    /// that is left.
    pub proof fn law_lines_are_filled(self, k: int)
        requires
            self.sized(),
            self.width >= 0,
            0 <= k < self.lines().len(),
            self.lines()[k].flags != 8,
        ensures
            self.well_ended(self.lines()[k]),
    {
        let p0 = self.start();
        assert(self.reaches(0, 0));
        self.lemma_measured_run(p0);
        let p = self.run(p0);
        if p.stop is None && p.ls < self.n {
            let line = self.text_line(p.text, p.ls, self.n);
            assert(self.ended_at(line, p.i, p.i));
        }
    }
}

/// As many lines are set on a page as its area has room for, and no more, up to
/// the most that a page can have.
pub proof fn law_a_page_is_as_long_as_its_area(f: FontSet, area_h: u16)
    requires
        f.regular.line_height > 0,
    ensures
        ({
            let face = Face::fitted(Some(f), area_h);
            &&& face.line_h == f.regular.line_height
            &&& face.ascent == f.regular.ascent
            &&& face.fonts == Some(f)
            &&& face.max_lines * face.line_h <= area_h
            &&& face.max_lines <= LINES_PER_PAGE
            &&& face.max_lines < LINES_PER_PAGE ==> (face.max_lines + 1) * face.line_h > area_h
        }),
{
    let h = f.regular.line_height as int;
    let a = area_h as int;
    let n = a / h;
    assert(n * h <= a < (n + 1) * h) by (nonlinear_arith)
        requires
            h > 0,
            a >= 0,
            n == a / h,
    ;
    let m = Face::fitted(Some(f), area_h).max_lines as int;
    assert(m <= n);
    assert(m * h <= n * h) by (nonlinear_arith)
        requires
            m <= n,
            h > 0,
    ;
}

impl Layout {
    /// An image takes up lines of its own, below the text before it: the first
    /// holds its path, and all of them together are as high as an image among
    /// text may be, or as there is room for. The text goes on behind it.
    pub proof fn law_an_image_takes_its_lines(self, p: Progress, i: int)
        requires
            self.fonts.regular.line_height > 0,
            self.token(p.i) is Image,
            0 <= p.i,
            p.ls == p.i,
            p.lines.len() < self.max_lines,
            p.lines.len() <= i < self.step(p).lines.len(),
            p.i + 3 + self.buf[p.i + 2] <= 0xFFFF,
        ensures
            ({
                let q = self.step(p);
                let h = self.fonts.regular.line_height as int;
                let rows = q.lines.len() - p.lines.len();
                &&& q.lines.take(p.lines.len() as int) == p.lines
                &&& q.lines[i].flags == 8
                &&& i == p.lines.len() ==> q.lines[i].start == p.i + 3 && q.lines[i].len
                    == self.buf[p.i + 2]
                &&& i > p.lines.len() ==> q.lines[i].len == 0
                &&& rows >= 1
                &&& rows == 1 || rows * h <= IMAGE_DISPLAY_H
                &&& q.lines.len() < self.max_lines ==> (rows + 1) * h > IMAGE_DISPLAY_H
                &&& q.lines.len() <= self.max_lines
                &&& q.i == p.i + 3 + self.buf[p.i + 2]
                &&& q.ls == q.i
                &&& q.px == 0
                &&& q.text == p.text
                &&& q.stop == if q.lines.len() == self.max_lines {
                    Some(q.i)
                } else {
                    None
                }
            }),
    {
        let q = self.step(p);
        assert(q.lines.take(p.lines.len() as int) =~= p.lines);
        let h = self.fonts.regular.line_height as int;
        let a = IMAGE_DISPLAY_H as int;
        let n = a / h;
        assert(n * h <= a < (n + 1) * h) by (nonlinear_arith)
            requires
                h > 0,
                a >= 0,
                n == a / h,
        ;
        let rows = q.lines.len() - p.lines.len();
        if rows <= n {
            assert(rows * h <= n * h) by (nonlinear_arith)
                requires
                    rows <= n,
                    h > 0,
            ;
        }
        if rows >= n {
            assert((rows + 1) * h >= (n + 1) * h) by (nonlinear_arith)
                requires
                    rows >= n,
                    h > 0,
            ;
        }
    }
}

} // verus!
