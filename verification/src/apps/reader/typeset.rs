//! What a layout keeps of the text: its characters, and the styles that its
//! codes open and close.

use vstd::prelude::*;
use vstd::utf8;

use crate::apps::reader::seen::{distinct_codes, lemma_distinct_codes};
use crate::apps::reader::text::law_decoding_undoes_encoding;
use crate::apps::reader::wrap::{
    on_a_line, Layout, LineSpan, Markup, Progress, TextState, Token,
};
use crate::fonts::Style;

verus! {

/// Each code opens or closes what it is for and nothing else: closing undoes
/// opening, and other codes mean nothing.
pub proof fn law_an_off_code_undoes_its_on_code(s: TextState, m: Markup, other: u8)
    requires
        distinct_codes(m),
    ensures
        s.after(m, m.bold_on) == (TextState { bold: true, ..s }),
        s.after(m, m.bold_off) == (TextState { bold: false, ..s }),
        s.after(m, m.italic_on) == (TextState { italic: true, ..s }),
        s.after(m, m.italic_off) == (TextState { italic: false, ..s }),
        s.after(m, m.heading_on) == (TextState { heading: true, ..s }),
        s.after(m, m.heading_off) == (TextState { heading: false, ..s }),
        !s.bold ==> s.after(m, m.bold_on).after(m, m.bold_off) == s,
        !s.italic ==> s.after(m, m.italic_on).after(m, m.italic_off) == s,
        !s.heading ==> s.after(m, m.heading_on).after(m, m.heading_off) == s,
        s.indent < 255 ==> s.after(m, m.quote_on) == (TextState {
            indent: (s.indent + 1) as u8,
            ..s
        }),
        s.indent > 0 ==> s.after(m, m.quote_off) == (TextState {
            indent: (s.indent - 1) as u8,
            ..s
        }),
        s.indent < 255 ==> s.after(m, m.quote_on).after(m, m.quote_off) == s,
        s.indent == 0 ==> s.after(m, m.quote_off) == s,
        !seq![
            m.bold_on,
            m.bold_off,
            m.italic_on,
            m.italic_off,
            m.heading_on,
            m.heading_off,
            m.quote_on,
            m.quote_off,
        ].contains(other) ==> s.after(m, other) == s,
{
    lemma_distinct_codes(m);
    let all = seq![
        m.bold_on,
        m.bold_off,
        m.italic_on,
        m.italic_off,
        m.heading_on,
        m.heading_off,
        m.quote_on,
        m.quote_off,
    ];
    assert(all[0] == m.bold_on && all[1] == m.bold_off && all[2] == m.italic_on && all[3]
        == m.italic_off && all[4] == m.heading_on && all[5] == m.heading_off && all[6]
        == m.quote_on && all[7] == m.quote_off);
}

/// A heading is set as one whatever else is on, bold outranks italic, and text
/// with nothing on is regular.
pub proof fn law_styles_outrank_each_other(s: TextState, m: Markup)
    requires
        distinct_codes(m),
    ensures
        s.after(m, m.heading_on).style_of() == Style::Heading,
        !s.heading ==> s.after(m, m.bold_on).style_of() == Style::Bold,
        !s.heading && !s.bold ==> s.after(m, m.italic_on).style_of() == Style::Italic,
        s.after(m, m.bold_off).after(m, m.italic_off).after(m, m.heading_off).style_of()
            == Style::Regular,
        s.after(m, m.quote_on).style_of() == s.style_of(),
{
    lemma_distinct_codes(m);
}

impl LineSpan {
    /// The line was closed with these styles on.
    pub open spec fn has_styles(self, bold: bool, italic: bool, heading: bool) -> bool {
        self.flags == (if bold {
            1int
        } else {
            0
        }) + (if italic {
            2int
        } else {
            0
        }) + (if heading {
            4int
        } else {
            0
        })
    }
}

/// A line is drawn in the style that was in force when it was closed.
pub proof fn law_a_line_keeps_its_style(line: LineSpan, s: TextState)
    requires
        line.has_styles(s.bold, s.italic, s.heading),
    ensures
        line.style_of() == s.style_of(),
        !line.image(),
{
}

impl Layout {
    /// The code `code` stands at `j`.
    pub open spec fn code_at(self, j: int, code: u8) -> bool {
        &&& 0 <= j < self.n
        &&& self.reaches(0, j)
        &&& self.token(j) == Token::Mark(code)
    }

    /// Of the two codes, `on` was the last before `i`.
    pub open spec fn open_at(self, on: u8, off: u8, i: int) -> bool {
        exists|j: int|
            j < i && #[trigger] self.code_at(j, on) && forall|k: int|
                j < k < i ==> !#[trigger] self.code_at(k, off)
    }

    proof fn lemma_open_step(self, on: u8, off: u8, i: int)
        requires
            self.sized(),
            0 <= i < self.n,
            self.reaches(0, i),
            on != off,
        ensures
            self.open_at(on, off, self.token(i).next(i)) == (self.token(i) == Token::Mark(on) || (
            self.open_at(on, off, i) && self.token(i) != Token::Mark(off))),
    {
        self.lemma_token(i);
        let next = self.token(i).next(i);
        assert forall|k: int, code: u8| i < k < next implies !#[trigger] self.code_at(k, code) by {
            if self.code_at(k, code) {
                self.lemma_no_token_between(i, k);
            }
        }
        if self.token(i) == Token::Mark(on) {
            assert(self.code_at(i, on));
        } else {
            if self.open_at(on, off, i) && self.token(i) != Token::Mark(off) {
                let j = choose|j: int|
                    j < i && #[trigger] self.code_at(j, on) && forall|k: int|
                        j < k < i ==> !#[trigger] self.code_at(k, off);
                assert(self.code_at(j, on));
                assert forall|k: int| j < k < next implies !#[trigger] self.code_at(k, off) by {}
            }
            if self.open_at(on, off, next) {
                let j = choose|j: int|
                    j < next && #[trigger] self.code_at(j, on) && forall|k: int|
                        j < k < next ==> !#[trigger] self.code_at(k, off);
                assert(self.code_at(j, on));
                assert(j != i);
                assert(j < i);
                assert(!self.code_at(i, off));
            }
        }
    }

    /// The styling at `p` is what the codes before it say.
    spec fn styled(self, p: Progress) -> bool {
        let m = self.markup;
        &&& self.reaches(0, p.i)
        &&& p.text.bold == self.open_at(m.bold_on, m.bold_off, p.i)
        &&& p.text.italic == self.open_at(m.italic_on, m.italic_off, p.i)
        &&& p.text.heading == self.open_at(m.heading_on, m.heading_off, p.i)
        &&& (forall|k: int| k < p.i ==> !#[trigger] self.code_at(k, m.quote_on)) ==> p.text.indent
            == 0
    }

    /// No line ends between `a` and `b`.
    pub open spec fn one_paragraph(self, a: int, b: int) -> bool {
        forall|j: int|
            a <= j < b && #[trigger] self.reaches(0, j) ==> !(self.token(j) is Newline) && !(
            self.token(j) is Image)
    }

    /// The line was closed at `e`, behind its last byte and before its paragraph
    /// ended, with the styles on that the codes up to there say.
    pub open spec fn closed_at(self, line: LineSpan, e: int) -> bool {
        let m = self.markup;
        &&& self.reaches(0, e)
        &&& line.start + line.len <= e
        &&& self.one_paragraph(line.start as int, e)
        &&& line.has_styles(
            self.open_at(m.bold_on, m.bold_off, e),
            self.open_at(m.italic_on, m.italic_off, e),
            self.open_at(m.heading_on, m.heading_off, e),
        )
        &&& (forall|k: int| k < e ==> !#[trigger] self.code_at(k, m.quote_on)) ==> line.indent
            == 0
    }

    /// The line holds the path of an image, or is a blank one below it.
    pub open spec fn of_an_image(self, line: LineSpan) -> bool {
        &&& line.flags == 8
        &&& exists|j: int|
            0 <= j < self.n && #[trigger] self.reaches(0, j) && self.token(j) is Image && ((
            line.start == j + 3 && line.len == self.buf[j + 2]) || (line.start == 0 && line.len
                == 0))
    }

    pub open spec fn well_closed(self, line: LineSpan) -> bool {
        self.of_an_image(line) || exists|e: int| #[trigger] self.closed_at(line, e)
    }

    spec fn all_closed(self, lines: Seq<LineSpan>) -> bool {
        forall|k: int| 0 <= k < lines.len() ==> self.well_closed(#[trigger] lines[k])
    }

    spec fn tidy(self, p: Progress) -> bool {
        &&& 0 <= p.ls <= p.sp <= p.i <= self.buf.len()
        &&& self.styled(p)
        &&& self.one_paragraph(p.ls, p.i)
        &&& self.all_closed(p.lines)
    }

    proof fn lemma_closed(self, p: Progress, end: int)
        requires
            self.sized(),
            self.tidy(p),
            p.ls <= end <= p.i,
        ensures
            self.all_closed(self.with_line(p.lines, self.text_line(p.text, p.ls, end))),
    {
        let line = self.text_line(p.text, p.ls, end);
        assert(self.closed_at(line, p.i));
        let more = self.with_line(p.lines, line);
        assert forall|k: int| 0 <= k < more.len() implies self.well_closed(#[trigger] more[k]) by {
            if k < p.lines.len() {
                assert(more[k] == p.lines[k]);
            }
        }
    }

    proof fn lemma_tidy_step(self, p: Progress)
        requires
            self.sized(),
            distinct_codes(self.markup),
            self.tidy(p),
            p.i < self.n,
            p.stop is None,
        ensures
            self.step(p).stop is None ==> self.tidy(self.step(p)),
            self.all_closed(self.step(p).lines),
            self.step(p).i > p.i,
    {
        let m = self.markup;
        let t = self.token(p.i);
        let next = t.next(p.i);
        lemma_distinct_codes(m);
        self.lemma_token(p.i);
        self.lemma_reaches_step(0, p.i);
        self.lemma_open_step(m.bold_on, m.bold_off, p.i);
        self.lemma_open_step(m.italic_on, m.italic_off, p.i);
        self.lemma_open_step(m.heading_on, m.heading_off, p.i);
        self.lemma_closed(p, p.i);
        self.lemma_closed(p, p.sp);
        assert forall|j: int| p.i <= j < next && #[trigger] self.reaches(0, j) implies j == p.i by {
            self.lemma_no_token_between(p.i, j);
        }
        assert(t == Token::Mark(m.quote_on) ==> self.code_at(p.i, m.quote_on));
        assert(self.styled(Progress { i: next, text: self.step(p).text, ..p })) by {
            if forall|k: int| k < next ==> !#[trigger] self.code_at(k, m.quote_on) {
                assert(forall|k: int| k < p.i ==> !#[trigger] self.code_at(k, m.quote_on));
            }
        }
        match t {
            Token::Image { path_start, path_len } => {
                let before = if p.ls < p.i {
                    self.with_line(p.lines, self.text_line(p.text, p.ls, p.i))
                } else {
                    p.lines
                };
                let more = self.with_image(before, path_start as int, path_len as int);
                assert forall|k: int| 0 <= k < more.len() implies self.well_closed(
                    #[trigger] more[k],
                ) by {
                    if k < before.len() {
                        assert(more[k] == before[k]);
                    } else {
                        assert(self.reaches(0, p.i));
                        assert(self.of_an_image(more[k]));
                    }
                }
            },
            _ => {},
        }
    }

    proof fn lemma_tidy_run(self, p: Progress)
        requires
            self.sized(),
            distinct_codes(self.markup),
            p.stop is None ==> self.tidy(p),
            self.all_closed(p.lines),
        ensures
            self.run(p).stop is None ==> self.tidy(self.run(p)) && self.run(p).i >= self.n,
            self.all_closed(self.run(p).lines),
        decreases
                if p.i < self.n {
                    self.n - p.i
                } else {
                    0
                },
    {
        if p.stop is None && p.i < self.n {
            self.lemma_tidy_step(p);
            self.lemma_tidy_run(self.step(p));
        }
    }

    /// The lines carry the styles that the codes of the text open and close:
    /// each line of text has those on that were opened and not closed where the
    /// line ended, and each other line belongs to an image of the text.
    pub proof fn law_lines_carry_the_styles(self, k: int)
        requires
            self.sized(),
            distinct_codes(self.markup),
            0 <= k < self.lines().len(),
        ensures
            self.well_closed(self.lines()[k]),
    {
        let p0 = self.start();
        let m = self.markup;
        assert(forall|j: int, code: u8| j < 0 ==> !#[trigger] self.code_at(j, code));
        assert(!self.open_at(m.bold_on, m.bold_off, 0));
        assert(!self.open_at(m.italic_on, m.italic_off, 0));
        assert(!self.open_at(m.heading_on, m.heading_off, 0));
        self.lemma_tidy_run(p0);
        let p = self.run(p0);
        if p.stop is None && p.ls < self.n {
            let line = self.text_line(p.text, p.ls, self.n);
            assert(self.closed_at(line, p.i));
        }
    }

    /// Text without a code is set in plain lines.
    pub proof fn law_text_without_codes_is_plain(self, k: int)
        requires
            self.sized(),
            distinct_codes(self.markup),
            forall|j: int| 0 <= j < self.n ==> #[trigger] self.buf[j] != self.markup.marker,
            0 <= k < self.lines().len(),
        ensures
            self.lines()[k].flags == 0,
            self.lines()[k].indent == 0,
    {
        self.law_lines_carry_the_styles(k);
        assert forall|j: int, code: u8| !#[trigger] self.code_at(j, code) by {
            assert(0 <= j < self.n ==> self.buf[j] != self.markup.marker);
        }
        assert(!self.of_an_image(self.lines()[k])) by {
            if self.of_an_image(self.lines()[k]) {
                let j = choose|j: int|
                    0 <= j < self.n && #[trigger] self.reaches(0, j) && self.token(j) is Image;
                assert(self.buf[j] != self.markup.marker);
            }
        }
    }
}

/// The encoding of a text is that of its parts, one behind the other.
pub proof fn lemma_encode_parts(a: Seq<char>, b: Seq<char>)
    ensures
        utf8::encode_utf8(a + b) == utf8::encode_utf8(a) + utf8::encode_utf8(b),
    decreases a.len(),
{
    if a.len() == 0 {
        assert(a + b =~= b);
        assert(utf8::encode_utf8(a) + utf8::encode_utf8(b) =~= utf8::encode_utf8(b));
    } else {
        assert((a + b).drop_first() =~= a.drop_first() + b);
        lemma_encode_parts(a.drop_first(), b);
        assert(utf8::encode_utf8(a + b) =~= utf8::encode_utf8(a) + utf8::encode_utf8(b));
    }
}

/// A character that is seen: no space, no soft hyphen, and nothing that ends a
/// line.
pub open spec fn visible(c: char) -> bool {
    &&& c != ' '
    &&& c != '\u{00A0}'
    &&& c != '\u{00AD}'
    &&& c != '\n'
    &&& c != '\r'
}

impl Layout {
    /// The characters of the text are what is set: each takes the bytes of its
    /// encoding, is measured as itself, and a line may end at a space, a soft
    /// hyphen or a line's end and nowhere else.
    pub proof fn law_characters_are_set(self, i: int, c: char)
        requires
            self.sized(),
            self.markup.marker < 0x80,
            c as u32 != self.markup.marker,
            0 <= i < self.n,
            i + utf8::encode_scalar(c as u32).len() <= self.buf.len(),
            self.buf.subrange(i, i + utf8::encode_scalar(c as u32).len()) == utf8::encode_scalar(
                c as u32,
            ),
        ensures
            self.token(i).next(i) == i + utf8::encode_scalar(c as u32).len(),
            visible(c) && (c as u32) >= 0x80 ==> self.token(i) == Token::Glyph(
                c,
                utf8::encode_scalar(c as u32).len() as usize,
            ),
            visible(c) && (c as u32) < 0x80 ==> self.token(i) == Token::ByteGlyph(c as u8),
            c == ' ' ==> self.token(i) == Token::ByteSpace,
            c == '\u{00A0}' ==> self.token(i) is Space,
            c == '\u{00AD}' ==> self.token(i) is SoftHyphen,
            c == '\n' ==> self.token(i) == Token::Newline,
            c == '\r' ==> self.token(i) == Token::Skip,
    {
        law_decoding_undoes_encoding(self.buf, i, c);
        utf8::char_is_scalar(c);
    }

    /// A marker announces the code behind it, or an image with the length of
    /// its path and the path.
    pub proof fn law_codes_are_read(self, i: int)
        requires
            0 <= i,
            i + 1 < self.n <= self.buf.len() <= 0xFFFF,
            self.buf[i] == self.markup.marker,
        ensures
            self.buf[i + 1] != self.markup.img_ref ==> self.token(i) == Token::Mark(
                self.buf[i + 1],
            ),
            self.buf[i + 1] == self.markup.img_ref && i + 2 < self.n && self.buf[i + 2] > 0 && i
                + 3 + self.buf[i + 2] <= self.n ==> self.token(i) == (Token::Image {
                path_start: (i + 3) as usize,
                path_len: self.buf[i + 2] as usize,
            }),
    {
    }

    proof fn lemma_prefix_reached(self, chars: Seq<char>, k: int)
        requires
            self.sized(),
            self.markup.marker < 0x80,
            forall|j: int|
                0 <= j < chars.len() ==> (#[trigger] chars[j]) as u32 != self.markup.marker,
            self.buf.subrange(0, self.n) == utf8::encode_utf8(chars),
            0 <= k <= chars.len(),
        ensures
            self.reaches(0, utf8::encode_utf8(chars.take(k)).len() as int),
            k < chars.len() ==> ({
                let i = utf8::encode_utf8(chars.take(k)).len() as int;
                let e = utf8::encode_scalar(chars[k] as u32);
                &&& i + e.len() <= self.n
                &&& self.buf.subrange(i, i + e.len()) == e
            }),
        decreases k,
    {
        let all = utf8::encode_utf8(chars);
        if k < chars.len() {
            let e = utf8::encode_scalar(chars[k] as u32);
            let head = utf8::encode_utf8(chars.take(k));
            assert(chars =~= chars.take(k) + chars.skip(k));
            lemma_encode_parts(chars.take(k), chars.skip(k));
            assert(chars.skip(k)[0] == chars[k]);
            assert(utf8::encode_utf8(chars.skip(k)) == e + utf8::encode_utf8(
                chars.skip(k).drop_first(),
            ));
            assert(all.subrange(head.len() as int, head.len() + e.len() as int) =~= e);
            assert(self.buf.subrange(head.len() as int, head.len() + e.len() as int)
                =~= self.buf.subrange(0, self.n).subrange(
                head.len() as int,
                head.len() + e.len() as int,
            ));
        }
        if k > 0 {
            self.lemma_prefix_reached(chars, k - 1);
            let before = chars.take(k - 1);
            assert(chars.take(k) =~= before + seq![chars[k - 1]]);
            lemma_encode_parts(before, seq![chars[k - 1]]);
            assert(utf8::encode_utf8(seq![chars[k - 1]]) =~= utf8::encode_scalar(
                chars[k - 1] as u32,
            )) by {
                reveal_with_fuel(utf8::encode_utf8, 2);
                assert(seq![chars[k - 1]].drop_first() =~= Seq::<char>::empty());
            }
            let i = utf8::encode_utf8(before).len() as int;
            utf8::char_is_scalar(chars[k - 1]);
            self.law_characters_are_set(i, chars[k - 1]);
            self.lemma_reaches_step(0, i);
        } else {
            assert(chars.take(0) =~= Seq::<char>::empty());
        }
    }

    /// Every character of a text that the page takes is on one of its lines.
    pub proof fn law_every_character_is_on_a_line(self, chars: Seq<char>, k: int)
        requires
            self.sized(),
            self.max_lines > 0,
            self.markup.marker < 0x80,
            forall|j: int|
                0 <= j < chars.len() ==> (#[trigger] chars[j]) as u32 != self.markup.marker,
            self.buf.subrange(0, self.n) == utf8::encode_utf8(chars),
            0 <= k < chars.len(),
            visible(chars[k]),
            utf8::encode_utf8(chars.take(k)).len() < self.consumed(),
        ensures
            on_a_line(self.lines(), utf8::encode_utf8(chars.take(k)).len() as int),
    {
        let i = utf8::encode_utf8(chars.take(k)).len() as int;
        self.lemma_prefix_reached(chars, k);
        utf8::char_is_scalar(chars[k]);
        self.law_characters_are_set(i, chars[k]);
        self.law_no_character_is_lost();
        assert(self.glyph_at(i));
    }
}

impl Layout {
    /// A line holds the path of the image whose reference stands at `j`.
    pub open spec fn image_set(self, lines: Seq<LineSpan>, j: int) -> bool {
        exists|k: int|
            0 <= k < lines.len() && (#[trigger] lines[k]).flags == 8 && lines[k].start == j + 3
                && lines[k].len == self.buf[j + 2]
    }

    /// Every image before `end` has its lines.
    spec fn images_set(self, lines: Seq<LineSpan>, end: int) -> bool {
        forall|j: int|
            0 <= j < end && #[trigger] self.reaches(0, j) && self.token(j) is Image
                ==> self.image_set(lines, j)
    }

    proof fn lemma_images_set(self, lines: Seq<LineSpan>, more: Seq<LineSpan>, end: int)
        requires
            self.images_set(lines, end),
            lines.len() <= more.len(),
            forall|k: int| 0 <= k < lines.len() ==> #[trigger] more[k] == lines[k],
        ensures
            self.images_set(more, end),
    {
        assert forall|j: int|
            0 <= j < end && #[trigger] self.reaches(0, j) && self.token(j) is Image implies self.image_set(
            more,
            j,
        ) by {
            let k = choose|k: int|
                0 <= k < lines.len() && (#[trigger] lines[k]).flags == 8 && lines[k].start == j + 3
                    && lines[k].len == self.buf[j + 2];
            assert(more[k] == lines[k]);
        }
    }

    proof fn lemma_images_step(self, p: Progress)
        requires
            self.sized(),
            self.n <= 0xFFFF,
            self.fonts.regular.line_height > 0,
            0 <= p.i < self.n,
            p.stop is None,
            self.reaches(0, p.i),
            p.sp <= p.i,
            p.lines.len() < self.max_lines,
            self.images_set(p.lines, p.i),
        ensures
            ({
                let q = self.step(p);
                &&& q.i > p.i
                &&& q.sp <= q.i
                &&& q.stop is None ==> q.lines.len() < self.max_lines
                &&& q.stop is None ==> self.reaches(0, q.i) && self.images_set(q.lines, q.i)
                &&& q.stop matches Some(s) ==> self.images_set(q.lines, s)
            }),
    {
        let q = self.step(p);
        let next = self.token(p.i).next(p.i);
        self.lemma_token(p.i);
        self.lemma_reaches_step(0, p.i);
        self.lemma_images_set(p.lines, q.lines, p.i);
        assert forall|j: int| p.i <= j < next && #[trigger] self.reaches(0, j) implies j == p.i by {
            self.lemma_no_token_between(p.i, j);
        }
        match self.token(p.i) {
            Token::Image { path_start, path_len } => {
                let before = if p.ls < p.i {
                    self.with_line(p.lines, self.text_line(p.text, p.ls, p.i))
                } else {
                    p.lines
                };
                if !(p.ls < p.i && self.full(before)) {
                    assert(q.lines[before.len() as int].flags == 8);
                    assert(self.image_set(q.lines, p.i));
                    assert(self.images_set(q.lines, next));
                }
            },
            _ => {
                assert(self.images_set(q.lines, next));
            },
        }
    }

    proof fn lemma_images_run(self, p: Progress)
        requires
            self.sized(),
            self.n <= 0xFFFF,
            self.fonts.regular.line_height > 0,
            0 <= p.i,
            p.sp <= p.i,
            p.stop is None ==> self.reaches(0, p.i) && p.lines.len() < self.max_lines
                && self.images_set(p.lines, p.i),
            p.stop matches Some(s) ==> self.images_set(p.lines, s),
        ensures
            ({
                let q = self.run(p);
                &&& q.stop is None ==> q.i >= self.n && self.images_set(q.lines, q.i)
                &&& q.stop matches Some(s) ==> self.images_set(q.lines, s)
            }),
        decreases
                if p.i < self.n {
                    self.n - p.i
                } else {
                    0
                },
    {
        if p.stop is None && p.i < self.n {
            self.lemma_images_step(p);
            self.lemma_images_run(self.step(p));
        }
    }

    /// Every image that the page's bytes name has its line on the page; the next
    /// page starts at or before the first that has none.
    pub proof fn law_every_image_is_on_a_line(self, j: int)
        requires
            self.sized(),
            self.n <= 0xFFFF,
            self.max_lines > 0,
            self.fonts.regular.line_height > 0,
            0 <= j < self.consumed(),
            j < self.n,
            self.reaches(0, j),
            self.token(j) is Image,
        ensures
            self.image_set(self.lines(), j),
    {
        let p0 = self.start();
        assert(self.reaches(0, 0));
        self.lemma_images_run(p0);
        let p = self.run(p0);
        self.lemma_images_set(
            p.lines,
            self.lines(),
            match p.stop {
                Some(s) => s,
                None => p.i,
            },
        );
    }
}

} // verus!
