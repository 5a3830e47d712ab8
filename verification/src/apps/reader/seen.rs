//! What the reader of a page sees: the characters of the text, in their order,
//! their styles and their places.

use vstd::prelude::*;
use vstd::utf8;

use crate::apps::reader::app::{ReaderView, State, MARGIN};
use crate::apps::reader::draw::{glyphs_from, Look, PageDrawView};
use crate::apps::reader::pages::LINE_H;
use crate::apps::reader::text::law_decoding_undoes_encoding;
use crate::apps::reader::wrap::Markup;
use crate::fonts::Style;

verus! {

/// The characters are none that announce a code and none that the fonts leave
/// out.
pub open spec fn drawable(chars: Seq<char>, m: Markup, first: u8) -> bool {
    &&& m.marker < 0x80
    &&& forall|k: int|
        0 <= k < chars.len() ==> (#[trigger] chars[k]) as u32 != m.marker && ((chars[k] as u32)
            < 0x80 ==> chars[k] as u32 >= first)
}

/// The characters, all in one style.
pub open spec fn in_style(chars: Seq<char>, style: Style) -> Seq<(char, Style)> {
    chars.map_values(|c: char| (c, style))
}

/// Text in the middle of a line is drawn character by character, in the style
/// in force, and what follows it as if it stood alone.
proof fn lemma_text_is_drawn(
    line: Seq<u8>,
    m: Markup,
    first: u8,
    j: int,
    style: Style,
    done: Seq<(char, Style)>,
    chars: Seq<char>,
)
    requires
        0 <= j,
        j + utf8::encode_utf8(chars).len() <= line.len(),
        line.subrange(j, j + utf8::encode_utf8(chars).len()) == utf8::encode_utf8(chars),
        drawable(chars, m, first),
    ensures
        glyphs_from(line, m, first, j, style, done) == glyphs_from(
            line,
            m,
            first,
            j + utf8::encode_utf8(chars).len(),
            style,
            done + in_style(chars, style),
        ),
    decreases chars.len(),
{
    if chars.len() == 0 {
        assert(done + in_style(chars, style) =~= done);
    } else {
        let c = chars[0];
        let e = utf8::encode_scalar(c as u32);
        let rest = chars.drop_first();
        let all = utf8::encode_utf8(chars);
        assert(all == e + utf8::encode_utf8(rest));
        assert(line.subrange(j, j + e.len()) =~= all.subrange(0, e.len() as int)) by {
            assert(line.subrange(j, j + all.len()).subrange(0, e.len() as int) =~= line.subrange(
                j,
                j + e.len(),
            ));
        }
        assert(all.subrange(0, e.len() as int) =~= e);
        law_decoding_undoes_encoding(line, j, c);
        assert(drawable(rest, m, first)) by {
            assert forall|k: int| 0 <= k < rest.len() implies (#[trigger] rest[k]) as u32
                != m.marker && ((rest[k] as u32) < 0x80 ==> rest[k] as u32 >= first) by {
                assert(rest[k] == chars[k + 1]);
            }
        }
        assert(line.subrange(j + e.len(), j + all.len()) =~= utf8::encode_utf8(rest)) by {
            assert(line.subrange(j, j + all.len()).skip(e.len() as int) =~= line.subrange(
                j + e.len(),
                j + all.len(),
            ));
            assert(all.skip(e.len() as int) =~= utf8::encode_utf8(rest));
        }
        assert(chars[0] as u32 != m.marker);
        assert(line[j] != m.marker);
        let more = done.push((c, style));
        if line[j] < 0x80 {
            assert(line[j] as char == c);
        }
        assert(glyphs_from(line, m, first, j, style, done) == glyphs_from(
            line,
            m,
            first,
            j + e.len(),
            style,
            more,
        ));
        lemma_text_is_drawn(line, m, first, j + e.len(), style, more, rest);
        assert(more + in_style(rest, style) =~= done + in_style(chars, style));
    }
}

/// A line of text is drawn whole: the characters that are drawn are those that
/// the bytes of the line encode, one for one and in order, all in the style of
/// the line.
pub proof fn law_a_line_is_drawn_whole(chars: Seq<char>, m: Markup, first: u8, style: Style)
    requires
        drawable(chars, m, first),
    ensures
        glyphs_from(utf8::encode_utf8(chars), m, first, 0, style, Seq::empty()) == in_style(
            chars,
            style,
        ),
{
    let line = utf8::encode_utf8(chars);
    assert(line.subrange(0, line.len() as int) =~= line);
    lemma_text_is_drawn(line, m, first, 0, style, Seq::empty(), chars);
    assert(Seq::<(char, Style)>::empty() + in_style(chars, style) =~= in_style(chars, style));
}

/// The codes of a style, and the style.
pub open spec fn opens(m: Markup, on: u8, off: u8, style: Style) -> bool {
    ||| on == m.bold_on && off == m.bold_off && style == Style::Bold
    ||| on == m.italic_on && off == m.italic_off && style == Style::Italic
    ||| on == m.heading_on && off == m.heading_off && style == Style::Heading
}

/// No two codes are the same.
pub open spec fn distinct_codes(m: Markup) -> bool {
    let all = seq![
        m.bold_on,
        m.bold_off,
        m.italic_on,
        m.italic_off,
        m.heading_on,
        m.heading_off,
        m.quote_on,
        m.quote_off,
        m.img_ref,
    ];
    forall|i: int, j: int| 0 <= i < j < all.len() ==> #[trigger] all[i] != #[trigger] all[j]
}

pub proof fn lemma_distinct_codes(m: Markup)
    requires
        distinct_codes(m),
    ensures
        m.bold_on != m.bold_off,
        m.bold_on != m.italic_on,
        m.bold_on != m.italic_off,
        m.bold_on != m.heading_on,
        m.bold_on != m.heading_off,
        m.bold_on != m.quote_on,
        m.bold_on != m.quote_off,
        m.bold_off != m.italic_on,
        m.bold_off != m.italic_off,
        m.bold_off != m.heading_on,
        m.bold_off != m.heading_off,
        m.bold_off != m.quote_on,
        m.bold_off != m.quote_off,
        m.italic_on != m.italic_off,
        m.italic_on != m.heading_on,
        m.italic_on != m.heading_off,
        m.italic_on != m.quote_on,
        m.italic_on != m.quote_off,
        m.italic_off != m.heading_on,
        m.italic_off != m.heading_off,
        m.italic_off != m.quote_on,
        m.italic_off != m.quote_off,
        m.heading_on != m.heading_off,
        m.heading_on != m.quote_on,
        m.heading_on != m.quote_off,
        m.heading_off != m.quote_on,
        m.heading_off != m.quote_off,
        m.quote_on != m.quote_off,
{
    let all = seq![
        m.bold_on,
        m.bold_off,
        m.italic_on,
        m.italic_off,
        m.heading_on,
        m.heading_off,
        m.quote_on,
        m.quote_off,
        m.img_ref,
    ];
    assert(all[0] == m.bold_on && all[1] == m.bold_off && all[2] == m.italic_on && all[3]
        == m.italic_off && all[4] == m.heading_on && all[5] == m.heading_off && all[6]
        == m.quote_on && all[7] == m.quote_off);
}

/// The characters between a code and the one that ends it are drawn in the
/// style that the code opens, those before it in the style of the line, and
/// those behind the end in the regular one. The codes themselves are not drawn.
pub proof fn law_codes_style_what_they_enclose(
    before: Seq<char>,
    inside: Seq<char>,
    behind: Seq<char>,
    m: Markup,
    on: u8,
    off: u8,
    opened: Style,
    first: u8,
    style: Style,
)
    requires
        drawable(before, m, first),
        drawable(inside, m, first),
        drawable(behind, m, first),
        distinct_codes(m),
        opens(m, on, off, opened),
    ensures
        glyphs_from(
            utf8::encode_utf8(before) + seq![m.marker, on] + utf8::encode_utf8(inside) + seq![
                m.marker,
                off,
            ] + utf8::encode_utf8(behind),
            m,
            first,
            0,
            style,
            Seq::empty(),
        ) == in_style(before, style) + in_style(inside, opened) + in_style(
            behind,
            Style::Regular,
        ),
{
    lemma_distinct_codes(m);
    let a = utf8::encode_utf8(before);
    let b = utf8::encode_utf8(inside);
    let c = utf8::encode_utf8(behind);
    let line = a + seq![m.marker, on] + b + seq![m.marker, off] + c;
    let at_b: int = a.len() as int + 2;
    let at_off: int = at_b + b.len();
    let at_c: int = at_off + 2;
    let none = Seq::<(char, Style)>::empty();
    assert(line.subrange(0, a.len() as int) =~= a);
    lemma_text_is_drawn(line, m, first, 0, style, none, before);
    let g1 = none + in_style(before, style);
    assert(line[a.len() as int] == m.marker && line[a.len() as int + 1] == on);
    assert(line.subrange(at_b, at_b + b.len()) =~= b);
    lemma_text_is_drawn(line, m, first, at_b, opened, g1, inside);
    let g2 = g1 + in_style(inside, opened);
    assert(line[at_off] == m.marker && line[at_off + 1] == off);
    assert(line.subrange(at_c, at_c + c.len()) =~= c);
    lemma_text_is_drawn(line, m, first, at_c, Style::Regular, g2, behind);
    let g3 = g2 + in_style(behind, Style::Regular);
    assert(at_c + c.len() == line.len());
    assert(glyphs_from(line, m, first, line.len() as int, Style::Regular, g3) == g3);
    assert(g3 =~= in_style(before, style) + in_style(inside, opened) + in_style(
        behind,
        Style::Regular,
    ));
}

impl ReaderView {
    /// A page of text is on screen.
    pub open spec fn shows_text(self) -> bool {
        &&& self.state == State::Ready
        &&& self.error is None
        &&& !(self.pager.face.fonts is Some && self.fullscreen_img)
    }

    proof fn lemma_line_in_picture(self, look: Look, i: int, n: int)
        requires
            0 <= i < n,
            (if self.pager.face.fonts is Some {
                self.line_picture(look, i)
            } else {
                self.mono_line_picture(i)
            }).len() > 0,
        ensures
            self.lines_picture(look, n).contains(
                (if self.pager.face.fonts is Some {
                    self.line_picture(look, i)
                } else {
                    self.mono_line_picture(i)
                })[0],
            ),
        decreases n,
    {
        let d = (if self.pager.face.fonts is Some {
            self.line_picture(look, i)
        } else {
            self.mono_line_picture(i)
        })[0];
        let front = self.lines_picture(look, n - 1);
        let all = self.lines_picture(look, n);
        if i < n - 1 {
            self.lemma_line_in_picture(look, i, n - 1);
            let k = choose|k: int| 0 <= k < front.len() && front[k] == d;
            assert(all[k] == d);
        } else {
            assert(all[front.len() as int] == d);
        }
    }

    proof fn lemma_in_whole_picture(self, look: Look, d: PageDrawView)
        requires
            self.shows_text(),
            self.lines_picture(look, self.pager.lines.len() as int).contains(d),
        ensures
            self.picture(look).contains(d),
    {
        let lines = self.lines_picture(look, self.pager.lines.len() as int);
        let k = choose|k: int| 0 <= k < lines.len() && lines[k] == d;
        assert(self.main_picture(look)[k] == d);
        assert(self.picture(look)[self.head_picture().len() + k] == d);
    }

    /// Every line of the page is drawn, with all its characters: line `i` below
    /// the line before it, by the height of a line, and as far in as it is
    /// quoted.
    pub proof fn law_every_line_is_drawn(self, look: Look, i: int, chars: Seq<char>)
        requires
            self.shows_text(),
            self.pager.face.fonts is Some,
            0 <= i < self.pager.lines.len(),
            self.pager.lines[i].flags < 8,
            self.pager.buf.subrange(
                self.pager.lines[i].start as int,
                self.pager.lines[i].start + self.pager.lines[i].len,
            ) == utf8::encode_utf8(chars),
            drawable(chars, self.pager.markup, look.first_char),
        ensures
            ({
                let l = self.pager.lines[i];
                self.picture(look).contains(
                    PageDrawView::Run {
                        x: (MARGIN + 24 * l.indent) as i32,
                        baseline: (self.screen.text_y() + self.pager.face.ascent + i
                            * self.pager.face.line_h) as i32,
                        glyphs: in_style(
                            chars,
                            if l.flags >= 4 {
                                Style::Heading
                            } else if l.flags % 2 == 1 {
                                Style::Bold
                            } else if l.flags >= 2 {
                                Style::Italic
                            } else {
                                Style::Regular
                            },
                        ),
                    },
                )
            }),
    {
        let l = self.pager.lines[i];
        law_a_line_is_drawn_whole(chars, self.pager.markup, look.first_char, l.style_of());
        self.lemma_line_in_picture(look, i, self.pager.lines.len() as int);
        self.lemma_in_whole_picture(look, self.line_picture(look, i)[0]);
    }

    /// The same of a page in the built-in font, whose characters are drawn as
    /// they are.
    pub proof fn law_every_plain_line_is_drawn(self, look: Look, i: int)
        requires
            self.shows_text(),
            self.pager.face.fonts is None,
            0 <= i < self.pager.lines.len(),
            utf8::valid_utf8(
                self.pager.buf.subrange(
                    self.pager.lines[i].start as int,
                    self.pager.lines[i].start + self.pager.lines[i].len,
                ),
            ),
        ensures
            ({
                let l = self.pager.lines[i];
                self.picture(look).contains(
                    PageDrawView::Mono {
                        x: MARGIN as i32,
                        y: (self.screen.text_y() + (i + 1) * LINE_H) as i32,
                        text: self.pager.buf.subrange(l.start as int, l.start + l.len),
                    },
                )
            }),
    {
        assert((i + 1) * LINE_H == i * LINE_H + LINE_H) by (nonlinear_arith);
        self.lemma_line_in_picture(look, i, self.pager.lines.len() as int);
        self.lemma_in_whole_picture(look, self.mono_line_picture(i)[0]);
    }
}

} // verus!
