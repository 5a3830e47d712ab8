//! Breaking styled text into the lines of a page.

use vstd::prelude::*;

use crate::fonts::{FontSet, Style};
use crate::apps::reader::text;
use crate::apps::reader::text::{decode_utf8_char, is_wrap_space, trim_trailing_cr};

verus! {

/// Pixels that one level of quotation indents a line by.
pub const INDENT_PX: u32 = 24;

/// Height that an image takes among text.
pub const IMAGE_DISPLAY_H: u16 = 200;

/// The byte codes that style stripped chapter text. `marker` announces one of
/// the others; after `img_ref` come the length of a path and the path.
#[derive(Clone, Copy)]
pub struct Markup {
    pub marker: u8,
    pub img_ref: u8,
    pub bold_on: u8,
    pub bold_off: u8,
    pub italic_on: u8,
    pub italic_off: u8,
    pub heading_on: u8,
    pub heading_off: u8,
    pub quote_on: u8,
    pub quote_off: u8,
}

/// One line of a page: a stretch of the page buffer, and the style and the
/// quotation level that were in force when the line was closed.
#[derive(Clone, Copy, PartialEq, Eq, Structural)]
pub struct LineSpan {
    pub start: u16,
    pub len: u16,
    pub flags: u8,
    pub indent: u8,
}

pub const FLAG_BOLD: u8 = 1;

pub const FLAG_ITALIC: u8 = 2;

pub const FLAG_HEADING: u8 = 4;

pub const FLAG_IMAGE: u8 = 8;

impl LineSpan {
    pub open spec fn has_flag(&self, flag: u8) -> bool {
        (self.flags / flag) % 2 == 1
    }

    /// A line that an image takes up.
    pub open spec fn image(&self) -> bool {
        self.has_flag(FLAG_IMAGE)
    }

    /// The first line of an image: the one that holds the path.
    pub open spec fn image_origin(&self) -> bool {
        self.image() && self.len > 0
    }

    pub open spec fn style_of(&self) -> Style {
        if self.has_flag(FLAG_HEADING) {
            Style::Heading
        } else if self.has_flag(FLAG_BOLD) {
            Style::Bold
        } else if self.has_flag(FLAG_ITALIC) {
            Style::Italic
        } else {
            Style::Regular
        }
    }

    pub fn empty() -> (r: LineSpan)
        ensures
            r == (LineSpan { start: 0, len: 0, flags: 0, indent: 0 }),
    {
        LineSpan { start: 0, len: 0, flags: 0, indent: 0 }
    }

    pub fn is_image(&self) -> (r: bool)
        ensures
            r == self.image(),
    {
        (self.flags / FLAG_IMAGE) % 2 == 1
    }

    pub fn is_image_origin(&self) -> (r: bool)
        ensures
            r == self.image_origin(),
    {
        self.is_image() && self.len > 0
    }

    pub fn style(&self) -> (r: Style)
        ensures
            r == self.style_of(),
    {
        if (self.flags / FLAG_HEADING) % 2 == 1 {
            Style::Heading
        } else if (self.flags / FLAG_BOLD) % 2 == 1 {
            Style::Bold
        } else if (self.flags / FLAG_ITALIC) % 2 == 1 {
            Style::Italic
        } else {
            Style::Regular
        }
    }

    pub fn pack_flags(bold: bool, italic: bool, heading: bool) -> (r: u8)
        ensures
            r == packed(bold, italic, heading),
    {
        (if bold { FLAG_BOLD } else { 0 }) + (if italic { FLAG_ITALIC } else { 0 }) + (if heading {
            FLAG_HEADING
        } else {
            0
        })
    }
}

/// The flags of a text line.
pub open spec fn packed(bold: bool, italic: bool, heading: bool) -> u8 {
    ((if bold { FLAG_BOLD as int } else { 0 }) + (if italic { FLAG_ITALIC as int } else { 0 }) + (
    if heading { FLAG_HEADING as int } else { 0 })) as u8
}

/// The styling in force at some point of the text.
#[derive(Clone, Copy, PartialEq, Eq, Structural)]
pub struct TextState {
    pub bold: bool,
    pub italic: bool,
    pub heading: bool,
    pub indent: u8,
}

impl TextState {
    /// The style that glyphs are measured in: a heading outranks bold, bold
    /// outranks italic.
    pub open spec fn style_of(self) -> Style {
        if self.heading {
            Style::Heading
        } else if self.bold {
            Style::Bold
        } else if self.italic {
            Style::Italic
        } else {
            Style::Regular
        }
    }

    /// The styling after the marker code `code`. A code that means nothing
    /// here changes nothing.
    pub open spec fn after(self, m: Markup, code: u8) -> TextState {
        if code == m.bold_on {
            TextState { bold: true, ..self }
        } else if code == m.bold_off {
            TextState { bold: false, ..self }
        } else if code == m.italic_on {
            TextState { italic: true, ..self }
        } else if code == m.italic_off {
            TextState { italic: false, ..self }
        } else if code == m.heading_on {
            TextState { heading: true, ..self }
        } else if code == m.heading_off {
            TextState { heading: false, ..self }
        } else if code == m.quote_on {
            TextState { indent: if self.indent < 255 { (self.indent + 1) as u8 } else { 255 }, ..self }
        } else if code == m.quote_off {
            TextState { indent: if self.indent > 0 { (self.indent - 1) as u8 } else { 0 }, ..self }
        } else {
            self
        }
    }

    /// The width left for text at this level of quotation.
    pub open spec fn width_within(self, full: int) -> int {
        if full > INDENT_PX * self.indent {
            full - INDENT_PX * self.indent
        } else {
            0
        }
    }

    pub fn plain() -> (r: TextState)
        ensures
            r == (TextState { bold: false, italic: false, heading: false, indent: 0 }),
    {
        TextState { bold: false, italic: false, heading: false, indent: 0 }
    }

    pub fn style(&self) -> (r: Style)
        ensures
            r == self.style_of(),
    {
        if self.heading {
            Style::Heading
        } else if self.bold {
            Style::Bold
        } else if self.italic {
            Style::Italic
        } else {
            Style::Regular
        }
    }

    pub fn apply(&mut self, m: &Markup, code: u8)
        ensures
            *final(self) == old(self).after(*m, code),
    {
        if code == m.bold_on {
            self.bold = true;
        } else if code == m.bold_off {
            self.bold = false;
        } else if code == m.italic_on {
            self.italic = true;
        } else if code == m.italic_off {
            self.italic = false;
        } else if code == m.heading_on {
            self.heading = true;
        } else if code == m.heading_off {
            self.heading = false;
        } else if code == m.quote_on {
            self.indent = self.indent.saturating_add(1);
        } else if code == m.quote_off {
            self.indent = self.indent.saturating_sub(1);
        }
    }
}

/// What the text holds at one position.
#[derive(Clone, Copy, PartialEq, Eq, Structural)]
pub enum Token {
    /// An image reference whose path is `path_len` bytes from `path_start`.
    Image { path_start: usize, path_len: usize },
    /// A marker and its code.
    Mark(u8),
    /// A byte without width or effect.
    Skip,
    Newline,
    /// An invisible break opportunity of so many bytes.
    SoftHyphen(usize),
    /// A space between words that takes more than a byte, and its length.
    Space(usize),
    /// The ASCII space.
    ByteSpace,
    /// A character of several bytes and its length.
    Glyph(char, usize),
    /// An ASCII character.
    ByteGlyph(u8),
}

impl Token {
    /// Where the next token starts when this one starts at `i`.
    pub open spec fn next(self, i: int) -> int {
        match self {
            Token::Image { path_start, path_len } => path_start + path_len,
            Token::Mark(_) => i + 2,
            Token::Skip => i + 1,
            Token::Newline => i + 1,
            Token::SoftHyphen(k) => i + k,
            Token::Space(k) => i + k,
            Token::ByteSpace => i + 1,
            Token::Glyph(_, k) => i + k,
            Token::ByteGlyph(_) => i + 1,
        }
    }

    /// The width of the token in pixels.
    pub open spec fn width(self, fonts: FontSet, style: Style) -> int {
        match self {
            Token::Space(_) => fonts.advance_of(' ', style) as int,
            Token::ByteSpace => fonts.byte_advance_of(32, style) as int,
            Token::Glyph(ch, _) => fonts.advance_of(ch, style) as int,
            Token::ByteGlyph(b) => fonts.byte_advance_of(b, style) as int,
            _ => 0,
        }
    }
}

/// The token at `i` of the first `n` bytes of `buf`.
pub open spec fn token_of(buf: Seq<u8>, n: int, m: Markup, i: int) -> Token {
    let b = buf[i];
    if b == m.marker && i + 1 < n {
        if buf[i + 1] == m.img_ref && i + 2 < n && buf[i + 2] > 0 && i + 3 + buf[i + 2] <= n {
            Token::Image { path_start: (i + 3) as usize, path_len: buf[i + 2] as usize }
        } else {
            Token::Mark(buf[i + 1])
        }
    } else if b == 13 {
        Token::Skip
    } else if b == 10 {
        Token::Newline
    } else if b >= 0xC0 {
        let (ch, k) = text::decoded_char(buf, i);
        if ch == '\u{00AD}' {
            Token::SoftHyphen(k as usize)
        } else if text::wrap_space(ch) {
            Token::Space(k as usize)
        } else {
            Token::Glyph(ch, k as usize)
        }
    } else if b >= 0x80 {
        Token::Skip
    } else if b == 32 {
        Token::ByteSpace
    } else {
        Token::ByteGlyph(b)
    }
}

pub fn token_at(buf: &[u8], n: usize, m: &Markup, i: usize) -> (r: Token)
    requires
        i < n <= buf@.len(),
        buf@.len() <= 0xFFFF,
    ensures
        r == token_of(buf@, n as int, *m, i as int),
        i < r.next(i as int) <= i + 258,
        r.next(i as int) <= buf@.len(),
        r is Image || r is Mark ==> r.next(i as int) <= n,
        r matches Token::ByteGlyph(b) ==> b < 128,
{
    let b = buf[i];
    if b == m.marker && i + 1 < n {
        if buf[i + 1] == m.img_ref && i + 2 < n {
            let path_len = buf[i + 2] as usize;
            let path_start = i + 3;
            if path_start + path_len <= n && path_len > 0 {
                return Token::Image { path_start, path_len };
            }
        }
        return Token::Mark(buf[i + 1]);
    }
    if b == 13 {
        return Token::Skip;
    }
    if b == 10 {
        return Token::Newline;
    }
    if b >= 0xC0 {
        let (ch, k) = decode_utf8_char(buf, i);
        if ch == '\u{00AD}' {
            return Token::SoftHyphen(k);
        }
        if is_wrap_space(ch) {
            return Token::Space(k);
        }
        return Token::Glyph(ch, k);
    }
    if b >= 0x80 {
        return Token::Skip;
    }
    if b == 32 {
        return Token::ByteSpace;
    }
    Token::ByteGlyph(b)
}

/// What a page is laid out from: the bytes, how many of them count, the
/// fonts, the number of lines and their width in pixels.
pub struct Layout {
    pub buf: Seq<u8>,
    pub n: int,
    pub fonts: FontSet,
    pub markup: Markup,
    pub max_lines: int,
    pub width: int,
}

/// The layout at some point: the next byte, the start of the open line and
/// its width so far, the last break opportunity on it and the width up to
/// there, the styling, and the lines laid out. `stop` is set once the page is
/// full, to the first byte of the next page.
pub struct Progress {
    pub i: int,
    pub ls: int,
    pub px: int,
    pub sp: int,
    pub sp_px: int,
    pub text: TextState,
    pub lines: Seq<LineSpan>,
    pub stop: Option<int>,
}

pub open spec fn image_line(start: int, len: int) -> LineSpan {
    LineSpan { start: start as u16, len: len as u16, flags: FLAG_IMAGE, indent: 0 }
}

/// The line that holds `buf[start..end]`, less a trailing carriage return.
pub open spec fn line_of(buf: Seq<u8>, text: TextState, start: int, end: int) -> LineSpan {
    LineSpan {
        start: start as u16,
        len: (text::trimmed_end(buf, start, end) - start) as u16,
        flags: packed(text.bold, text.italic, text.heading),
        indent: text.indent,
    }
}

impl Layout {
    pub open spec fn text_line(self, text: TextState, start: int, end: int) -> LineSpan {
        line_of(self.buf, text, start, end)
    }

    /// `lines` with one more, where the page has room for it.
    pub open spec fn with_line(self, lines: Seq<LineSpan>, line: LineSpan) -> Seq<LineSpan> {
        if lines.len() < self.max_lines {
            lines.push(line)
        } else {
            lines
        }
    }

    /// How many lines an image takes, as far as the page has room.
    pub open spec fn image_rows(self) -> int {
        let rows = IMAGE_DISPLAY_H as int / self.fonts.regular.line_height as int;
        if rows < 1 {
            1
        } else {
            rows
        }
    }

    /// `lines` followed by the lines of an image: the one that holds the path
    /// and blank ones below it, as many as fit.
    pub open spec fn with_image(
        self,
        lines: Seq<LineSpan>,
        path_start: int,
        path_len: int,
    ) -> Seq<LineSpan> {
        let room = self.max_lines - lines.len();
        let rows = if room < 0 {
            0
        } else if room < self.image_rows() {
            room
        } else {
            self.image_rows()
        };
        lines + Seq::new(
            rows as nat,
            |k: int|
                if k == 0 {
                    image_line(path_start, path_len)
                } else {
                    image_line(0, 0)
                },
        )
    }

    pub open spec fn full(self, lines: Seq<LineSpan>) -> bool {
        lines.len() >= self.max_lines
    }

    pub open spec fn token(self, i: int) -> Token {
        token_of(self.buf, self.n, self.markup, i)
    }

    /// The open line is closed at `end` and the next one starts at `start`,
    /// `px` pixels of it being taken already.
    pub open spec fn broken(self, p: Progress, end: int, start: int, px: int, next: int) -> Progress {
        let lines = self.with_line(p.lines, self.text_line(p.text, p.ls, end));
        Progress {
            i: next,
            ls: start,
            px,
            sp: start,
            sp_px: 0,
            lines,
            stop: if self.full(lines) {
                Some(start)
            } else {
                None
            },
            ..p
        }
    }

    /// The layout after the token at `p.i`.
    pub open spec fn step(self, p: Progress) -> Progress {
        let token = self.token(p.i);
        let next = token.next(p.i);
        match token {
            Token::Image { path_start, path_len } => {
                let before = if p.ls < p.i {
                    self.with_line(p.lines, self.text_line(p.text, p.ls, p.i))
                } else {
                    p.lines
                };
                if p.ls < p.i && self.full(before) {
                    Progress { i: next, lines: before, stop: Some(p.i), ..p }
                } else {
                    let lines = self.with_image(before, path_start as int, path_len as int);
                    Progress {
                        i: next,
                        ls: next,
                        px: 0,
                        sp: next,
                        sp_px: 0,
                        text: p.text,
                        lines,
                        stop: if self.full(lines) {
                            Some(next)
                        } else {
                            None
                        },
                    }
                }
            },
            Token::Mark(code) => Progress { i: next, text: p.text.after(self.markup, code), ..p },
            Token::Skip => Progress { i: next, ..p },
            Token::Newline => self.broken(p, p.i, next, 0, next),
            Token::SoftHyphen(_) => Progress { i: next, sp: next, sp_px: p.px, ..p },
            Token::Space(_) | Token::ByteSpace => {
                let px = p.px + token.width(self.fonts, p.text.style_of());
                if px > p.text.width_within(self.width) {
                    self.broken(p, p.i, next, 0, next)
                } else {
                    Progress { i: next, px, sp: next, sp_px: px, ..p }
                }
            },
            Token::Glyph(_, _) | Token::ByteGlyph(_) => {
                let advance = token.width(self.fonts, p.text.style_of());
                let px = p.px + advance;
                if px > p.text.width_within(self.width) {
                    if p.sp > p.ls {
                        self.broken(p, p.sp, p.sp, px - p.sp_px, next)
                    } else {
                        self.broken(p, p.i, p.i, advance, next)
                    }
                } else {
                    Progress { i: next, px, ..p }
                }
            },
        }
    }

    /// The layout after all tokens that fit on the page.
    pub open spec fn run(self, p: Progress) -> Progress
        decreases
                if p.i < self.n {
                    self.n - p.i
                } else {
                    0
                },
    {
        if p.stop is Some || p.i >= self.n || self.step(p).i <= p.i {
            p
        } else {
            self.run(self.step(p))
        }
    }

    pub open spec fn start(self) -> Progress {
        Progress {
            i: 0,
            ls: 0,
            px: 0,
            sp: 0,
            sp_px: 0,
            text: TextState { bold: false, italic: false, heading: false, indent: 0 },
            lines: Seq::empty(),
            stop: None,
        }
    }

    /// The lines of the page. Text that is still open when the bytes run out
    /// makes up a last line.
    pub open spec fn lines(self) -> Seq<LineSpan> {
        let p = self.run(self.start());
        let end = text::trimmed_end(self.buf, p.ls, self.n);
        if p.stop is None && p.ls < self.n && !self.full(p.lines) && end > p.ls {
            p.lines.push(self.text_line(p.text, p.ls, self.n))
        } else {
            p.lines
        }
    }

    /// How many bytes the page takes.
    pub open spec fn consumed(self) -> int {
        match self.run(self.start()).stop {
            Some(at) => at,
            None => self.n,
        }
    }
}

/// Puts the line `buf[start..end]` at `lines[lc]`, where the page has room for
/// it, and returns the number of lines there are then.
fn put_line(
    buf: &[u8],
    lines: &mut [LineSpan],
    lc: usize,
    max_l: usize,
    text: TextState,
    start: usize,
    end: usize,
) -> (r: usize)
    requires
        start <= end <= buf@.len() <= 0xFFFF,
        lc <= max_l <= old(lines)@.len(),
    ensures
        r == if lc < max_l {
            lc + 1
        } else {
            lc as int
        },
        final(lines)@ == if lc < max_l {
            old(lines)@.update(lc as int, line_of(buf@, text, start as int, end as int))
        } else {
            old(lines)@
        },
{
    if lc < max_l {
        let e = trim_trailing_cr(buf, start, end);
        lines[lc] = LineSpan {
            start: start as u16,
            len: (e - start) as u16,
            flags: LineSpan::pack_flags(text.bold, text.italic, text.heading),
            indent: text.indent,
        };
        lc + 1
    } else {
        lc
    }
}

/// Puts the lines of an image at `lines[lc]` and below, as many as the page has
/// room for, and returns the number of lines there are then.
fn put_image(
    lines: &mut [LineSpan],
    lc: usize,
    max_l: usize,
    rows: usize,
    path_start: usize,
    path_len: usize,
) -> (r: usize)
    requires
        lc <= max_l <= old(lines)@.len(),
        path_start <= 0xFFFF,
        path_len <= 0xFFFF,
        rows >= 1,
    ensures
        r == if max_l - lc < rows {
            max_l as int
        } else {
            lc + rows
        },
        final(lines)@.len() == old(lines)@.len(),
        forall|j: int|
            0 <= j < old(lines)@.len() ==> #[trigger] final(lines)@[j] == if j < lc || r <= j {
                old(lines)@[j]
            } else if j == lc {
                image_line(path_start as int, path_len as int)
            } else {
                image_line(0, 0)
            },
{
    let mut at = lc;
    while at < max_l && at - lc < rows
        invariant
            lc <= at <= max_l <= lines@.len(),
            lines@.len() == old(lines)@.len(),
            at - lc <= rows,
            path_start <= 0xFFFF,
            path_len <= 0xFFFF,
            forall|j: int|
                0 <= j < lines@.len() ==> #[trigger] lines@[j] == if j < lc || at <= j {
                    old(lines)@[j]
                } else if j == lc {
                    image_line(path_start as int, path_len as int)
                } else {
                    image_line(0, 0)
                },
        decreases max_l - at,
    {
        if at == lc {
            lines[at] = LineSpan {
                start: path_start as u16,
                len: path_len as u16,
                flags: FLAG_IMAGE,
                indent: 0,
            };
        } else {
            lines[at] = LineSpan { start: 0, len: 0, flags: FLAG_IMAGE, indent: 0 };
        }
        at += 1;
    }
    at
}

/// What the layout of a page keeps while it goes through the text.
struct Cursor {
    i: usize,
    ls: usize,
    px: u32,
    sp: usize,
    sp_px: u32,
    text: TextState,
    lc: usize,
}

impl Cursor {
    spec fn progress(self, lines: Seq<LineSpan>, stop: Option<int>) -> Progress {
        Progress {
            i: self.i as int,
            ls: self.ls as int,
            px: self.px as int,
            sp: self.sp as int,
            sp_px: self.sp_px as int,
            text: self.text,
            lines: lines.take(self.lc as int),
            stop,
        }
    }

    spec fn within(self, len: int, max_l: int) -> bool {
        &&& self.ls <= self.sp <= self.i <= len
        &&& self.sp_px <= self.px <= 0xFFFF * self.i
        &&& self.lc <= max_l
    }

    /// Closes the open line at `end`; the next one starts at `start` with
    /// `px` pixels taken. Says whether the page is full.
    fn break_line(
        &mut self,
        buf: &[u8],
        lines: &mut [LineSpan],
        max_l: usize,
        end: usize,
        start: usize,
        px: u32,
    ) -> (full: bool)
        requires
            old(self).ls <= end <= buf@.len() <= 0xFFFF,
            old(self).lc <= max_l <= old(lines)@.len(),
        ensures
            full == (final(self).lc >= max_l),
            final(self).lc <= max_l,
            *final(self) == (Cursor {
                ls: start,
                px,
                sp: start,
                sp_px: 0,
                lc: final(self).lc,
                ..*old(self)
            }),
            final(lines)@.len() == old(lines)@.len(),
            final(lines)@.skip(final(self).lc as int) =~= old(lines)@.skip(final(self).lc as int),
            final(lines)@.take(final(self).lc as int) =~= (if old(self).lc < max_l {
                old(lines)@.take(old(self).lc as int).push(
                    line_of(buf@, old(self).text, old(self).ls as int, end as int),
                )
            } else {
                old(lines)@.take(old(self).lc as int)
            }),
    {
        self.lc = put_line(buf, lines, self.lc, max_l, self.text, self.ls, end);
        self.ls = start;
        self.px = px;
        self.sp = start;
        self.sp_px = 0;
        self.lc >= max_l
    }

    /// Lays out an image.
    fn place_image(
        &mut self,
        buf: &[u8],
        fonts: &FontSet,
        lines: &mut [LineSpan],
        max_l: usize,
        path_start: usize,
        path_len: usize,
        Ghost(page): Ghost<Layout>,
    ) -> (stop: Option<usize>)
        requires
            buf@.len() <= 0xFFFF,
            page.buf == buf@,
            page.fonts == *fonts,
            page.max_lines == max_l,
            fonts.regular.line_height > 0,
            old(self).within(buf@.len() as int, max_l as int),
            max_l <= old(lines)@.len(),
            old(self).i < path_start + path_len <= buf@.len(),
            page.token(old(self).i as int) == (Token::Image { path_start, path_len }),
        ensures
            final(self).within(buf@.len() as int, max_l as int),
            final(lines)@.len() == old(lines)@.len(),
            final(lines)@.skip(final(self).lc as int) =~= old(lines)@.skip(final(self).lc as int),
            final(self).progress(
                final(lines)@,
                stop_at(stop),
            ) == page.step(old(self).progress(old(lines)@, None)),
    {
        let ghost p = self.progress(lines@, None);
        if self.ls < self.i {
            let at = self.i;
            let ls = self.ls;
            self.lc = put_line(buf, lines, self.lc, max_l, self.text, ls, at);
            assert(lines@.take(self.lc as int) =~= page.with_line(
                p.lines,
                page.text_line(p.text, p.ls, p.i),
            ));
            if self.lc >= max_l {
                self.i = path_start + path_len;
                return Some(at);
            }
        }
        let ghost text_lines = lines@.take(self.lc as int);
        let line_h = fonts.line_height(Style::Regular);
        let mut rows = (IMAGE_DISPLAY_H / line_h) as usize;
        if rows < 1 {
            rows = 1;
        }
        assert(rows == page.image_rows());
        self.lc = put_image(lines, self.lc, max_l, rows, path_start, path_len);
        assert(lines@.take(self.lc as int) =~= page.with_image(
            text_lines,
            path_start as int,
            path_len as int,
        ));
        self.i = path_start + path_len;
        self.ls = self.i;
        self.px = 0;
        self.sp = self.i;
        self.sp_px = 0;
        if self.lc >= max_l {
            Some(self.i)
        } else {
            None
        }
    }

    /// Lays out the token at the cursor. Once the page is full, says where the
    /// next one starts.
    fn advance(
        &mut self,
        buf: &[u8],
        n: usize,
        fonts: &FontSet,
        markup: &Markup,
        lines: &mut [LineSpan],
        max_l: usize,
        width: u32,
        Ghost(page): Ghost<Layout>,
    ) -> (stop: Option<usize>)
        requires
            n <= buf@.len() <= 0xFFFF,
            page == (Layout {
                buf: buf@,
                n: n as int,
                fonts: *fonts,
                markup: *markup,
                max_lines: max_l as int,
                width: width as int,
            }),
            fonts.regular.line_height > 0,
            old(self).i < n,
            old(self).within(buf@.len() as int, max_l as int),
            max_l <= old(lines)@.len(),
        ensures
            final(self).within(buf@.len() as int, max_l as int),
            final(self).i > old(self).i,
            final(lines)@.len() == old(lines)@.len(),
            final(lines)@.skip(final(self).lc as int) =~= old(lines)@.skip(final(self).lc as int),
            final(self).progress(
                final(lines)@,
                stop_at(stop),
            ) == page.step(old(self).progress(old(lines)@, None)),
    {
        let i = self.i;
        let token = token_at(buf, n, markup, i);
        let max_w = width.saturating_sub(INDENT_PX * self.text.indent as u32);
        match token {
            Token::Image { path_start, path_len } => {
                return self.place_image(
                    buf,
                    fonts,
                    lines,
                    max_l,
                    path_start,
                    path_len,
                    Ghost(page),
                );
            },
            Token::Mark(code) => {
                self.text.apply(markup, code);
                self.i = i + 2;
            },
            Token::Skip => {
                self.i = i + 1;
            },
            Token::Newline => {
                self.i = i + 1;
                if self.break_line(buf, lines, max_l, i, i + 1, 0) {
                    return Some(i + 1);
                }
            },
            Token::SoftHyphen(k) => {
                self.i = i + k;
                self.sp = i + k;
                self.sp_px = self.px;
            },
            Token::Space(_) | Token::ByteSpace => {
                let (adv, k): (u32, usize) = match token {
                    Token::Space(k) => (fonts.advance(' ', self.text.style()) as u32, k),
                    _ => (fonts.advance_byte(32, self.text.style()) as u32, 1),
                };
                let px = self.px + adv;
                self.i = i + k;
                if px > max_w {
                    if self.break_line(buf, lines, max_l, i, i + k, 0) {
                        return Some(i + k);
                    }
                } else {
                    self.px = px;
                    self.sp = i + k;
                    self.sp_px = px;
                }
            },
            Token::Glyph(_, _) | Token::ByteGlyph(_) => {
                let (adv, k): (u32, usize) = match token {
                    Token::Glyph(ch, k) => (fonts.advance(ch, self.text.style()) as u32, k),
                    Token::ByteGlyph(b) => (fonts.advance_byte(b, self.text.style()) as u32, 1),
                    _ => (0, 1),
                };
                let px = self.px + adv;
                self.i = i + k;
                if px > max_w {
                    let sp = self.sp;
                    if sp > self.ls {
                        let left = px - self.sp_px;
                        if self.break_line(buf, lines, max_l, sp, sp, left) {
                            return Some(sp);
                        }
                    } else {
                        if self.break_line(buf, lines, max_l, i, i, adv) {
                            return Some(i);
                        }
                    }
                } else {
                    self.px = px;
                }
            },
        }
        None
    }
}

spec fn stop_at(stop: Option<usize>) -> Option<int> {
    match stop {
        Some(at) => Some(at as int),
        None => None,
    }
}

/// Lays out the first `n` bytes of `buf` in at most `max_lines` lines of
/// `max_width_px` pixels. Returns how many bytes the page takes and how many
/// lines it has; those lines are put at the front of `lines`.
pub fn wrap_proportional(
    buf: &[u8],
    n: usize,
    fonts: &FontSet,
    markup: &Markup,
    lines: &mut [LineSpan],
    max_lines: usize,
    max_width_px: u32,
) -> (r: (usize, usize))
    requires
        n <= buf@.len() <= 0xFFFF,
        fonts.regular.line_height > 0,
    ensures
        ({
            let page = Layout {
                buf: buf@,
                n: n as int,
                fonts: *fonts,
                markup: *markup,
                max_lines: if max_lines < old(lines)@.len() {
                    max_lines as int
                } else {
                    old(lines)@.len() as int
                },
                width: max_width_px as int,
            };
            &&& r.0 == page.consumed()
            &&& r.1 == page.lines().len()
            &&& r.1 <= page.max_lines
            &&& r.0 <= buf@.len()
            &&& final(lines)@ == page.lines() + old(lines)@.skip(r.1 as int)
        }),
{
    let max_l = if max_lines < lines.len() {
        max_lines
    } else {
        lines.len()
    };
    let ghost page = Layout {
        buf: buf@,
        n: n as int,
        fonts: *fonts,
        markup: *markup,
        max_lines: max_l as int,
        width: max_width_px as int,
    };
    let mut cur = Cursor {
        i: 0,
        ls: 0,
        px: 0,
        sp: 0,
        sp_px: 0,
        text: TextState::plain(),
        lc: 0,
    };
    assert(cur.progress(lines@, None).lines =~= page.start().lines);
    while cur.i < n
        invariant
            n <= buf@.len() <= 0xFFFF,
            fonts.regular.line_height > 0,
            page == (Layout {
                buf: buf@,
                n: n as int,
                fonts: *fonts,
                markup: *markup,
                max_lines: max_l as int,
                width: max_width_px as int,
            }),
            max_l == if max_lines < old(lines)@.len() {
                max_lines as int
            } else {
                old(lines)@.len() as int
            },
            lines@.len() == old(lines)@.len(),
            cur.within(buf@.len() as int, max_l as int),
            lines@.skip(cur.lc as int) == old(lines)@.skip(cur.lc as int),
            page.run(page.start()) == page.run(cur.progress(lines@, None)),
        decreases buf@.len() - cur.i,
    {
        let ghost p = cur.progress(lines@, None);
        let ghost lc = cur.lc as int;
        let ghost was = lines@;
        let stop = cur.advance(
            buf,
            n,
            fonts,
            markup,
            lines,
            max_l,
            max_width_px,
            Ghost(page),
        );
        proof {
            assert(page.run(p) == page.run(page.step(p)));
            lemma_skip_further(was, old(lines)@, lc, cur.lc as int);
            assert(lines@ =~= lines@.take(cur.lc as int) + old(lines)@.skip(cur.lc as int));
        }
        if let Some(at) = stop {
            return (at, cur.lc);
        }
    }
    proof {
        assert(lines@ =~= lines@.take(cur.lc as int) + old(lines)@.skip(cur.lc as int));
    }
    let ls = cur.ls;
    if ls < n && cur.lc < max_l {
        let e = trim_trailing_cr(buf, ls, n);
        if e > ls {
            cur.lc = put_line(buf, lines, cur.lc, max_l, cur.text, ls, n);
            assert(lines@ =~= page.lines() + old(lines)@.skip(cur.lc as int));
        }
    }
    (n, cur.lc)
}

proof fn lemma_skip_further(a: Seq<LineSpan>, b: Seq<LineSpan>, i: int, j: int)
    requires
        0 <= i <= j <= a.len(),
        a.len() == b.len(),
        a.skip(i) == b.skip(i),
    ensures
        a.skip(j) == b.skip(j),
{
    assert(a.skip(j) =~= a.skip(i).skip(j - i));
    assert(b.skip(j) =~= b.skip(i).skip(j - i));
}

impl LineSpan {
    /// The line lies within the first `len` bytes.
    pub open spec fn within(self, len: int) -> bool {
        self.start + self.len <= len
    }
}

pub open spec fn all_within(lines: Seq<LineSpan>, len: int) -> bool {
    forall|k: int| 0 <= k < lines.len() ==> (#[trigger] lines[k]).within(len)
}

impl Layout {
    /// The sizes that a page buffer can have.
    pub open spec fn sized(self) -> bool {
        &&& 0 <= self.n <= self.buf.len() <= 0xFFFF
        &&& 0 <= self.max_lines
        &&& self.fonts.regular.line_height > 0
    }

    spec fn sound(self, p: Progress) -> bool {
        &&& 0 <= p.ls <= p.sp <= p.i <= self.buf.len()
        &&& p.lines.len() <= self.max_lines
        &&& all_within(p.lines, self.buf.len() as int)
        &&& p.stop matches Some(at) ==> 0 <= at <= self.buf.len()
    }

    pub(crate) proof fn lemma_token(self, i: int)
        requires
            self.sized(),
            0 <= i < self.n,
        ensures
            i < self.token(i).next(i) <= self.buf.len(),
            self.token(i) matches Token::Image { path_start, path_len } ==> path_start + path_len
                == self.token(i).next(i),
    {
        if self.buf[i] >= 0xC0 {
            lemma_decoded_len(self.buf, i);
        }
    }

    proof fn lemma_step_sound(self, p: Progress)
        requires
            self.sized(),
            self.sound(p),
            p.i < self.n,
            p.stop is None,
        ensures
            self.sound(self.step(p)),
            self.step(p).i > p.i,
    {
        self.lemma_token(p.i);
    }

    proof fn lemma_run_sound(self, p: Progress)
        requires
            self.sized(),
            self.sound(p),
        ensures
            self.sound(self.run(p)),
        decreases
                if p.i < self.n {
                    self.n - p.i
                } else {
                    0
                },
    {
        if p.stop is None && p.i < self.n {
            self.lemma_step_sound(p);
            self.lemma_run_sound(self.step(p));
        }
    }

    /// A page has no more lines than it has room for, takes no more bytes than
    /// the buffer holds, and every line lies within the buffer.
    pub proof fn law_lines_within_page(self)
        requires
            self.sized(),
        ensures
            self.lines().len() <= self.max_lines,
            0 <= self.consumed() <= self.buf.len(),
            all_within(self.lines(), self.buf.len() as int),
    {
        self.lemma_run_sound(self.start());
    }
}

/// The line of a text or of an image's path, and not a blank one below an
/// image.
pub open spec fn holds_bytes(line: LineSpan) -> bool {
    line.len > 0
}

/// Byte `j` is on one of the lines.
pub open spec fn on_a_line(lines: Seq<LineSpan>, j: int) -> bool {
    exists|k: int|
        0 <= k < lines.len() && (#[trigger] lines[k]).start <= j < lines[k].start + lines[k].len
}

/// The lines hold stretches of the first `end` bytes, one behind the other.
pub open spec fn one_by_one(lines: Seq<LineSpan>, end: int) -> bool {
    &&& forall|a: int, b: int|
        0 <= a < b < lines.len() && holds_bytes(#[trigger] lines[a]) && holds_bytes(
            #[trigger] lines[b],
        ) ==> lines[a].start + lines[a].len <= lines[b].start
    &&& forall|a: int|
        0 <= a < lines.len() && holds_bytes(#[trigger] lines[a]) ==> lines[a].start + lines[a].len
            <= end
}

impl Layout {
    /// From the token at `from` on, a token starts at `i`.
    pub open spec fn reaches(self, from: int, i: int) -> bool
        decreases i - from,
    {
        from == i || (from < self.n && from < self.token(from).next(from) <= i && self.reaches(
            self.token(from).next(from),
            i,
        ))
    }

    /// A character with a glyph starts at `i`.
    pub open spec fn glyph_at(self, i: int) -> bool {
        &&& 0 <= i < self.n
        &&& self.reaches(0, i)
        &&& self.token(i) is Glyph || self.token(i) is ByteGlyph
    }

    pub(crate) proof fn lemma_reaches_forth(self, from: int, i: int)
        requires
            self.reaches(from, i),
        ensures
            from <= i,
        decreases i - from,
    {
    }

    pub(crate) proof fn lemma_reaches_on(self, from: int, a: int, b: int)
        requires
            self.reaches(from, a),
            self.reaches(from, b),
            a <= b,
        ensures
            self.reaches(a, b),
        decreases a - from,
    {
        self.lemma_reaches_forth(from, a);
        if from < a {
            self.lemma_reaches_on(self.token(from).next(from), a, b);
        }
    }

    pub(crate) proof fn lemma_reaches_step(self, from: int, i: int)
        requires
            self.reaches(from, i),
            i < self.n,
            self.token(i).next(i) > i,
        ensures
            self.reaches(from, self.token(i).next(i)),
        decreases i - from,
    {
        self.lemma_reaches_forth(from, i);
        if from < i {
            self.lemma_reaches_step(self.token(from).next(from), i);
        } else {
            reveal_with_fuel(Layout::reaches, 2);
        }
    }

    /// Between a token and the next one, no other starts.
    pub(crate) proof fn lemma_no_token_between(self, i: int, j: int)
        requires
            self.reaches(0, i),
            self.reaches(0, j),
            i <= j < self.token(i).next(i),
        ensures
            i == j,
    {
        self.lemma_reaches_on(0, i, j);
        if i < j {
            self.lemma_reaches_forth(self.token(i).next(i), j);
        }
    }

    /// Nothing was lost up to `end`.
    spec fn kept(self, lines: Seq<LineSpan>, end: int) -> bool {
        forall|j: int| #[trigger] self.glyph_at(j) && j < end ==> on_a_line(lines, j)
    }

    spec fn faithful(self, p: Progress) -> bool {
        &&& self.sound(p)
        &&& self.reaches(0, p.i)
        &&& match p.stop {
            Some(at) => self.kept(p.lines, at) && one_by_one(p.lines, at),
            None => {
                &&& !self.full(p.lines)
                &&& self.kept(p.lines, p.ls)
                &&& one_by_one(p.lines, p.ls)
                &&& one_by_one(p.lines, self.n)
            },
        }
    }

    proof fn lemma_line_kept(self, lines: Seq<LineSpan>, text: TextState, start: int, end: int)
        requires
            self.sized(),
            0 <= start <= end <= self.buf.len(),
            self.kept(lines, start),
            one_by_one(lines, start),
        ensures
            self.kept(lines.push(self.text_line(text, start, end)), end),
            one_by_one(lines.push(self.text_line(text, start, end)), end),
    {
        let line = self.text_line(text, start, end);
        let more = lines.push(line);
        assert(line.start == start);
        assert(line.len == text::trimmed_end(self.buf, start, end) - start);
        assert forall|j: int| #[trigger] self.glyph_at(j) && j < end implies on_a_line(
            more,
            j,
        ) by {
            if j < start {
                let k = choose|k: int|
                    0 <= k < lines.len() && (#[trigger] lines[k]).start <= j < lines[k].start
                        + lines[k].len;
                assert(more[k] == lines[k]);
            } else {
                assert(self.buf[j] != 13);
                assert(more[lines.len() as int] == line);
            }
        }
    }

    proof fn lemma_kept_further(self, lines: Seq<LineSpan>, p: int, end: int)
        requires
            self.kept(lines, p),
            one_by_one(lines, p),
            p <= end,
            self.reaches(0, p),
            end <= self.token(p).next(p),
            !(self.token(p) is Glyph),
            !(self.token(p) is ByteGlyph),
        ensures
            self.kept(lines, end),
            one_by_one(lines, end),
    {
        assert forall|j: int| #[trigger] self.glyph_at(j) && j < end implies on_a_line(
            lines,
            j,
        ) by {
            if j >= p {
                self.lemma_no_token_between(p, j);
            }
        }
    }

    proof fn lemma_image_kept(self, lines: Seq<LineSpan>, i: int)
        requires
            self.sized(),
            0 <= i < self.n,
            self.reaches(0, i),
            self.token(i) is Image,
            self.kept(lines, i),
            one_by_one(lines, i),
            !self.full(lines),
        ensures
            ({
                let t = self.token(i);
                let more = self.with_image(
                    lines,
                    t->path_start as int,
                    t->path_len as int,
                );
                &&& self.kept(more, t.next(i))
                &&& one_by_one(more, t.next(i))
                &&& more.len() <= self.max_lines
            }),
    {
        let t = self.token(i);
        let next = t.next(i);
        self.lemma_token(i);
        let more = self.with_image(lines, t->path_start as int, t->path_len as int);
        self.lemma_kept_further(lines, i, next);
        assert forall|j: int| #[trigger] self.glyph_at(j) && j < next implies on_a_line(
            more,
            j,
        ) by {
            let k = choose|k: int|
                0 <= k < lines.len() && (#[trigger] lines[k]).start <= j < lines[k].start
                    + lines[k].len;
            assert(more[k] == lines[k]);
        }
        assert forall|a: int, b: int|
            0 <= a < b < more.len() && holds_bytes(#[trigger] more[a]) && holds_bytes(
                #[trigger] more[b],
            ) implies more[a].start + more[a].len <= more[b].start by {
            if b < lines.len() {
                assert(more[a] == lines[a] && more[b] == lines[b]);
            } else {
                assert(b == lines.len());
                assert(more[a] == lines[a]);
            }
        }
        assert forall|a: int| 0 <= a < more.len() && holds_bytes(#[trigger] more[a]) implies more[a].start
            + more[a].len <= next by {
            if a < lines.len() {
                assert(more[a] == lines[a]);
            }
        }
    }

    proof fn lemma_step_faithful(self, p: Progress)
        requires
            self.sized(),
            self.faithful(p),
            p.i < self.n,
            p.stop is None,
        ensures
            self.faithful(self.step(p)),
    {
        self.lemma_token(p.i);
        self.lemma_step_sound(p);
        self.lemma_reaches_step(0, p.i);
        let t = self.token(p.i);
        let next = t.next(p.i);
        match t {
            Token::Image { path_start, path_len } => {
                if p.ls < p.i {
                    self.lemma_line_kept(p.lines, p.text, p.ls, p.i);
                    let before = p.lines.push(self.text_line(p.text, p.ls, p.i));
                    if !self.full(before) {
                        self.lemma_image_kept(before, p.i);
                    }
                } else {
                    self.lemma_image_kept(p.lines, p.i);
                }
            },
            Token::Newline | Token::Space(_) | Token::ByteSpace => {
                self.lemma_line_kept(p.lines, p.text, p.ls, p.i);
                let more = p.lines.push(self.text_line(p.text, p.ls, p.i));
                self.lemma_kept_further(more, p.i, next);
            },
            Token::Glyph(_, _) | Token::ByteGlyph(_) => {
                self.lemma_line_kept(p.lines, p.text, p.ls, p.sp);
                self.lemma_line_kept(p.lines, p.text, p.ls, p.i);
            },
            _ => {},
        }
    }

    proof fn lemma_run_faithful(self, p: Progress)
        requires
            self.sized(),
            self.faithful(p),
        ensures
            self.faithful(self.run(p)),
            self.run(p).stop is Some || self.run(p).i >= self.n,
        decreases
                if p.i < self.n {
                    self.n - p.i
                } else {
                    0
                },
    {
        if p.stop is None && p.i < self.n {
            self.lemma_step_faithful(p);
            self.lemma_step_sound(p);
            self.lemma_run_faithful(self.step(p));
        }
    }

    /// No character is lost and none is shown twice: every character before
    /// the start of the next page is on a line of this one, and the lines hold
    /// stretches of the text one behind the other, all of them before the
    /// start of the next page.
    pub proof fn law_no_character_is_lost(self)
        requires
            self.sized(),
            self.max_lines > 0,
        ensures
            forall|j: int|
                #[trigger] self.glyph_at(j) && j < self.consumed() ==> on_a_line(self.lines(), j),
            one_by_one(self.lines(), self.consumed()),
    {
        self.lemma_run_faithful(self.start());
        let p = self.run(self.start());
        if p.stop is None {
            let end = text::trimmed_end(self.buf, p.ls, self.n);
            if p.ls < self.n {
                self.lemma_line_kept(p.lines, p.text, p.ls, self.n);
                if end <= p.ls {
                    assert(end == p.ls && self.buf[p.ls] == 13);
                    assert forall|j: int| #[trigger] self.glyph_at(j) && j < self.n implies on_a_line(
                        p.lines,
                        j,
                    ) by {
                        if j >= p.ls {
                            assert(j == p.ls);
                        }
                    }
                }
            } else {
                assert(self.kept(p.lines, self.n));
            }
        }
    }
}

proof fn lemma_decoded_len(buf: Seq<u8>, pos: int)
    requires
        0 <= pos < buf.len(),
    ensures
        1 <= text::decoded_char(buf, pos).1 <= 4,
        pos + text::decoded_char(buf, pos).1 <= buf.len(),
{
    reveal_with_fuel(text::continuation_run, 5);
}

} // verus!
