//! What the reader shows.

use vstd::prelude::*;
use vstd::utf8;

use crate::apps::reader::app::{
    ReaderApp, ReaderView, State, HEADER_H, MARGIN, NO_CHAPTER, PROGRESS_H,
};
use crate::apps::reader::cache::BgCacheState;
use crate::apps::reader::pages::{LINE_H, PAGE_BUF};
use crate::apps::reader::text::{decode_utf8_char, decoded_char};
use crate::apps::reader::wrap::{Markup, IMAGE_DISPLAY_H, INDENT_PX};
use crate::bytes::{decimal, lemma_ascii_text, push_bytes, push_decimal, text_bytes, utf8_or};
use crate::fonts::Style;
use crate::ui::{Alignment, Region, Screen};

verus! {

/// What is known of the fonts beyond the widths: the font of the table of
/// contents, and the first character that the fonts have.
#[derive(Debug, Clone, Copy, PartialEq, Eq, Structural)]
pub struct Look {
    pub toc_line_h: u16,
    pub toc_ascent: u16,
    pub first_char: u8,
}

/// One thing to draw.
pub enum PageDraw {
    /// Paint in the background colour.
    Clear(Region),
    /// A text of the system, in its own font or the built-in one; inverted on
    /// a filled region.
    Chrome { region: Region, text: Vec<u8>, align: Alignment, inverted: bool, built_in: bool },
    /// Paint in the foreground colour.
    Fill { x: i32, y: i32, w: u32, h: u32 },
    /// Characters of the book, one after another.
    Run { x: i32, baseline: i32, glyphs: Vec<(char, Style)> },
    /// The word that stands for an image.
    Placeholder { x: i32, baseline: i32 },
    /// An entry of the table of contents; `here` marks the chapter on screen.
    Entry { x: i32, baseline: i32, here: bool, title: Vec<u8>, inverted: bool },
    /// A text in the built-in font.
    Mono { x: i32, y: i32, text: Vec<u8> },
    /// The first rows of the page's image.
    Blit { x: i32, y: i32, w: u32, h: u32 },
}

/// One thing to draw, as a value.
pub enum PageDrawView {
    Clear(Region),
    Chrome { region: Region, text: Seq<u8>, align: Alignment, inverted: bool, built_in: bool },
    Fill { x: i32, y: i32, w: u32, h: u32 },
    Run { x: i32, baseline: i32, glyphs: Seq<(char, Style)> },
    Placeholder { x: i32, baseline: i32 },
    Entry { x: i32, baseline: i32, here: bool, title: Seq<u8>, inverted: bool },
    Mono { x: i32, y: i32, text: Seq<u8> },
    Blit { x: i32, y: i32, w: u32, h: u32 },
}

impl View for PageDraw {
    type V = PageDrawView;

    open spec fn view(&self) -> PageDrawView {
        match *self {
            PageDraw::Clear(r) => PageDrawView::Clear(r),
            PageDraw::Chrome { region, text, align, inverted, built_in } => PageDrawView::Chrome {
                region,
                text: text@,
                align,
                inverted,
                built_in,
            },
            PageDraw::Fill { x, y, w, h } => PageDrawView::Fill { x, y, w, h },
            PageDraw::Run { x, baseline, glyphs } => PageDrawView::Run {
                x,
                baseline,
                glyphs: glyphs@,
            },
            PageDraw::Placeholder { x, baseline } => PageDrawView::Placeholder { x, baseline },
            PageDraw::Entry { x, baseline, here, title, inverted } => PageDrawView::Entry {
                x,
                baseline,
                here,
                title: title@,
                inverted,
            },
            PageDraw::Mono { x, y, text } => PageDrawView::Mono { x, y, text: text@ },
            PageDraw::Blit { x, y, w, h } => PageDrawView::Blit { x, y, w, h },
        }
    }
}

/// What a display list shows.
pub open spec fn page_shown(ops: Seq<PageDraw>) -> Seq<PageDrawView> {
    ops.map_values(|d: PageDraw| d@)
}

fn put(ops: &mut Vec<PageDraw>, d: PageDraw)
    ensures
        page_shown(final(ops)@) == page_shown(old(ops)@).push(d@),
{
    let ghost before = ops@;
    ops.push(d);
    proof {
        assert(page_shown(ops@) =~= page_shown(before).push(d@));
    }
}

/// The style after a styling code.
pub open spec fn restyled(style: Style, m: Markup, code: u8) -> Style {
    if code == m.bold_on {
        Style::Bold
    } else if code == m.italic_on {
        Style::Italic
    } else if code == m.heading_on {
        Style::Heading
    } else if code == m.bold_off || code == m.italic_off || code == m.heading_off {
        Style::Regular
    } else {
        style
    }
}

fn restyle(style: Style, m: &Markup, code: u8) -> (r: Style)
    ensures
        r == restyled(style, *m, code),
{
    if code == m.bold_on {
        Style::Bold
    } else if code == m.italic_on {
        Style::Italic
    } else if code == m.heading_on {
        Style::Heading
    } else if code == m.bold_off || code == m.italic_off || code == m.heading_off {
        Style::Regular
    } else {
        style
    }
}

/// The characters of a line from byte `j` on, after those in `done`. Styling
/// codes, control characters and stray bytes are not drawn.
pub open spec fn glyphs_from(
    line: Seq<u8>,
    m: Markup,
    first: u8,
    j: int,
    style: Style,
    done: Seq<(char, Style)>,
) -> Seq<(char, Style)>
    decreases line.len() - j,
{
    if j < 0 || j >= line.len() {
        done
    } else if line[j] == m.marker && j + 1 < line.len() {
        glyphs_from(line, m, first, j + 2, restyled(style, m, line[j + 1]), done)
    } else if line[j] >= 0xC0 {
        let (ch, len) = decoded_char(line, j);
        if len > 0 {
            glyphs_from(line, m, first, j + len, style, done.push((ch, style)))
        } else {
            done
        }
    } else if line[j] >= 0x80 || line[j] < first {
        glyphs_from(line, m, first, j + 1, style, done)
    } else {
        glyphs_from(line, m, first, j + 1, style, done.push((line[j] as char, style)))
    }
}

fn line_glyphs(line: &[u8], m: &Markup, first: u8, style: Style) -> (r: Vec<(char, Style)>)
    requires
        line@.len() <= PAGE_BUF,
    ensures
        r@ == glyphs_from(line@, *m, first, 0, style, Seq::empty()),
{
    let mut out: Vec<(char, Style)> = Vec::new();
    let mut sty = style;
    let mut j: usize = 0;
    assert(out@ =~= Seq::empty());
    while j < line.len()
        invariant
            j <= line@.len() <= PAGE_BUF,
            glyphs_from(line@, *m, first, 0, style, Seq::empty()) == glyphs_from(
                line@,
                *m,
                first,
                j as int,
                sty,
                out@,
            ),
        decreases line@.len() - j,
    {
        let b = line[j];
        if b == m.marker && j + 1 < line.len() {
            sty = restyle(sty, m, line[j + 1]);
            j += 2;
        } else if b >= 0xC0 {
            let (ch, len) = decode_utf8_char(line, j);
            out.push((ch, sty));
            j += len;
        } else if b >= 0x80 || b < first {
            j += 1;
        } else {
            out.push((b as char, sty));
            j += 1;
        }
    }
    out
}

/// Half of what `outer` has more than `inner`.
pub open spec fn centred(outer: int, inner: int) -> int {
    if outer > inner {
        (outer - inner) / 2
    } else {
        0
    }
}

fn centre(outer: i32, inner: i32) -> (r: i32)
    requires
        0 <= outer <= 0xFFFF,
        0 <= inner <= 0xFFFF,
    ensures
        r == centred(outer as int, inner as int),
{
    if outer > inner {
        (outer - inner) / 2
    } else {
        0
    }
}

/// "a/b".
pub open spec fn of_text(a: int, b: int) -> Seq<u8> {
    decimal(a as nat) + text_bytes("/") + decimal(b as nat)
}

fn push_of(out: &mut Vec<u8>, a: u64, b: u64)
    ensures
        final(out)@ == old(out)@ + of_text(a as int, b as int),
{
    let ghost was = out@;
    push_decimal(out, a);
    push_bytes(out, "/".as_bytes());
    push_decimal(out, b);
    assert(out@ =~= was + of_text(a as int, b as int));
}

pub open spec fn chrome(
    region: Region,
    text: Seq<u8>,
    align: Alignment,
    built_in: bool,
) -> Seq<PageDrawView> {
    if text.len() == 0 {
        seq![PageDrawView::Clear(region)]
    } else {
        seq![
            PageDrawView::Clear(region),
            PageDrawView::Chrome { region, text, align, inverted: false, built_in },
        ]
    }
}

fn draw_chrome_text(
    ops: &mut Vec<PageDraw>,
    region: Region,
    text: Vec<u8>,
    align: Alignment,
    built_in: bool,
)
    ensures
        page_shown(final(ops)@) == page_shown(old(ops)@) + chrome(region, text@, align, built_in),
{
    let ghost was = page_shown(ops@);
    put(ops, PageDraw::Clear(region));
    if text.len() > 0 {
        put(ops, PageDraw::Chrome { region, text, align, inverted: false, built_in });
    }
    assert(page_shown(ops@) =~= was + chrome(region, text@, align, built_in));
}

impl Screen {
    pub open spec fn header_area(self) -> Region {
        Region { x: MARGIN, y: (self.content_top + 2) as u16, w: 300, h: HEADER_H }
    }

    pub open spec fn status_area(self) -> Region {
        Region { x: 308, y: (self.content_top + 2) as u16, w: 164, h: HEADER_H }
    }

    pub open spec fn loading_area(self) -> Region {
        Region { x: MARGIN, y: (self.content_top + 20) as u16, w: 464, h: 20 }
    }
}

impl ReaderView {
    /// The text of the title, of the file's name where there is none, or of
    /// neither.
    pub open spec fn name_text(self) -> Seq<u8> {
        if self.title.len() > 0 && utf8::valid_utf8(self.title) {
            self.title
        } else if utf8::valid_utf8(self.filename) {
            self.filename
        } else {
            text_bytes("???")
        }
    }

    pub open spec fn page_no(self) -> int {
        self.pager.page + 1
    }

    pub open spec fn page_of_pages(self) -> Seq<u8> {
        of_text(self.page_no(), self.pager.total_pages as int)
    }

    pub open spec fn chapter_of_chapters(self) -> Seq<u8> {
        of_text(self.chapter + 1, self.spine.len() as int)
    }

    /// The position in a book with chapters.
    pub open spec fn book_status(self) -> Seq<u8> {
        let all = self.pager.fully_indexed;
        let here = if self.spine.len() > 1 {
            if all {
                text_bytes("Ch") + self.chapter_of_chapters() + text_bytes(" ")
                    + self.page_of_pages()
            } else {
                text_bytes("Ch") + self.chapter_of_chapters() + text_bytes(" p") + decimal(
                    self.page_no() as nat,
                )
            }
        } else if all {
            self.page_of_pages()
        } else {
            text_bytes("p") + decimal(self.page_no() as nat)
        };
        if self.cache.bg != BgCacheState::Idle {
            here + text_bytes(" *")
        } else {
            here
        }
    }

    /// The position in a plain text.
    pub open spec fn text_status(self) -> Seq<u8> {
        if self.pager.fully_indexed {
            self.page_of_pages()
        } else {
            decimal(self.page_no() as nat) + text_bytes(" | ") + decimal(self.progress() as nat)
                + text_bytes("%")
        }
    }

    pub open spec fn status(self) -> Option<Seq<u8>> {
        if self.state == State::ShowToc {
            Some(text_bytes("Contents"))
        } else if self.is_epub && self.spine.len() > 0 {
            Some(self.book_status())
        } else if self.pager.file_size > 0 {
            Some(self.text_status())
        } else {
            None
        }
    }

    pub open spec fn head_picture(self) -> Seq<PageDrawView> {
        let built_in = !self.has_chrome_font;
        chrome(self.screen.header_area(), self.name_text(), Alignment::CenterLeft, built_in) + (
        match self.status() {
            Some(t) => chrome(self.screen.status_area(), t, Alignment::CenterRight, built_in),
            None => Seq::empty(),
        })
    }

    /// What is said while there is no page to show.
    pub open spec fn wait_text(self) -> Seq<u8> {
        match self.state {
            State::NeedCache => text_bytes("Preparing..."),
            State::NeedIndex => text_bytes("Indexing..."),
            _ => text_bytes("Loading..."),
        }
    }

    /// How many entries of the table of contents are drawn.
    pub open spec fn toc_visible(self, line_h: u16) -> int {
        let rows = (self.screen.text_area() / line_h) as int;
        let left = if self.toc_scroll < self.toc.len() {
            self.toc.len() - self.toc_scroll
        } else {
            0
        };
        if rows < left {
            rows
        } else {
            left
        }
    }

    pub open spec fn title_of(self, i: int) -> Seq<u8> {
        if utf8::valid_utf8(self.toc[i].title) {
            self.toc[i].title
        } else {
            Seq::empty()
        }
    }

    /// Row `i` of the table of contents.
    pub open spec fn toc_row(self, look: Look, i: int) -> Seq<PageDrawView> {
        let at = self.toc_scroll + i;
        let top = self.screen.text_y() + i * look.toc_line_h;
        let selected = at == self.toc_selected;
        let ch = self.toc[at].spine_idx;
        let entry = PageDrawView::Entry {
            x: MARGIN as i32,
            baseline: (top + look.toc_ascent) as i32,
            here: ch != NO_CHAPTER && ch == self.chapter,
            title: self.title_of(at),
            inverted: selected,
        };
        if selected {
            seq![
                PageDrawView::Fill {
                    x: 0,
                    y: top as i32,
                    w: self.screen.w as u32,
                    h: look.toc_line_h as u32,
                },
                entry,
            ]
        } else {
            seq![entry]
        }
    }

    /// Row `i` of the table of contents, in the built-in font.
    pub open spec fn toc_mono_row(self, i: int) -> Seq<PageDrawView> {
        let at = self.toc_scroll + i;
        let y = (self.screen.text_y() + i * LINE_H + LINE_H) as i32;
        seq![
            PageDrawView::Mono {
                x: 0,
                y,
                text: if at == self.toc_selected {
                    text_bytes("> ")
                } else {
                    text_bytes("  ")
                },
            },
            PageDrawView::Mono { x: MARGIN as i32, y, text: self.title_of(at) },
        ]
    }

    pub open spec fn toc_rows_picture(self, look: Look, n: int) -> Seq<PageDrawView>
        decreases n,
    {
        if n <= 0 {
            Seq::empty()
        } else {
            self.toc_rows_picture(look, n - 1) + if self.pager.face.fonts is Some {
                self.toc_row(look, n - 1)
            } else {
                self.toc_mono_row(n - 1)
            }
        }
    }

    pub open spec fn toc_picture(self, look: Look) -> Seq<PageDrawView> {
        self.toc_rows_picture(
            look,
            self.toc_visible(
                if self.pager.face.fonts is Some {
                    look.toc_line_h
                } else {
                    LINE_H
                },
            ),
        )
    }

    pub open spec fn line_bytes(self, i: int) -> Seq<u8> {
        let l = self.pager.lines[i];
        self.pager.buf.subrange(l.start as int, l.start + l.len)
    }

    /// An image starts on one of the first `n` lines.
    pub open spec fn image_before(self, n: int) -> bool {
        exists|k: int| 0 <= k < n && (#[trigger] self.pager.lines[k]).image_origin()
    }

    /// Line `i` of the page. An image is drawn where its first line is, and
    /// only one to a page; without it a word stands there.
    pub open spec fn line_picture(self, look: Look, i: int) -> Seq<PageDrawView> {
        let l = self.pager.lines[i];
        let top = self.screen.text_y() + i * self.pager.face.line_h;
        let baseline = (top + self.pager.face.ascent) as i32;
        if l.image() {
            if l.image_origin() {
                match self.page_img {
                    Some(img) => if self.image_before(i) {
                        Seq::empty()
                    } else {
                        seq![
                            PageDrawView::Blit {
                                x: (MARGIN + centred(self.screen.text_w(), img.width as int))
                                    as i32,
                                y: top as i32,
                                w: img.width as u32,
                                h: if img.height < IMAGE_DISPLAY_H {
                                    img.height as u32
                                } else {
                                    IMAGE_DISPLAY_H as u32
                                },
                            },
                        ]
                    },
                    None => seq![PageDrawView::Placeholder { x: MARGIN as i32, baseline }],
                }
            } else {
                Seq::empty()
            }
        } else {
            seq![
                PageDrawView::Run {
                    x: (MARGIN + INDENT_PX * l.indent) as i32,
                    baseline,
                    glyphs: glyphs_from(
                        self.line_bytes(i),
                        self.pager.markup,
                        look.first_char,
                        0,
                        l.style_of(),
                        Seq::empty(),
                    ),
                },
            ]
        }
    }

    /// Line `i` of the page, in the built-in font.
    pub open spec fn mono_line_picture(self, i: int) -> Seq<PageDrawView> {
        let b = self.line_bytes(i);
        seq![
            PageDrawView::Mono {
                x: MARGIN as i32,
                y: (self.screen.text_y() + i * LINE_H + LINE_H) as i32,
                text: if utf8::valid_utf8(b) {
                    b
                } else {
                    Seq::empty()
                },
            },
        ]
    }

    pub open spec fn lines_picture(self, look: Look, n: int) -> Seq<PageDrawView>
        decreases n,
    {
        if n <= 0 {
            Seq::empty()
        } else {
            self.lines_picture(look, n - 1) + if self.pager.face.fonts is Some {
                self.line_picture(look, n - 1)
            } else {
                self.mono_line_picture(n - 1)
            }
        }
    }

    /// An image on all of the page, in the middle.
    pub open spec fn full_picture(self) -> Seq<PageDrawView> {
        match self.page_img {
            Some(img) => seq![
                PageDrawView::Blit {
                    x: (MARGIN + centred(self.screen.text_w(), img.width as int)) as i32,
                    y: (self.screen.text_y() + centred(
                        self.screen.text_area() as int,
                        img.height as int,
                    )) as i32,
                    w: img.width as u32,
                    h: img.height as u32,
                },
            ],
            None => Seq::empty(),
        }
    }

    pub open spec fn body_picture(self, look: Look) -> Seq<PageDrawView> {
        if self.pager.face.fonts is Some && self.fullscreen_img {
            self.full_picture()
        } else {
            self.lines_picture(look, self.pager.lines.len() as int)
        }
    }

    /// The bar at the bottom: as much of it as of the book is read.
    pub open spec fn bar_picture(self) -> Seq<PageDrawView> {
        let w = self.screen.text_w() * self.progress() / 100;
        if self.state == State::Ready && (self.pager.file_size > 0 || self.is_epub) && w > 0 {
            seq![
                PageDrawView::Fill {
                    x: MARGIN as i32,
                    y: (self.screen.h - PROGRESS_H - 1) as i32,
                    w: w as u32,
                    h: PROGRESS_H as u32,
                },
            ]
        } else {
            Seq::empty()
        }
    }

    pub open spec fn position_text(self) -> Seq<u8> {
        if self.is_epub && self.spine.len() > 1 {
            if self.pager.fully_indexed {
                text_bytes("Ch ") + self.chapter_of_chapters() + text_bytes("  Page ")
                    + self.page_of_pages()
            } else {
                text_bytes("Ch ") + self.chapter_of_chapters() + text_bytes("  Page ") + decimal(
                    self.page_no() as nat,
                )
            }
        } else if self.pager.fully_indexed {
            text_bytes("Page ") + self.page_of_pages()
        } else {
            text_bytes("Page ") + decimal(self.page_no() as nat) + text_bytes("  (") + decimal(
                self.progress() as nat,
            ) + text_bytes("%)")
        }
    }

    pub open spec fn overlay_picture(self) -> Seq<PageDrawView> {
        let r = self.screen.overlay_area();
        if self.show_position && self.state == State::Ready {
            seq![
                PageDrawView::Fill { x: r.x as i32, y: r.y as i32, w: r.w as u32, h: r.h as u32 },
                PageDrawView::Chrome {
                    region: r,
                    text: self.position_text(),
                    align: Alignment::Center,
                    inverted: true,
                    built_in: !self.has_chrome_font,
                },
            ]
        } else {
            Seq::empty()
        }
    }

    pub open spec fn main_picture(self, look: Look) -> Seq<PageDrawView> {
        let built_in = !self.has_chrome_font;
        match self.error {
            Some(msg) => chrome(
                self.screen.loading_area(),
                text_bytes(msg),
                Alignment::CenterLeft,
                built_in,
            ),
            None => if self.state != State::Ready && self.state != State::Error && self.state
                != State::ShowToc {
                chrome(
                    self.screen.loading_area(),
                    self.wait_text(),
                    Alignment::CenterLeft,
                    built_in,
                )
            } else if self.state == State::ShowToc {
                self.toc_picture(look)
            } else {
                self.body_picture(look) + self.bar_picture() + self.overlay_picture()
            },
        }
    }

    /// What the reader shows.
    pub open spec fn picture(self, look: Look) -> Seq<PageDrawView> {
        self.head_picture() + self.main_picture(look)
    }
}

impl ReaderApp {
    fn name_bytes(&self) -> (r: Vec<u8>)
        ensures
            r@ == self@.name_text(),
    {
        let mut t: Vec<u8> = Vec::new();
        push_bytes(&mut t, self.display_name().as_bytes());
        assert(t@ =~= self@.name_text());
        t
    }

    fn push_page_of_pages(&self, out: &mut Vec<u8>)
        requires
            self@.wf(),
        ensures
            final(out)@ == old(out)@ + self@.page_of_pages(),
    {
        proof {
            self@.lemma_wf();
        }
        push_of(out, self.pager().page as u64 + 1, self.pager().total_pages as u64);
    }

    fn push_chapter_of_chapters(&self, out: &mut Vec<u8>)
        ensures
            final(out)@ == old(out)@ + self@.chapter_of_chapters(),
    {
        push_of(out, self.chapter() as u64 + 1, self.spine().len() as u64);
    }

    fn push_page_no(&self, out: &mut Vec<u8>)
        requires
            self@.wf(),
        ensures
            final(out)@ == old(out)@ + decimal(self@.page_no() as nat),
    {
        proof {
            self@.lemma_wf();
        }
        push_decimal(out, self.pager().page as u64 + 1);
    }

    fn book_status_bytes(&self) -> (r: Vec<u8>)
        requires
            self@.wf(),
        ensures
            r@ == self@.book_status(),
    {
        let mut t: Vec<u8> = Vec::new();
        let ghost none = Seq::<u8>::empty();
        assert(t@ =~= none);
        let all = self.pager().fully_indexed;
        if self.spine().len() > 1 {
            push_bytes(&mut t, "Ch".as_bytes());
            assert(t@ =~= text_bytes("Ch"));
            self.push_chapter_of_chapters(&mut t);
            if all {
                push_bytes(&mut t, " ".as_bytes());
                self.push_page_of_pages(&mut t);
            } else {
                push_bytes(&mut t, " p".as_bytes());
                self.push_page_no(&mut t);
            }
        } else if all {
            self.push_page_of_pages(&mut t);
            assert(t@ =~= self@.page_of_pages());
        } else {
            push_bytes(&mut t, "p".as_bytes());
            assert(t@ =~= text_bytes("p"));
            self.push_page_no(&mut t);
        }
        if self.cache().bg != BgCacheState::Idle {
            push_bytes(&mut t, " *".as_bytes());
        }
        t
    }

    fn text_status_bytes(&self) -> (r: Vec<u8>)
        requires
            self@.wf(),
        ensures
            r@ == self@.text_status(),
    {
        let mut t: Vec<u8> = Vec::new();
        if self.pager().fully_indexed {
            self.push_page_of_pages(&mut t);
            assert(t@ =~= self@.page_of_pages());
        } else {
            self.push_page_no(&mut t);
            assert(t@ =~= decimal(self@.page_no() as nat));
            push_bytes(&mut t, " | ".as_bytes());
            push_decimal(&mut t, self.progress_pct() as u64);
            push_bytes(&mut t, "%".as_bytes());
        }
        t
    }

    fn status_bytes(&self) -> (r: Option<Vec<u8>>)
        requires
            self@.wf(),
        ensures
            (match r {
                Some(t) => Some(t@),
                None => None,
            }) == self@.status(),
    {
        if self.state() == State::ShowToc {
            let mut t: Vec<u8> = Vec::new();
            push_bytes(&mut t, "Contents".as_bytes());
            assert(t@ =~= text_bytes("Contents"));
            Some(t)
        } else if self.is_epub() && self.spine().len() > 0 {
            Some(self.book_status_bytes())
        } else if self.pager().file_size > 0 {
            Some(self.text_status_bytes())
        } else {
            None
        }
    }

    fn draw_head(&self) -> (r: Vec<PageDraw>)
        requires
            self@.wf(),
        ensures
            page_shown(r@) == self@.head_picture(),
    {
        proof {
            self@.lemma_wf();
        }
        let screen = self.shown_on();
        let built_in = !self.has_chrome();
        let mut ops: Vec<PageDraw> = Vec::new();
        assert(page_shown(ops@) =~= Seq::empty());
        let name = self.name_bytes();
        let header = Region::new(MARGIN, screen.content_top + 2, 300, HEADER_H);
        draw_chrome_text(&mut ops, header, name, Alignment::CenterLeft, built_in);
        let ghost first = chrome(
            self@.screen.header_area(),
            self@.name_text(),
            Alignment::CenterLeft,
            built_in,
        );
        assert(page_shown(ops@) =~= first);
        match self.status_bytes() {
            Some(t) => {
                let area = Region::new(308, screen.content_top + 2, 164, HEADER_H);
                draw_chrome_text(&mut ops, area, t, Alignment::CenterRight, built_in);
            },
            None => {
                assert(first =~= first + Seq::<PageDrawView>::empty());
            },
        }
        ops
    }

    fn title_bytes(&self, i: usize) -> (r: Vec<u8>)
        requires
            i < self@.toc.len(),
        ensures
            r@ == self@.title_of(i as int),
    {
        let mut t: Vec<u8> = Vec::new();
        let entry = &self.toc()[i];
        assert(entry@ == self@.toc[i as int]);
        proof {
            lemma_no_text();
        }
        push_bytes(&mut t, utf8_or(entry.title.as_slice(), "").as_bytes());
        assert(t@ =~= self@.title_of(i as int));
        t
    }

    fn draw_toc_row(&self, ops: &mut Vec<PageDraw>, look: &Look, i: usize)
        requires
            self@.wf(),
            i * look.toc_line_h <= 0xFFFF,
            i <= 0xFFFF,
            self@.toc_scroll + i < self@.toc.len(),
        ensures
            page_shown(final(ops)@) == page_shown(old(ops)@) + self@.toc_row(*look, i as int),
    {
        proof {
            self@.lemma_wf();
        }
        let ghost was = page_shown(ops@);
        let len = self.toc().len();
        let at = self.toc_top() + i;
        let screen = self.shown_on();
        assert(0 <= i * look.toc_line_h) by (nonlinear_arith)
            requires
                0 <= i,
                0 <= look.toc_line_h,
        ;
        let top = screen.content_top as i32 + 20 + i as i32 * look.toc_line_h as i32;
        let baseline = top + look.toc_ascent as i32;
        let ch = self.toc()[at].spine_idx;
        assert(ch == self@.toc[at as int].spine_idx);
        let selected = at == self.toc_choice();
        if selected {
            put(
                ops,
                PageDraw::Fill {
                    x: 0,
                    y: top,
                    w: screen.w as u32,
                    h: look.toc_line_h as u32,
                },
            );
        }
        put(
            ops,
            PageDraw::Entry {
                x: MARGIN as i32,
                baseline,
                here: ch != NO_CHAPTER && ch == self.chapter(),
                title: self.title_bytes(at),
                inverted: selected,
            },
        );
        assert(page_shown(ops@) =~= was + self@.toc_row(*look, i as int));
    }

    fn draw_toc_mono_row(&self, ops: &mut Vec<PageDraw>, i: usize)
        requires
            self@.wf(),
            i < 0xFFFF,
            self@.toc_scroll + i < self@.toc.len(),
        ensures
            page_shown(final(ops)@) == page_shown(old(ops)@) + self@.toc_mono_row(i as int),
    {
        proof {
            self@.lemma_wf();
        }
        let ghost was = page_shown(ops@);
        let len = self.toc().len();
        let at = self.toc_top() + i;
        assert(0 <= i * LINE_H <= 0xFFFF * 13) by (nonlinear_arith)
            requires
                0 <= i <= 0xFFFF,
                LINE_H == 13,
        ;
        let y = self.shown_on().content_top as i32 + 20 + i as i32 * LINE_H as i32 + LINE_H as i32;
        let mut mark: Vec<u8> = Vec::new();
        if at == self.toc_choice() {
            push_bytes(&mut mark, "> ".as_bytes());
            assert(mark@ =~= text_bytes("> "));
        } else {
            push_bytes(&mut mark, "  ".as_bytes());
            assert(mark@ =~= text_bytes("  "));
        }
        put(ops, PageDraw::Mono { x: 0, y, text: mark });
        put(ops, PageDraw::Mono { x: MARGIN as i32, y, text: self.title_bytes(at) });
        assert(page_shown(ops@) =~= was + self@.toc_mono_row(i as int));
    }

    fn draw_toc(&self, ops: &mut Vec<PageDraw>, look: &Look)
        requires
            self@.wf(),
            look.toc_line_h > 0,
            self@.state == State::ShowToc,
        ensures
            page_shown(final(ops)@) == page_shown(old(ops)@) + self@.toc_picture(*look),
    {
        proof {
            self@.lemma_wf();
        }
        let ghost was = page_shown(ops@);
        let fonts = self.pager().face.fonts.is_some();
        let line_h = if fonts {
            look.toc_line_h
        } else {
            LINE_H
        };
        let rows = (self.shown_on().text_area_h() / line_h) as usize;
        let len = self.toc().len();
        let top = self.toc_top();
        let left = if top < len {
            len - top
        } else {
            0
        };
        let n = if rows < left {
            rows
        } else {
            left
        };
        let mut i: usize = 0;
        assert(page_shown(ops@) =~= was + self@.toc_rows_picture(*look, 0));
        while i < n
            invariant
                i <= n <= rows <= 0xFFFF,
                n <= left,
                rows == self@.screen.text_area() / line_h,
                line_h > 0,
                fonts ==> line_h == look.toc_line_h,
                self@.wf(),
                fonts == (self@.pager.face.fonts is Some),
                top == self@.toc_scroll,
                len == self@.toc.len(),
                left == if top < len {
                    len - top
                } else {
                    0
                },
                page_shown(ops@) == was + self@.toc_rows_picture(*look, i as int),
            decreases n - i,
        {
            let ghost so_far = self@.toc_rows_picture(*look, i as int);
            if fonts {
                let ghost area = self@.screen.text_area() as int;
                assert(i * line_h <= area) by (nonlinear_arith)
                    requires
                        0 <= i < area / (line_h as int),
                        line_h > 0,
                        0 <= area,
                ;
                self.draw_toc_row(ops, look, i);
                assert(page_shown(ops@) =~= was + (so_far + self@.toc_row(*look, i as int)));
            } else {
                self.draw_toc_mono_row(ops, i);
                assert(page_shown(ops@) =~= was + (so_far + self@.toc_mono_row(i as int)));
            }
            i += 1;
        }
    }

    fn draw_image_line(&self, ops: &mut Vec<PageDraw>, i: usize, drawn: bool)
        requires
            self@.wf(),
            i < self@.pager.lines.len(),
            self@.pager.lines[i as int].image_origin(),
            drawn == (self@.page_img is Some && self@.image_before(i as int)),
        ensures
            forall|look: Look| #[trigger]
                self@.line_picture(look, i as int) == image_ops(self@, i as int),
            page_shown(final(ops)@) == page_shown(old(ops)@) + image_ops(self@, i as int),
    {
        proof {
            self@.lemma_wf();
        }
        let ghost was = page_shown(ops@);
        let line_h = self.pager().face.line_h as i32;
        assert(0 <= i * line_h <= 58 * 0xFFFF) by (nonlinear_arith)
            requires
                0 <= i <= 58,
                0 <= line_h <= 0xFFFF,
        ;
        let top = self.shown_on().content_top as i32 + 20 + i as i32 * line_h;
        match self.page_image() {
            Some(img) => {
                if !drawn {
                    let text_w = self.shown_on().w as i32 - 2 * MARGIN as i32;
                    let x = MARGIN as i32 + centre(text_w, img.width as i32);
                    let h = if img.height < IMAGE_DISPLAY_H {
                        img.height
                    } else {
                        IMAGE_DISPLAY_H
                    };
                    put(ops, PageDraw::Blit { x, y: top, w: img.width as u32, h: h as u32 });
                }
            },
            None => {
                let baseline = top + self.pager().face.ascent as i32;
                put(ops, PageDraw::Placeholder { x: MARGIN as i32, baseline });
            },
        }
        assert(page_shown(ops@) =~= was + image_ops(self@, i as int));
    }

    fn draw_text_line(&self, ops: &mut Vec<PageDraw>, look: &Look, i: usize)
        requires
            self@.wf(),
            i < self@.pager.lines.len(),
            !self@.pager.lines[i as int].image(),
        ensures
            page_shown(final(ops)@) == page_shown(old(ops)@) + self@.line_picture(
                *look,
                i as int,
            ),
    {
        proof {
            self@.lemma_wf();
            assert(self@.pager.lines[i as int].within(PAGE_BUF as int));
        }
        let ghost was = page_shown(ops@);
        let line_h = self.pager().face.line_h as i32;
        assert(0 <= i * line_h <= 58 * 0xFFFF) by (nonlinear_arith)
            requires
                0 <= i <= 58,
                0 <= line_h <= 0xFFFF,
        ;
        let baseline = self.shown_on().content_top as i32 + 20 + i as i32 * line_h
            + self.pager().face.ascent as i32;
        let l = self.pager().lines[i];
        let start = l.start as usize;
        let end = start + l.len as usize;
        let all = self.pager().buf.as_slice();
        let line = &all[start..end];
        assert(line@ =~= self@.line_bytes(i as int));
        let style = l.style();
        let glyphs = line_glyphs(line, &self.pager().markup, look.first_char, style);
        let x = MARGIN as i32 + INDENT_PX as i32 * l.indent as i32;
        put(ops, PageDraw::Run { x, baseline, glyphs });
        assert(page_shown(ops@) =~= was + self@.line_picture(*look, i as int));
    }

    fn draw_mono_line(&self, ops: &mut Vec<PageDraw>, i: usize)
        requires
            self@.wf(),
            i < self@.pager.lines.len(),
        ensures
            page_shown(final(ops)@) == page_shown(old(ops)@) + self@.mono_line_picture(i as int),
    {
        proof {
            self@.lemma_wf();
            assert(self@.pager.lines[i as int].within(PAGE_BUF as int));
            lemma_no_text();
        }
        let ghost was = page_shown(ops@);
        let l = self.pager().lines[i];
        let start = l.start as usize;
        let end = start + l.len as usize;
        let all = self.pager().buf.as_slice();
        let line = &all[start..end];
        assert(line@ =~= self@.line_bytes(i as int));
        let mut text: Vec<u8> = Vec::new();
        push_bytes(&mut text, utf8_or(line, "").as_bytes());
        let y = self.shown_on().content_top as i32 + 20 + i as i32 * LINE_H as i32 + LINE_H as i32;
        let ghost b = self@.line_bytes(i as int);
        assert(text@ =~= if utf8::valid_utf8(b) {
            b
        } else {
            Seq::empty()
        });
        put(ops, PageDraw::Mono { x: MARGIN as i32, y, text });
        assert(page_shown(ops@) =~= was + self@.mono_line_picture(i as int));
    }

    fn draw_lines(&self, ops: &mut Vec<PageDraw>, look: &Look)
        requires
            self@.wf(),
        ensures
            page_shown(final(ops)@) == page_shown(old(ops)@) + self@.lines_picture(
                *look,
                self@.pager.lines.len() as int,
            ),
    {
        let ghost was = page_shown(ops@);
        let fonts = self.pager().face.fonts.is_some();
        let has_image = self.page_image().is_some();
        let n = self.pager().lines.len();
        let mut drawn = false;
        let mut i: usize = 0;
        assert(page_shown(ops@) =~= was + self@.lines_picture(*look, 0));
        while i < n
            invariant
                i <= n,
                n == self@.pager.lines.len(),
                self@.wf(),
                fonts == (self@.pager.face.fonts is Some),
                has_image == (self@.page_img is Some),
                fonts ==> drawn == (has_image && self@.image_before(i as int)),
                page_shown(ops@) == was + self@.lines_picture(*look, i as int),
            decreases n - i,
        {
            let ghost so_far = self@.lines_picture(*look, i as int);
            let ghost l = self@.pager.lines[i as int];
            if fonts {
                if self.pager().lines[i].is_image() {
                    if self.pager().lines[i].is_image_origin() {
                        self.draw_image_line(ops, i, drawn);
                        assert(self@.line_picture(*look, i as int) == image_ops(self@, i as int));
                        drawn = has_image;
                        assert(self@.image_before(i + 1)) by {
                            assert(l.image_origin());
                        }
                    } else {
                        assert(self@.line_picture(*look, i as int) =~= Seq::empty());
                        assert(page_shown(ops@) =~= page_shown(ops@)
                            + Seq::<PageDrawView>::empty());
                        assert(self@.image_before(i + 1) == self@.image_before(i as int));
                    }
                } else {
                    self.draw_text_line(ops, look, i);
                    assert(!l.image_origin());
                    assert(self@.image_before(i + 1) == self@.image_before(i as int));
                }
                assert(page_shown(ops@) =~= was + (so_far + self@.line_picture(*look, i as int)));
            } else {
                self.draw_mono_line(ops, i);
                assert(page_shown(ops@) =~= was + (so_far + self@.mono_line_picture(i as int)));
            }
            i += 1;
        }
    }

    fn draw_full_image(&self, ops: &mut Vec<PageDraw>)
        requires
            self@.wf(),
        ensures
            page_shown(final(ops)@) == page_shown(old(ops)@) + self@.full_picture(),
    {
        proof {
            self@.lemma_wf();
        }
        let ghost was = page_shown(ops@);
        if let Some(img) = self.page_image() {
            let screen = self.shown_on();
            let text_w = screen.w as i32 - 2 * MARGIN as i32;
            let x = MARGIN as i32 + centre(text_w, img.width as i32);
            let y = screen.content_top as i32 + 20 + centre(
                screen.text_area_h() as i32,
                img.height as i32,
            );
            put(ops, PageDraw::Blit { x, y, w: img.width as u32, h: img.height as u32 });
        }
        assert(page_shown(ops@) =~= was + self@.full_picture());
    }

    fn draw_bar(&self, ops: &mut Vec<PageDraw>)
        requires
            self@.wf(),
        ensures
            page_shown(final(ops)@) == page_shown(old(ops)@) + self@.bar_picture(),
    {
        proof {
            self@.lemma_wf();
        }
        let ghost was = page_shown(ops@);
        if self.state() == State::Ready && (self.pager().file_size > 0 || self.is_epub()) {
            let screen = self.shown_on();
            let pct = self.progress_pct() as u32;
            let full = screen.w as u32 - 2 * MARGIN as u32;
            assert(0 <= full * pct <= 0xFFFF * 100) by (nonlinear_arith)
                requires
                    0 <= full <= 0xFFFF,
                    0 <= pct <= 100,
            ;
            let w = full * pct / 100;
            if w > 0 {
                put(
                    ops,
                    PageDraw::Fill {
                        x: MARGIN as i32,
                        y: screen.h as i32 - PROGRESS_H as i32 - 1,
                        w,
                        h: PROGRESS_H as u32,
                    },
                );
            }
        }
        assert(page_shown(ops@) =~= was + self@.bar_picture());
    }

    fn position_bytes(&self) -> (r: Vec<u8>)
        requires
            self@.wf(),
        ensures
            r@ == self@.position_text(),
    {
        let mut t: Vec<u8> = Vec::new();
        let all = self.pager().fully_indexed;
        if self.is_epub() && self.spine().len() > 1 {
            push_bytes(&mut t, "Ch ".as_bytes());
            assert(t@ =~= text_bytes("Ch "));
            self.push_chapter_of_chapters(&mut t);
            push_bytes(&mut t, "  Page ".as_bytes());
            if all {
                self.push_page_of_pages(&mut t);
            } else {
                self.push_page_no(&mut t);
            }
        } else {
            push_bytes(&mut t, "Page ".as_bytes());
            assert(t@ =~= text_bytes("Page "));
            if all {
                self.push_page_of_pages(&mut t);
            } else {
                self.push_page_no(&mut t);
                push_bytes(&mut t, "  (".as_bytes());
                push_decimal(&mut t, self.progress_pct() as u64);
                push_bytes(&mut t, "%)".as_bytes());
            }
        }
        t
    }

    fn draw_overlay(&self, ops: &mut Vec<PageDraw>)
        requires
            self@.wf(),
        ensures
            page_shown(final(ops)@) == page_shown(old(ops)@) + self@.overlay_picture(),
    {
        proof {
            self@.lemma_wf();
        }
        let ghost was = page_shown(ops@);
        if self.shows_position() && self.state() == State::Ready {
            let r = self.shown_on().overlay_region();
            put(
                ops,
                PageDraw::Fill { x: r.x as i32, y: r.y as i32, w: r.w as u32, h: r.h as u32 },
            );
            put(
                ops,
                PageDraw::Chrome {
                    region: r,
                    text: self.position_bytes(),
                    align: Alignment::Center,
                    inverted: true,
                    built_in: !self.has_chrome(),
                },
            );
        }
        assert(page_shown(ops@) =~= was + self@.overlay_picture());
    }

    fn wait_bytes(&self) -> (r: Vec<u8>)
        ensures
            r@ == self@.wait_text(),
    {
        let mut t: Vec<u8> = Vec::new();
        match self.state() {
            State::NeedCache => push_bytes(&mut t, "Preparing...".as_bytes()),
            State::NeedIndex => push_bytes(&mut t, "Indexing...".as_bytes()),
            _ => push_bytes(&mut t, "Loading...".as_bytes()),
        }
        assert(t@ =~= self@.wait_text());
        t
    }

    fn draw_main(&self, ops: &mut Vec<PageDraw>, look: &Look)
        requires
            self@.wf(),
            look.toc_line_h > 0,
        ensures
            page_shown(final(ops)@) == page_shown(old(ops)@) + self@.main_picture(*look),
    {
        proof {
            self@.lemma_wf();
        }
        let ghost was = page_shown(ops@);
        let built_in = !self.has_chrome();
        let screen = self.shown_on();
        let area = Region::new(MARGIN, screen.content_top + 20, 464, 20);
        if let Some(msg) = self.error() {
            let mut t: Vec<u8> = Vec::new();
            push_bytes(&mut t, msg.as_bytes());
            assert(t@ =~= text_bytes(msg));
            draw_chrome_text(ops, area, t, Alignment::CenterLeft, built_in);
            return ;
        }
        let state = self.state();
        if state != State::Ready && state != State::Error && state != State::ShowToc {
            let t = self.wait_bytes();
            draw_chrome_text(ops, area, t, Alignment::CenterLeft, built_in);
            return ;
        }
        if state == State::ShowToc {
            self.draw_toc(ops, look);
            return ;
        }
        if self.pager().face.fonts.is_some() && self.is_fullscreen() {
            self.draw_full_image(ops);
        } else {
            self.draw_lines(ops, look);
        }
        let ghost body = self@.body_picture(*look);
        assert(page_shown(ops@) =~= was + body);
        self.draw_bar(ops);
        self.draw_overlay(ops);
        assert(page_shown(ops@) =~= was + (body + self@.bar_picture() + self@.overlay_picture()));
    }

    /// What to draw, in order.
    pub fn draw(&self, look: &Look) -> (r: Vec<PageDraw>)
        requires
            self@.wf(),
            look.toc_line_h > 0,
        ensures
            page_shown(r@) == self@.picture(*look),
    {
        let mut ops = self.draw_head();
        self.draw_main(&mut ops, look);
        ops
    }
}

proof fn lemma_no_text()
    ensures
        text_bytes("") == Seq::<u8>::empty(),
{
    reveal_strlit("");
    lemma_ascii_text("");
    assert(text_bytes("") =~= Seq::<u8>::empty());
}

/// What is drawn for the image that starts on line `i`.
spec fn image_ops(r: ReaderView, i: int) -> Seq<PageDrawView> {
    r.line_picture(Look { toc_line_h: 0, toc_ascent: 0, first_char: 0 }, i)
}

} // verus!
