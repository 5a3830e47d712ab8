//! What stands round the text and in its place: the title, the position, the
//! bar, errors, the table of contents and images.

use vstd::prelude::*;
use vstd::utf8;

use crate::apps::reader::app::{ReaderView, State, MARGIN, NO_CHAPTER, PROGRESS_H};
use crate::apps::reader::draw::{Look, PageDrawView};
use crate::apps::reader::images::ImageView;
use crate::apps::reader::pages::LINE_H;
use crate::apps::reader::wrap::IMAGE_DISPLAY_H;
use crate::bytes::{decimal, text_bytes};
use crate::kernel::config::law_decimal_is_the_number;
use crate::ui::Alignment;

verus! {

impl ReaderView {
    /// The title stands at the top left, the file's name where there is none, in
    /// every state.
    pub proof fn law_the_title_is_shown(self, look: Look, name: Seq<u8>)
        requires
            name == self.title && name.len() > 0 || self.title.len() == 0 && name == self.filename,
            name.len() > 0,
            utf8::valid_utf8(name),
        ensures
            self.picture(look).contains(
                PageDrawView::Chrome {
                    region: self.screen.header_area(),
                    text: name,
                    align: Alignment::CenterLeft,
                    inverted: false,
                    built_in: !self.has_chrome_font,
                },
            ),
    {
        assert(self.head_picture()[1] == self.picture(look)[1]);
    }

    /// The page and the number of pages stand at the top right, once they are
    /// known, and before it the chapter, where there is more than one.
    pub proof fn law_the_place_is_shown(self, look: Look)
        requires
            self.state != State::ShowToc,
            self.pager.fully_indexed,
            self.name_text().len() > 0,
        ensures
            ({
                let page = decimal((self.pager.page + 1) as nat) + text_bytes("/") + decimal(
                    self.pager.total_pages as nat,
                );
                let chapter = text_bytes("Ch") + (decimal((self.chapter + 1) as nat) + text_bytes(
                    "/",
                ) + decimal(self.spine.len())) + text_bytes(" ");
                let status = |t: Seq<u8>|
                    PageDrawView::Chrome {
                        region: self.screen.status_area(),
                        text: t,
                        align: Alignment::CenterRight,
                        inverted: false,
                        built_in: !self.has_chrome_font,
                    };
                &&& !self.is_epub && self.pager.file_size > 0 ==> self.picture(look).contains(
                    status(page),
                )
                &&& self.is_epub && self.spine.len() == 1 ==> self.picture(look).contains(
                    status(page),
                ) || self.picture(look).contains(status(page + text_bytes(" *")))
                &&& self.is_epub && self.spine.len() > 1 ==> self.picture(look).contains(
                    status(chapter + page),
                ) || self.picture(look).contains(status(chapter + page + text_bytes(" *")))
            }),
    {
        law_decimal_is_the_number((self.pager.page + 1) as nat);
        let n = self.picture(look);
        let h = self.head_picture();
        if self.status() is Some && h.len() > 3 {
            assert(h[3] == n[3]);
        }
    }

    /// An error stands where the page would be.
    pub proof fn law_errors_are_seen(self, look: Look, msg: &'static str)
        requires
            self.error == Some(msg),
            text_bytes(msg).len() > 0,
        ensures
            self.picture(look).contains(
                PageDrawView::Chrome {
                    region: self.screen.loading_area(),
                    text: text_bytes(msg),
                    align: Alignment::CenterLeft,
                    inverted: false,
                    built_in: !self.has_chrome_font,
                },
            ),
    {
        let main = self.main_picture(look);
        assert(self.picture(look)[self.head_picture().len() as int + 1] == main[1]);
    }

    /// The bar at the bottom is as long, against the width of the text, as the
    /// share of the book that is read, and starts at the text's left edge.
    pub proof fn law_the_bar_shows_the_progress(self, look: Look, w: int)
        requires
            self.state == State::Ready,
            self.error is None,
            self.pager.file_size > 0 || self.is_epub,
            0 < w <= u32::MAX,
            w * 100 <= self.screen.text_w() * self.progress() < (w + 1) * 100,
        ensures
            self.picture(look).contains(
                PageDrawView::Fill {
                    x: MARGIN as i32,
                    y: (self.screen.h - PROGRESS_H - 1) as i32,
                    w: w as u32,
                    h: PROGRESS_H as u32,
                },
            ),
    {
        let body = self.body_picture(look);
        let main = self.main_picture(look);
        assert(main[body.len() as int] == self.bar_picture()[0]);
        assert(self.picture(look)[self.head_picture().len() as int + body.len()] == main[body.len()
            as int]);
    }

    /// The position panel covers its region and shows the position inverted, on
    /// top of the page.
    pub proof fn law_the_panel_is_on_top(self, look: Look)
        requires
            self.state == State::Ready,
            self.error is None,
        ensures
            ({
                let all = self.picture(look);
                let r = self.screen.overlay_area();
                &&& self.show_position ==> all.last() == (PageDrawView::Chrome {
                    region: r,
                    text: self.position_text(),
                    align: Alignment::Center,
                    inverted: true,
                    built_in: !self.has_chrome_font,
                })
                &&& self.show_position ==> all[all.len() - 2] == (PageDrawView::Fill {
                    x: r.x as i32,
                    y: r.y as i32,
                    w: r.w as u32,
                    h: r.h as u32,
                })
                &&& !self.show_position ==> all == self.head_picture() + self.body_picture(look)
                    + self.bar_picture()
            }),
    {
        if !self.show_position {
            assert(self.picture(look) =~= self.head_picture() + self.body_picture(look)
                + self.bar_picture());
        }
    }

    proof fn lemma_toc_row(self, look: Look, n: int, i: int, k: int)
        requires
            0 <= i < n,
            0 <= k < (if self.pager.face.fonts is Some {
                self.toc_row(look, i)
            } else {
                self.toc_mono_row(i)
            }).len(),
        ensures
            self.toc_rows_picture(look, n).contains(
                (if self.pager.face.fonts is Some {
                    self.toc_row(look, i)
                } else {
                    self.toc_mono_row(i)
                })[k],
            ),
        decreases n,
    {
        let d = (if self.pager.face.fonts is Some {
            self.toc_row(look, i)
        } else {
            self.toc_mono_row(i)
        })[k];
        let front = self.toc_rows_picture(look, n - 1);
        let all = self.toc_rows_picture(look, n);
        if i < n - 1 {
            self.lemma_toc_row(look, n - 1, i, k);
            let j = choose|j: int| 0 <= j < front.len() && front[j] == d;
            assert(all[j] == d);
        } else {
            assert(all[front.len() + k] == d);
        }
    }

    /// Every entry of the contents that has its place on screen is shown there
    /// by its title, row below row. The selected one stands out, and so does
    /// that of the chapter that is read.
    pub proof fn law_the_contents_are_shown(self, look: Look, at: int)
        requires
            self.state == State::ShowToc,
            self.error is None,
            self.toc_scroll <= at < self.toc.len(),
            utf8::valid_utf8(self.toc[at].title),
            at - self.toc_scroll < (self.screen.text_area() / if self.pager.face.fonts is Some {
                look.toc_line_h
            } else {
                LINE_H
            }),
        ensures
            self.pager.face.fonts is Some ==> self.picture(look).contains(
                PageDrawView::Entry {
                    x: MARGIN as i32,
                    baseline: (self.screen.text_y() + (at - self.toc_scroll) * look.toc_line_h
                        + look.toc_ascent) as i32,
                    here: self.toc[at].spine_idx == self.chapter && self.toc[at].spine_idx
                        != NO_CHAPTER,
                    title: self.toc[at].title,
                    inverted: at == self.toc_selected,
                },
            ),
            self.pager.face.fonts is Some && at == self.toc_selected ==> self.picture(
                look,
            ).contains(
                PageDrawView::Fill {
                    x: 0,
                    y: (self.screen.text_y() + (at - self.toc_scroll) * look.toc_line_h) as i32,
                    w: self.screen.w as u32,
                    h: look.toc_line_h as u32,
                },
            ),
            self.pager.face.fonts is None ==> self.picture(look).contains(
                PageDrawView::Mono {
                    x: MARGIN as i32,
                    y: (self.screen.text_y() + (at - self.toc_scroll) * LINE_H + LINE_H) as i32,
                    text: self.toc[at].title,
                },
            ),
    {
        let i = at - self.toc_scroll;
        let rows = self.toc_visible(
            if self.pager.face.fonts is Some {
                look.toc_line_h
            } else {
                LINE_H
            },
        );
        if self.pager.face.fonts is Some {
            let row = self.toc_row(look, i);
            self.lemma_toc_row(look, rows, i, row.len() - 1);
            self.lemma_toc_in_picture(look, row[row.len() - 1]);
            self.lemma_toc_row(look, rows, i, 0);
            self.lemma_toc_in_picture(look, row[0]);
        } else {
            self.lemma_toc_row(look, rows, i, 1);
            self.lemma_toc_in_picture(look, self.toc_mono_row(i)[1]);
        }
    }

    proof fn lemma_toc_in_picture(self, look: Look, d: PageDrawView)
        requires
            self.state == State::ShowToc,
            self.error is None,
            self.toc_picture(look).contains(d),
        ensures
            self.picture(look).contains(d),
    {
        let toc = self.toc_picture(look);
        let k = choose|k: int| 0 <= k < toc.len() && toc[k] == d;
        assert(self.picture(look)[self.head_picture().len() + k] == d);
    }

    /// An image that has the page to itself stands in its middle, whole.
    pub proof fn law_a_full_image_is_in_the_middle(self, look: Look, img: ImageView, x: int, y: int)
        requires
            self.state == State::Ready,
            self.error is None,
            self.pager.face.fonts is Some,
            self.fullscreen_img,
            self.page_img == Some(img),
            img.width <= self.screen.text_w(),
            img.height <= self.screen.text_area(),
            0 <= (self.screen.text_w() - img.width) - 2 * (x - MARGIN) <= 1,
            0 <= (self.screen.text_area() - img.height) - 2 * (y - self.screen.text_y()) <= 1,
        ensures
            self.picture(look).contains(
                PageDrawView::Blit {
                    x: x as i32,
                    y: y as i32,
                    w: img.width as u32,
                    h: img.height as u32,
                },
            ),
    {
        let d = self.full_picture()[0];
        assert(self.main_picture(look)[0] == d);
        assert(self.picture(look)[self.head_picture().len() as int] == d);
        assert(crate::apps::reader::draw::centred(self.screen.text_w() as int, img.width as int)
            == x - MARGIN);
        assert(crate::apps::reader::draw::centred(
            self.screen.text_area() as int,
            img.height as int,
        ) == y - self.screen.text_y());
    }

    /// An image among text starts at the top of its first line, in the middle
    /// between the margins, and takes no more than its lines.
    pub proof fn law_an_image_stands_on_its_lines(self, look: Look, i: int, img: ImageView, x: int)
        requires
            0 <= i < self.pager.lines.len(),
            self.pager.lines[i].image(),
            self.pager.lines[i].image_origin(),
            forall|k: int| 0 <= k < i ==> !(#[trigger] self.pager.lines[k]).image_origin(),
            self.page_img == Some(img),
            img.width <= self.screen.text_w(),
            0 <= (self.screen.text_w() - img.width) - 2 * (x - MARGIN) <= 1,
        ensures
            self.line_picture(look, i) == seq![
                PageDrawView::Blit {
                    x: x as i32,
                    y: (self.screen.text_y() + i * self.pager.face.line_h) as i32,
                    w: img.width as u32,
                    h: (if img.height < IMAGE_DISPLAY_H {
                        img.height
                    } else {
                        IMAGE_DISPLAY_H
                    }) as u32,
                },
            ],
    {
        assert(crate::apps::reader::draw::centred(self.screen.text_w() as int, img.width as int)
            == x - MARGIN);
    }
}

} // verus!
