use pulp_os::apps::reader::cache::{count_up, BgCacheState, ChapterCache};
use pulp_os::apps::reader::images::{
    dir_of, find_reference, image_dims, image_header, img_cache_name, img_cache_str,
    is_image_ext_jpeg, is_image_ext_png, names_jpeg, names_png, pad, path_ext_eq, starts_jpeg,
    starts_png, Image,
};
use pulp_os::apps::reader::pages::{Face, Pager, CHARS_PER_LINE, LINES_PER_PAGE, PAGE_BUF};
use pulp_os::apps::reader::text::{decode_utf8_char, is_wrap_space, trim_trailing_cr};
use pulp_os::apps::reader::wrap::{
    wrap_proportional, LineSpan, Markup, TextState, FLAG_BOLD, FLAG_HEADING, FLAG_IMAGE,
    FLAG_ITALIC,
};
use pulp_os::bytes::{eq_bytes, eq_ignore_case, find_byte, push_decimal, read_le16, read_le32, to_lower, utf8_or};
use pulp_os::fonts::{FontSet, Style, StyleMetrics};
use pulp_os::ui::{wrap_next, wrap_prev};

const M: Markup = Markup {
    marker: 1,
    img_ref: b'I',
    bold_on: b'B',
    bold_off: b'b',
    italic_on: b'J',
    italic_off: b'j',
    heading_on: b'H',
    heading_off: b'h',
    quote_on: b'Q',
    quote_off: b'q',
};

fn style(advance: u16) -> StyleMetrics {
    StyleMetrics {
        line_height: 20,
        ascent: 15,
        bytes: [advance; 128],
        glyphs: vec![('\u{e4}', 15), ('\u{e4}', 99)],
        missing: 12,
    }
}

fn fonts() -> FontSet {
    FontSet { regular: style(10), bold: style(20), italic: style(11), heading: style(30) }
}

/// Lays the text out on lines of 100 pixels.
fn laid_out(text: &[u8], max_lines: usize) -> (usize, Vec<LineSpan>) {
    let mut lines = [LineSpan::empty(); 58];
    let (used, n) =
        wrap_proportional(text, text.len(), &fonts(), &M, &mut lines, max_lines, 100);
    (used, lines[..n].to_vec())
}

fn shown(text: &[u8], lines: &[LineSpan]) -> Vec<String> {
    let mut all: Vec<String> = Vec::new();
    for l in lines {
        let from = l.start as usize;
        all.push(String::from_utf8_lossy(&text[from..from + l.len as usize]).to_string());
    }
    all
}

#[test]
fn small_byte_helpers() {
    assert_eq!(read_le16(&[1, 2, 3], 1), 0x0302);
    assert_eq!(read_le32(&[1, 2, 3, 4], 0), 0x0403_0201);
    assert_eq!(to_lower(b'Q'), b'q');
    assert_eq!(to_lower(b'['), b'[');
    assert!(eq_ignore_case(b"aBc", b"AbC"));
    assert!(!eq_bytes(b"ab", b"aB"));
    assert_eq!(find_byte(b"abcb", b'b', 2), 3);
    assert_eq!(find_byte(b"abc", b'z', 0), 3);
    let mut v: Vec<u8> = Vec::new();
    push_decimal(&mut v, 1203);
    push_decimal(&mut v, 0);
    assert_eq!(v, b"12030".to_vec());
    assert_eq!(utf8_or("\u{e4}".as_bytes(), "?"), "\u{e4}");
    assert_eq!(utf8_or(&[0xC3], "?"), "?");
}

#[test]
fn ring_steps() {
    assert_eq!(wrap_next(2, 3), 0);
    assert_eq!(wrap_prev(0, 3), 2);
    assert_eq!(wrap_prev(wrap_next(1, 3), 3), 1);
}

#[test]
fn characters_are_decoded() {
    assert_eq!(decode_utf8_char("\u{e4}".as_bytes(), 0), ('\u{e4}', 2));
    assert_eq!(decode_utf8_char("x\u{20ac}".as_bytes(), 1), ('\u{20ac}', 3));
    assert_eq!(decode_utf8_char("\u{1f600}".as_bytes(), 0), ('\u{1f600}', 4));
}

#[test]
fn ascii_characters_decode_to_themselves() {
    assert_eq!(decode_utf8_char(b"A", 0), ('A', 1));
    assert_eq!(decode_utf8_char(b"xyz\x7f", 3), ('\u{7f}', 1));
    assert_eq!(decode_utf8_char(&[0, 0xC3], 0), ('\0', 1));
}

#[test]
fn sequences_longer_than_needed_are_replaced() {
    assert_eq!(decode_utf8_char(&[0xC1, 0x81], 0), ('\u{fffd}', 2));
    assert_eq!(decode_utf8_char(&[0xC0, 0xA0], 0), ('\u{fffd}', 2));
    assert_eq!(decode_utf8_char(&[0xE0, 0x82, 0xAC], 0), ('\u{fffd}', 3));
    assert_eq!(decode_utf8_char(&[0xF0, 0x82, 0x82, 0xAC], 0), ('\u{fffd}', 4));
    assert_eq!(decode_utf8_char(&[0xC2, 0x80], 0), ('\u{80}', 2));
    assert_eq!(decode_utf8_char(&[0xE0, 0xA0, 0x80], 0), ('\u{800}', 3));
    assert_eq!(decode_utf8_char(&[0xF0, 0x90, 0x80, 0x80], 0), ('\u{10000}', 4));
    assert_eq!(decode_utf8_char(&[0xF8, 0x88, 0x80, 0x80], 0), ('\u{fffd}', 4));
    assert_eq!(decode_utf8_char(&[0x81, 0x81], 0), ('\u{fffd}', 2));
    assert_eq!(decode_utf8_char(&[0xF4, 0x90, 0x80, 0x80], 0), ('\u{fffd}', 4));
}

#[test]
fn malformed_characters_are_replaced() {
    assert_eq!(decode_utf8_char(&[0xE2, 0x82], 0), ('\u{fffd}', 2));
    assert_eq!(decode_utf8_char(&[0xC3, b'a'], 0), ('\u{fffd}', 1));
    assert_eq!(decode_utf8_char(&[0xE2, 0x82, b'a', b'b'], 0), ('\u{fffd}', 2));
    assert_eq!(decode_utf8_char(&[0xED, 0xA0, 0x80], 0), ('\u{fffd}', 3));
    assert_eq!(decode_utf8_char(&[0xF7, 0xBF, 0xBF, 0xBF], 0), ('\u{fffd}', 4));
}

#[test]
fn spaces_and_returns() {
    assert!(is_wrap_space(' '));
    assert!(is_wrap_space('\u{a0}'));
    assert!(!is_wrap_space('\t'));
    assert_eq!(trim_trailing_cr(b"ab\r", 0, 3), 2);
    assert_eq!(trim_trailing_cr(b"ab\r", 3, 3), 3);
    assert_eq!(trim_trailing_cr(b"abc", 0, 3), 3);
}

#[test]
fn lines_break_between_words() {
    let text = b"one two three four";
    let (used, lines) = laid_out(text, 10);
    assert_eq!(shown(text, &lines), vec!["one two ", "three four"]);
    assert_eq!(used, text.len());
}

#[test]
fn a_long_word_breaks_where_the_line_ends() {
    let text = b"abcdefghijklmno";
    let (_, lines) = laid_out(text, 10);
    assert_eq!(shown(text, &lines), vec!["abcdefghij", "klmno"]);
}

#[test]
fn newlines_end_lines() {
    let text = b"a\r\n\nb";
    let (_, lines) = laid_out(text, 10);
    assert_eq!(shown(text, &lines), vec!["a", "", "b"]);
}

#[test]
fn a_page_takes_what_fits_and_the_next_goes_on_there() {
    let text = b"one two three four five six seven";
    let (used, lines) = laid_out(text, 2);
    assert_eq!(shown(text, &lines), vec!["one two ", "three four"]);
    assert_eq!(&text[used..], b"five six seven");
    let (_, rest) = laid_out(&text[used..], 2);
    assert_eq!(shown(&text[used..], &rest), vec!["five six ", "seven"]);
}

#[test]
fn styles_change_widths_and_are_noted() {
    let text = b"\x01Bab\x01b cd \x01Hx";
    let (_, lines) = laid_out(text, 10);
    assert_eq!(lines.len(), 2);
    assert_eq!(lines[0].flags, FLAG_HEADING);
    assert_eq!(lines[1].flags, FLAG_HEADING);
    let (_, plain) = laid_out(b"ab\n\x01Bcd\n", 10);
    assert_eq!((plain[0].flags, plain[1].flags), (0, FLAG_BOLD));
    assert_eq!(LineSpan::pack_flags(true, true, false), FLAG_BOLD + FLAG_ITALIC);
    let bold = LineSpan { start: 0, len: 1, flags: FLAG_BOLD + FLAG_ITALIC, indent: 0 };
    assert!(matches!(bold.style(), Style::Bold));
}

#[test]
fn quotations_are_narrower() {
    let text = b"\x01Qabcdefghij";
    let (_, lines) = laid_out(text, 10);
    assert_eq!(shown(text, &lines), vec!["\u{1}Qabcdefg", "hij"]);
    assert_eq!(lines[0].indent, 1);
    let mut t = TextState::plain();
    t.apply(&M, b'q');
    assert_eq!(t.indent, 0);
    t.apply(&M, b'Q');
    t.apply(&M, b'J');
    assert_eq!((t.indent, t.italic), (1, true));
    assert!(matches!(t.style(), Style::Italic));
}

#[test]
fn soft_hyphens_let_a_word_break() {
    let text = "abcdefg\u{ad}hijkl".as_bytes();
    let (_, lines) = laid_out(text, 10);
    assert_eq!(lines[0].len, 9);
    assert_eq!(lines[1].start, 9);
}

#[test]
fn characters_are_measured_by_the_first_entry() {
    let text = "\u{e4}\u{e4}\u{e4}\u{e4}\u{e4}\u{e4}\u{e4}".as_bytes();
    let (_, lines) = laid_out(text, 10);
    assert_eq!(lines[0].len, 12);
    assert_eq!(fonts().advance('\u{f6}', Style::Regular), 12);
    assert_eq!(fonts().advance_byte(b'a', Style::Heading), 30);
}

#[test]
fn images_take_lines_of_their_own() {
    let text = b"ab\x01I\x03p.xcd";
    let (_, lines) = laid_out(text, 20);
    assert_eq!(lines[0].len, 2);
    assert_eq!((lines[1].start, lines[1].len, lines[1].flags), (5, 3, FLAG_IMAGE));
    assert!(lines[1].is_image_origin());
    assert!(lines[2].is_image() && !lines[2].is_image_origin());
    assert_eq!(lines.len(), 1 + 10 + 1);
    assert_eq!(lines[11].start, 8);
}

#[test]
fn an_image_at_the_end_of_a_page_waits() {
    let text = b"ab\x01I\x03p.xcd";
    let (used, lines) = laid_out(text, 1);
    assert_eq!(lines.len(), 1);
    assert_eq!(used, 2);
}

#[test]
fn built_in_font_breaks_by_count() {
    let mut p = Pager::new(Face::fit(None, 700), 464, M);
    let mut text = vec![b'x'; CHARS_PER_LINE + 4];
    text.extend_from_slice(b"\r\ny");
    p.load_bytes(&text);
    assert_eq!(p.wrap_lines_counted(text.len()), text.len());
    assert_eq!(p.lines.len(), 3);
    assert_eq!(p.lines[0].len as usize, CHARS_PER_LINE);
    assert_eq!(p.lines[1].len, 4);
    assert_eq!(p.lines[2].len, 1);
}

#[test]
fn pages_of_a_chapter_in_memory() {
    let mut p = Pager::new(Face::fit(None, 700), 464, M);
    let mut text: Vec<u8> = Vec::new();
    for _ in 0..150 {
        text.extend_from_slice(b"line\n");
    }
    p.set_file_size(text.len() as u32);
    p.set_chapter_text(text);
    p.preindex_all_pages();
    assert!(p.fully_indexed);
    assert_eq!(p.total_pages, 3);
    assert_eq!(&p.offsets[..3], &[0, 58 * 5, 116 * 5]);
    p.go_to(2);
    p.load_from_memory();
    assert_eq!(p.lines.len(), 34);
    assert_eq!(LINES_PER_PAGE, 58);
    assert_eq!(p.buf.len(), PAGE_BUF);
}

#[test]
fn faces() {
    let f = Face::fit(Some(fonts()), 410);
    assert_eq!((f.line_h, f.ascent, f.max_lines), (20, 15, 20));
    let f = Face::fit(Some(fonts()), 5000);
    assert_eq!(f.max_lines, 58);
    let f = Face::fit(None, 410);
    assert_eq!((f.line_h, f.ascent, f.max_lines), (13, 13, 58));
}

#[test]
fn image_cache_names() {
    assert_eq!(&img_cache_name(0x00AB_CDEF), b"00ABCDEF.BIN");
    assert_eq!(&img_cache_name(0xFFFF_FFFF), b"FFFFFFFF.BIN");
    assert_eq!(img_cache_str(&img_cache_name(0x0123_4567)), "01234567.BIN");
    assert_ne!(img_cache_name(1), img_cache_name(2));
}

#[test]
fn kinds_of_images_by_name() {
    assert!(path_ext_eq(b"a.PNG", b"png"));
    assert!(!path_ext_eq(b"png", b"png"));
    assert!(is_image_ext_jpeg(b"x/y.Jpeg") && is_image_ext_jpeg(b"x.jpg"));
    assert!(is_image_ext_png(b".png") && !is_image_ext_png(b"a.jpg"));
    assert!(names_jpeg(b"a.JPEG") && !names_jpeg(b"a.Jpeg"));
    assert!(names_png(b"a.png") && !names_png(b"a.Png"));
}

#[test]
fn kinds_of_images_by_their_first_bytes() {
    assert!(starts_jpeg(&[0xFF, 0xD8]) && !starts_jpeg(&[0xFF]));
    assert!(starts_png(&[137, 80, 78, 71, 13, 10, 26, 10]));
    assert!(!starts_png(&[137, 80, 78, 71, 13, 10, 26]));
}

#[test]
fn image_files() {
    let img = Image { width: 0x0109, height: 2, stride: 34, data: vec![0; 68] };
    let head = image_header(&img);
    assert_eq!(head, vec![9, 1, 2, 0]);
    assert_eq!(image_dims(&head, 72), Some((0x0109, 2)));
    assert_eq!(image_dims(&head, 71), None);
    assert_eq!(image_dims(&[0, 0, 2, 0], 4), None);
    assert_eq!(img.copy().data, img.data);
    let mut b = vec![1u8];
    pad(&mut b, 4);
    assert_eq!(b, vec![1, 0, 0, 0]);
}

#[test]
fn references_in_a_chunk() {
    let b = b"xx\x01I\x02abc\x01I\x00\x01I\x09ab";
    assert_eq!(find_reference(b, b.len(), &M, 0), Some(2));
    assert_eq!(find_reference(b, b.len(), &M, 3), None);
    assert_eq!(dir_of(b"OEBPS/text/ch1.xhtml"), b"OEBPS/text");
    assert_eq!(dir_of(b"ch1.xhtml"), b"");
}

#[test]
fn chapter_cache() {
    let mut c = ChapterCache::new(4);
    c.set_chapter(0, 10);
    c.set_chapter(1, 20);
    c.skip_done(3);
    assert_eq!(c.next, 2);
    c.set_bg(BgCacheState::CacheChapter);
    c.search_images(2);
    assert_eq!((c.img_ch, c.img_offset, c.img_wrapped), (2, 0, false));
    c.for_book();
    assert!(!c.done[0]);
    assert_eq!(c.bg, BgCacheState::Idle);
    assert_eq!(count_up(65535), 0);
}
