use std::collections::BTreeMap;

use pulp_os::apps::reader::app::{
    QuickAction, ReaderApp, State, TocEntry, NO_CHAPTER, QA_FONT_SIZE, QA_NEXT_CHAPTER,
    QA_PREV_CHAPTER, QA_TOC,
};
use pulp_os::apps::reader::cache::BgCacheState;
use pulp_os::apps::reader::draw::{Look, PageDraw};
use pulp_os::apps::reader::images::Image;
use pulp_os::apps::reader::work::{Ask, Opf, Reply, WorkOutcome, WorkResult, ZipEntry};
use pulp_os::apps::reader::wrap::Markup;
use pulp_os::board::action::{Action, ActionEvent};
use pulp_os::fonts::{FontSet, StyleMetrics};
use pulp_os::kernel::app::{AppContext, PendingSetting, Transition, Wish};
use pulp_os::kernel::bookmarks::BookmarkCache;
use pulp_os::ui::Screen;

const SCREEN: Screen = Screen { w: 480, h: 800, content_top: 18, button_bar_h: 24 };

const M: Markup = Markup {
    marker: 1,
    img_ref: b'I',
    bold_on: b'B',
    bold_off: b'b',
    italic_on: b'J',
    italic_off: b'j',
    heading_on: b'H',
    heading_off: b'h',
    quote_on: b'Q',
    quote_off: b'q',
};

const ROOM: usize = 8;

/// A card with one book on it, and the worker.
struct World {
    file: Vec<u8>,
    chapters: Vec<Vec<u8>>,
    spine: Vec<u32>,
    title: Vec<u8>,
    toc: Vec<(u16, Vec<u8>)>,
    image_size: u32,
    image_there: bool,
    cached: BTreeMap<u16, Vec<u8>>,
    images: BTreeMap<u32, Vec<u8>>,
    meta: Option<Vec<u32>>,
    worker: Vec<WorkResult>,
    sizes: Vec<u32>,
    recent: Vec<Vec<u8>>,
    titles: Vec<Vec<u8>>,
    asks: Vec<Ask>,
}

impl World {
    fn text(file: Vec<u8>) -> World {
        World {
            file,
            chapters: vec![],
            spine: vec![],
            title: vec![],
            toc: vec![],
            image_size: 1000,
            image_there: true,
            cached: BTreeMap::new(),
            images: BTreeMap::new(),
            meta: None,
            worker: vec![],
            sizes: vec![0; ROOM],
            recent: vec![],
            titles: vec![],
            asks: vec![],
        }
    }

    fn epub(chapters: Vec<Vec<u8>>) -> World {
        let mut w = World::text(vec![7; 2000]);
        w.spine = chapters.iter().map(|c| c.len() as u32).collect();
        w.chapters = chapters;
        w.title = b"A Title".to_vec();
        w.toc = vec![(0, b"One".to_vec()), (NO_CHAPTER, b"Gap".to_vec()), (2, b"Three".to_vec())];
        w
    }

    fn entry(&self, idx: usize) -> Reply {
        Reply::Entry(Some(ZipEntry {
            idx,
            local_offset: 100,
            stored: true,
            comp_size: 50,
            uncomp_size: self.image_size,
        }))
    }

    fn reply(&mut self, r: &ReaderApp, ask: Ask) -> Reply {
        let written = r.bytes_to_write(ask);
        match ask {
            Ask::Idle | Ask::Again => Reply::Nothing,
            Ask::WriteRecent => {
                self.recent.push(written.unwrap());
                Reply::Outcome(Ok(()))
            }
            Ask::BookSize => Reply::Size(Ok(self.file.len() as u32)),
            Ask::ReadBook { offset, len } => {
                let from = (offset as usize).min(self.file.len());
                let to = (from + len).min(self.file.len());
                Reply::Bytes(Ok(self.file[from..to].to_vec()))
            }
            Ask::OpenBook { len } => {
                let to = len.min(self.file.len());
                Reply::Start(Ok((self.file.len() as u32, self.file[..to].to_vec())))
            }
            Ask::ParseTail { .. } => Reply::Directory(Ok((1500, 300))),
            Ask::Room { .. } => Reply::Flag(true),
            Ask::ParseDirectory | Ask::EnsureDir => Reply::Outcome(Ok(())),
            Ask::SaveTitle => {
                self.titles.push(written.unwrap());
                Reply::Outcome(Ok(()))
            }
            Ask::FindContainer => self.entry(0),
            Ask::ContainerPath { .. } | Ask::ScanForOpf => Reply::Bytes(Ok(b"c.opf".to_vec())),
            Ask::FindEntry { .. } => {
                if r.scratch.as_slice() == b"c.opf" || self.image_there {
                    self.entry(1)
                } else {
                    Reply::Entry(None)
                }
            }
            Ask::ParseOpf { .. } => Reply::Opf(Ok(Opf {
                spine: self.spine.clone(),
                title: self.title.clone(),
                has_toc: !self.toc.is_empty(),
            })),
            Ask::ReadToc => {
                let mut all: Vec<TocEntry> = Vec::new();
                for (ch, t) in &self.toc {
                    all.push(TocEntry { spine_idx: *ch, title: t.clone() });
                }
                Reply::Toc(Ok(all))
            }
            Ask::ReadMeta => match &self.meta {
                Some(_) => Reply::Bytes(Ok(vec![1])),
                None => Reply::Bytes(Err("open file failed")),
            },
            Ask::ParseMeta { .. } => {
                let mut sizes = self.meta.clone().unwrap();
                let n = sizes.len();
                sizes.resize(ROOM, 0);
                Reply::Meta(Some(n), sizes)
            }
            Ask::WriteMeta => {
                let record = r.cache_record();
                assert_eq!(record.epub_size as usize, self.file.len());
                self.meta = Some(record.sizes);
                Reply::Outcome(Ok(()))
            }
            Ask::TruncateChapter { ch } => {
                self.cached.insert(ch, written.unwrap());
                Reply::Outcome(Ok(()))
            }
            Ask::StripChapter { ch } => {
                let text = self.chapters[ch as usize].clone();
                let n = text.len() as u32;
                self.cached.insert(ch, text);
                Reply::Size(Ok(n))
            }
            Ask::ExtractChapter { .. } | Ask::ExtractImage { .. } => Reply::Outcome(Ok(())),
            Ask::SubmitChapter { ch } => {
                let text = self.chapters[ch as usize].clone();
                self.worker.push(WorkResult {
                    current: true,
                    outcome: WorkOutcome::ChapterReady { ch, text },
                });
                Reply::Flag(true)
            }
            Ask::WriteChapter { ch } => {
                self.cached.insert(ch, written.unwrap());
                Reply::Outcome(Ok(()))
            }
            Ask::ReadChapter { ch, offset, len } => {
                let text = &self.cached[&ch];
                let from = (offset as usize).min(text.len());
                let to = (from + len).min(text.len());
                Reply::Bytes(Ok(text[from..to].to_vec()))
            }
            Ask::PollWorker => {
                let result = self.worker.pop();
                Reply::Worker(result)
            }
            Ask::WorkerIdle => Reply::Flag(self.worker.is_empty()),
            Ask::ResolveImage { .. } => {
                let path = r.scratch.clone();
                Reply::Resolved(path.len() as u32, path)
            }
            Ask::ImageSize { hash } => match self.images.get(&hash) {
                Some(d) => Reply::Size(Ok(d.len() as u32)),
                None => Reply::Size(Err("open file failed")),
            },
            Ask::ReadImage { hash, offset, len } => {
                let d = &self.images[&hash];
                let from = (offset as usize).min(d.len());
                let to = (from + len).min(d.len());
                Reply::Bytes(Ok(d[from..to].to_vec()))
            }
            Ask::LocalHeader { .. } => Reply::Size(Ok(40)),
            Ask::Decode { .. } => Reply::Decoded(Ok(picture())),
            Ask::WriteImageHeader { hash } => {
                self.images.insert(hash, written.unwrap());
                Reply::Outcome(Ok(()))
            }
            Ask::AppendImage { hash } => {
                self.images.get_mut(&hash).unwrap().extend_from_slice(&written.unwrap());
                Reply::Outcome(Ok(()))
            }
            Ask::SkipImage { hash } => {
                self.images.insert(hash, written.unwrap());
                Reply::Outcome(Ok(()))
            }
            Ask::SubmitImage { hash, .. } => {
                self.worker.push(WorkResult {
                    current: true,
                    outcome: WorkOutcome::ImageReady { hash, image: picture() },
                });
                Reply::Flag(true)
            }
        }
    }

    /// One tick of the background work.
    fn tick(&mut self, r: &mut ReaderApp, bm: &BookmarkCache) {
        let mut ask = r.background(bm);
        self.drive(r, &mut ask);
    }

    fn drive(&mut self, r: &mut ReaderApp, ask: &mut Ask) {
        let mut steps = 0;
        while *ask != Ask::Idle {
            self.asks.push(*ask);
            let reply = self.reply(r, *ask);
            *ask = r.resume(reply);
            steps += 1;
            assert!(steps < 100_000);
        }
    }

    fn settle(&mut self, r: &mut ReaderApp, bm: &BookmarkCache) {
        for _ in 0..100 {
            self.tick(r, bm);
            if (r.state == State::Ready || r.state == State::Error)
                && r.cache.bg == BgCacheState::Idle
            {
                break;
            }
        }
    }
}

fn picture() -> Image {
    Image { width: 9, height: 3, stride: 2, data: vec![0xAA; 6] }
}

fn opened(name: &[u8], epub: bool) -> ReaderApp {
    let mut r = ReaderApp::new(SCREEN, M, ROOM);
    open(&mut r, name, epub);
    r
}

fn open(r: &mut ReaderApp, name: &[u8], epub: bool) {
    open_with(r, name, epub, vec![]);
}

fn open_with(r: &mut ReaderApp, name: &[u8], epub: bool, fonts: Vec<FontSet>) {
    let mut ctx = AppContext::new();
    ctx.set_message(name);
    r.on_enter(&mut ctx, 5, epub, 3, fonts);
    assert_eq!(ctx.wishes.len(), 1);
}

fn style() -> StyleMetrics {
    StyleMetrics {
        line_height: 20,
        ascent: 15,
        bytes: [10; 128],
        glyphs: vec![],
        missing: 10,
    }
}

fn fonts() -> Vec<FontSet> {
    vec![FontSet { regular: style(), bold: style(), italic: style(), heading: style() }]
}

fn bookmarks() -> BookmarkCache {
    let mut bm = BookmarkCache::new();
    bm.ensure_loaded(None);
    bm
}

fn lines(n: usize) -> Vec<u8> {
    let mut t: Vec<u8> = Vec::new();
    for _ in 0..n {
        t.extend_from_slice(b"line\n");
    }
    t
}

fn press(r: &mut ReaderApp, a: Action) -> Transition {
    let mut ctx = AppContext::new();
    r.on_event(ActionEvent::Press(a), &mut ctx)
}

#[test]
fn a_text_is_read_page_by_page() {
    let mut w = World::text(lines(130));
    let bm = bookmarks();
    let mut r = opened(b"A.TXT", false);
    w.settle(&mut r, &bm);
    assert_eq!(r.state, State::Ready);
    assert_eq!(w.recent, vec![b"A.TXT".to_vec()]);
    assert_eq!(r.pager.lines.len(), 58);
    assert_eq!(r.pager.page, 0);
    press(&mut r, Action::Next);
    assert_eq!(r.state, State::NeedPage);
    w.settle(&mut r, &bm);
    assert_eq!(r.pager.offsets[1], 290);
    press(&mut r, Action::Next);
    w.settle(&mut r, &bm);
    assert_eq!(r.pager.page, 2);
    assert_eq!(r.pager.lines.len(), 14);
    assert!(r.pager.fully_indexed);
    assert_eq!(r.progress_pct(), 100);
    assert!(!r.page_forward());
    press(&mut r, Action::Prev);
    w.settle(&mut r, &bm);
    assert_eq!(r.pager.page, 1);
    assert_eq!(r.progress_pct(), 44);
}

#[test]
fn a_book_reopens_where_it_was_left() {
    let mut w = World::text(lines(300));
    let mut bm = bookmarks();
    let mut r = opened(b"A.TXT", false);
    w.settle(&mut r, &bm);
    for _ in 0..3 {
        press(&mut r, Action::Next);
        w.settle(&mut r, &bm);
    }
    assert_eq!(r.pager.page, 3);
    r.save_state(&mut bm);
    assert!(!r.on_exit());
    assert_eq!(r.pager.lines.len(), 0);
    open(&mut r, b"A.TXT", false);
    w.settle(&mut r, &bm);
    assert_eq!(r.pager.page, 3);
    assert_eq!(r.pager.offsets[3], 870);
}

#[test]
fn an_epub_is_opened_and_cached() {
    let mut w = World::epub(vec![lines(10), lines(200), lines(5)]);
    let bm = bookmarks();
    let mut r = opened(b"B.EPUB", true);
    for state in [State::NeedOpf, State::NeedToc, State::Ready] {
        w.tick(&mut r, &bm);
        assert_eq!(r.state, state);
    }
    assert_eq!(r.display_name(), "A Title");
    assert_eq!(r.name(), "B.EPUB");
    assert_eq!(r.pager.total_pages, 1);
    assert!(w.asks.contains(&Ask::StripChapter { ch: 0 }));
    w.settle(&mut r, &bm);
    assert_eq!(r.cache.bg, BgCacheState::Idle);
    assert_eq!(w.cached.len(), 3);
    assert_eq!(w.cached[&2], lines(5));
    assert_eq!(w.meta, Some(vec![50, 1000, 25]));
    assert_eq!(r.cache.done[..3], [true, true, true]);
    let before = w.asks.len();
    w.tick(&mut r, &bm);
    assert!(w.asks[before..].iter().all(|a| *a == Ask::Again));
}

#[test]
fn a_cached_epub_is_not_stripped_again() {
    let mut w = World::epub(vec![lines(10), lines(20), lines(5)]);
    let bm = bookmarks();
    let mut r = opened(b"B.EPUB", true);
    w.settle(&mut r, &bm);
    w.asks.clear();
    assert!(r.on_exit());
    open(&mut r, b"B.EPUB", true);
    w.settle(&mut r, &bm);
    assert_eq!(r.state, State::Ready);
    assert!(w.asks.contains(&Ask::ReadMeta));
    assert!(!w.asks.iter().any(|a| matches!(a, Ask::StripChapter { .. } | Ask::WriteChapter { .. })));
}

#[test]
fn chapters_follow_each_other() {
    let mut w = World::epub(vec![lines(70), lines(70), lines(5)]);
    let mut bm = bookmarks();
    let mut r = opened(b"B.EPUB", true);
    w.settle(&mut r, &bm);
    assert_eq!(r.pager.total_pages, 2);
    press(&mut r, Action::Next);
    w.settle(&mut r, &bm);
    assert_eq!((r.chapter, r.pager.page), (0, 1));
    press(&mut r, Action::Next);
    w.settle(&mut r, &bm);
    assert_eq!((r.chapter, r.pager.page), (1, 0));
    assert_eq!(r.progress_pct(), 33);
    press(&mut r, Action::Prev);
    w.settle(&mut r, &bm);
    assert_eq!((r.chapter, r.pager.page), (0, 1));
    press(&mut r, Action::NextJump);
    w.settle(&mut r, &bm);
    press(&mut r, Action::NextJump);
    w.settle(&mut r, &bm);
    assert_eq!(r.chapter, 2);
    assert_eq!(r.progress_pct(), 100);
    assert!(!r.jump_forward());
    r.save_state(&mut bm);
    r.on_exit();
    open(&mut r, b"B.EPUB", true);
    w.settle(&mut r, &bm);
    assert_eq!((r.chapter, r.pager.page), (2, 0));
}

#[test]
fn large_chapters_are_not_handed_to_the_worker() {
    let mut w = World::epub(vec![lines(1), lines(1), lines(1), lines(2), lines(3)]);
    w.spine[3] = 32769;
    let bm = bookmarks();
    let mut r = opened(b"B.EPUB", true);
    w.settle(&mut r, &bm);
    assert!(!w.asks.contains(&Ask::SubmitChapter { ch: 3 }));
    assert!(w.asks.contains(&Ask::SubmitChapter { ch: 2 }));
    assert!(r.cache.done[3]);
    assert!(w.asks.contains(&Ask::SubmitChapter { ch: 4 }));
    assert_eq!(r.cache.done[..5], [true; 5]);
    assert_eq!(w.meta, Some(vec![5, 5, 5, 10, 15]));
    assert_eq!(r.cache.bg, BgCacheState::Idle);
}

#[test]
fn images_are_cached_after_a_large_chapter() {
    let mut last = b"\x01I\x05a.png".to_vec();
    last.extend_from_slice(b" text");
    let mut w = World::epub(vec![lines(1), lines(1), lines(1), last]);
    w.spine[3] = 40000;
    let bm = bookmarks();
    let mut r = opened(b"B.EPUB", true);
    w.settle(&mut r, &bm);
    assert_eq!(r.cache.bg, BgCacheState::Idle);
    assert_eq!(w.images.get(&5).map(|d| d.len()), Some(10));
}

#[test]
fn cached_chapters_keep_their_text() {
    let texts = vec![lines(4), lines(6), lines(8), lines(10)];
    let mut w = World::epub(texts.clone());
    let bm = bookmarks();
    let mut r = opened(b"B.EPUB", true);
    w.settle(&mut r, &bm);
    for (ch, text) in texts.iter().enumerate() {
        assert_eq!(&w.cached[&(ch as u16)], text);
        let cut = w.asks.iter().filter(|a| **a == Ask::TruncateChapter { ch: ch as u16 });
        assert_eq!(cut.count(), 1);
    }
}

#[test]
fn a_long_title_is_saved_whole() {
    let mut w = World::epub(vec![lines(1)]);
    w.title = vec![b't'; 150];
    let bm = bookmarks();
    let mut r = opened(b"B.EPUB", true);
    w.settle(&mut r, &bm);
    assert_eq!(w.titles, vec![vec![b't'; 150]]);
    assert_eq!(r.title, vec![b't'; 96]);
    assert_eq!(w.recent, vec![b"B.EPUB".to_vec()]);
}

#[test]
fn a_bookmark_without_a_chapter_leads_to_the_start() {
    let mut w = World::epub(vec![lines(1), lines(1)]);
    let mut bm = bookmarks();
    bm.save(b"B.EPUB", 5, 70, ROOM as u16);
    let mut r = opened(b"B.EPUB", true);
    w.settle(&mut r, &bm);
    assert_eq!((r.state, r.chapter, r.pager.page), (State::Ready, 0, 0));
    bm.save(b"B.EPUB", 5, 0, 1);
    open(&mut r, b"B.EPUB", true);
    w.settle(&mut r, &bm);
    assert_eq!((r.state, r.chapter), (State::Ready, 1));
}

#[test]
fn opening_fails_with_the_reason() {
    let mut w = World::epub(vec![lines(1)]);
    w.file = vec![0; 21];
    let bm = bookmarks();
    let mut r = opened(b"B.EPUB", true);
    w.settle(&mut r, &bm);
    assert_eq!(r.state, State::Error);
    assert_eq!(r.error, Some("epub: file too small"));
    assert!(r.dirty);
    let mut ctx = AppContext::new();
    r.pass_dirty(&mut ctx);
    assert_eq!(ctx.wishes.len(), 1);
    assert!(!r.dirty);
}

#[test]
fn answers_of_another_kind_change_nothing() {
    let bm = bookmarks();
    let mut r = opened(b"B.EPUB", true);
    let ask = r.background(&bm);
    assert_eq!(ask, Ask::WriteRecent);
    assert_eq!(r.resume(Reply::Flag(true)), Ask::Idle);
    assert_eq!(r.state, State::NeedBookmark);
}

#[test]
fn table_of_contents() {
    let mut w = World::epub(vec![lines(10), lines(20), lines(5)]);
    let bm = bookmarks();
    let mut r = opened(b"B.EPUB", true);
    w.settle(&mut r, &bm);
    assert_eq!(r.quick_actions().len(), 4);
    assert!(matches!(r.quick_actions()[0], QuickAction::Cycle { id: QA_FONT_SIZE, value: 0, .. }));
    let mut ctx = AppContext::new();
    r.on_quick_trigger(QA_TOC, &mut ctx);
    assert_eq!(r.state, State::ShowToc);
    assert_eq!(r.toc_selected, 0);
    assert_eq!(press(&mut r, Action::Back), Transition::Stay);
    assert_eq!(r.state, State::Ready);
    r.on_quick_trigger(QA_TOC, &mut ctx);
    press(&mut r, Action::Prev);
    assert_eq!(r.toc_selected, 2);
    press(&mut r, Action::Select);
    w.settle(&mut r, &bm);
    assert_eq!(r.chapter, 2);
    r.on_quick_trigger(QA_TOC, &mut ctx);
    assert_eq!(r.toc_selected, 2);
    press(&mut r, Action::Prev);
    press(&mut r, Action::Select);
    assert_eq!((r.state, r.chapter), (State::Ready, 2));
}

#[test]
fn chapters_by_the_quick_menu() {
    let mut w = World::epub(vec![lines(10), lines(20), lines(5)]);
    let bm = bookmarks();
    let mut r = opened(b"B.EPUB", true);
    w.settle(&mut r, &bm);
    let mut ctx = AppContext::new();
    r.on_quick_trigger(QA_PREV_CHAPTER, &mut ctx);
    assert_eq!((r.chapter, r.state), (0, State::Ready));
    r.on_quick_trigger(QA_NEXT_CHAPTER, &mut ctx);
    assert_eq!((r.chapter, r.state), (1, State::NeedIndex));
    w.settle(&mut r, &bm);
    r.on_quick_cycle_update(QA_FONT_SIZE, 3, vec![]);
    assert_eq!(r.state, State::NeedIndex);
    assert_eq!(r.pending_setting(), Some(PendingSetting::BookFontSize(3)));
}

#[test]
fn changed_fonts_take_effect_on_coming_back() {
    let mut w = World::text(lines(130));
    let bm = bookmarks();
    let mut r = opened(b"A.TXT", false);
    w.settle(&mut r, &bm);
    press(&mut r, Action::Next);
    w.settle(&mut r, &bm);
    let mut ctx = AppContext::new();
    assert_eq!(r.on_resume(&mut ctx, vec![]), Some(3));
    assert_eq!((r.state, r.pager.page), (State::Ready, 1));
    r.book_font_size_idx = 4;
    r.on_resume(&mut ctx, vec![]);
    assert_eq!((r.state, r.pager.page), (State::NeedPage, 0));
    r.set_book_font_size(2, vec![]);
    r.set_chrome_font();
    assert!(r.has_chrome_font);
    assert!(!r.has_bg_work());
}

#[test]
fn a_picture_of_a_page_is_decoded_and_kept() {
    let chapter = b"\x01I\x05a.pngtext".to_vec();
    let mut w = World::epub(vec![chapter]);
    let bm = bookmarks();
    let mut r = ReaderApp::new(SCREEN, M, ROOM);
    open_with(&mut r, b"B.EPUB", true, fonts());
    w.settle(&mut r, &bm);
    assert_eq!(r.state, State::Ready);
    let img = r.page_img.as_ref().unwrap();
    assert_eq!((img.width, img.height), (9, 3));
    assert!(!r.fullscreen_img);
    assert_eq!(w.images[&5].len(), 10);
    w.asks.clear();
    r.on_exit();
    open_with(&mut r, b"B.EPUB", true, fonts());
    w.settle(&mut r, &bm);
    assert!(r.page_img.is_some());
    assert!(!w.asks.iter().any(|a| matches!(a, Ask::Decode { .. })));
}

#[test]
fn a_page_with_nothing_but_a_picture_is_shown_large() {
    let mut w = World::epub(vec![b"\x01I\x05a.png".to_vec()]);
    let bm = bookmarks();
    let mut r = ReaderApp::new(SCREEN, M, ROOM);
    open_with(&mut r, b"B.EPUB", true, fonts());
    w.settle(&mut r, &bm);
    assert!(r.fullscreen_img);
    assert!(r.page_img.is_some());
}

#[test]
fn pictures_of_other_chapters_are_cached_in_the_background() {
    let mut w = World::epub(vec![
        lines(3),
        lines(3),
        b"x\x01I\x05a.png".to_vec(),
        b"\x01I\x06ab.jpgz".to_vec(),
        b"\x01I\x07abc.bmpz".to_vec(),
    ]);
    let bm = bookmarks();
    let mut r = opened(b"B.EPUB", true);
    w.settle(&mut r, &bm);
    assert_eq!(w.images[&5].len(), 10);
    assert_eq!(w.images[&6].len(), 10);
    assert_eq!(w.images[&7].len(), 0);
    assert!(w.asks.iter().any(|a| matches!(
        a,
        Ask::SubmitImage { hash: 6, is_jpeg: true, .. }
    )));
    assert!(w.asks.contains(&Ask::SkipImage { hash: 7 }));
}

#[test]
fn large_pictures_are_decoded_in_place() {
    let mut w = World::epub(vec![lines(3), lines(3), b"x\x01I\x05a.png".to_vec()]);
    w.image_size = 30721;
    let bm = bookmarks();
    let mut r = opened(b"B.EPUB", true);
    w.settle(&mut r, &bm);
    assert_eq!(w.images[&5].len(), 10);
    assert!(w.asks.iter().any(|a| matches!(a, Ask::Decode { .. })));
    assert!(!w.asks.iter().any(|a| matches!(a, Ask::SubmitImage { .. })));
}

#[test]
fn a_suspended_book_goes_on_caching() {
    let mut w = World::epub(vec![lines(1), lines(2), lines(3), lines(4)]);
    let bm = bookmarks();
    let mut r = opened(b"B.EPUB", true);
    for _ in 0..3 {
        w.tick(&mut r, &bm);
    }
    assert!(r.has_background_when_suspended());
    r.on_suspend();
    for _ in 0..20 {
        let mut ask = r.bg_work_tick();
        w.drive(&mut r, &mut ask);
    }
    assert!(!r.has_background_when_suspended());
    assert_eq!(w.cached.len(), 4);
}

#[test]
fn the_position_shows_while_a_button_is_held() {
    let mut w = World::text(lines(130));
    let bm = bookmarks();
    let mut r = opened(b"A.TXT", false);
    w.settle(&mut r, &bm);
    let mut ctx = AppContext::new();
    r.on_event(ActionEvent::LongPress(Action::Next), &mut ctx);
    assert!(r.show_position);
    w.settle(&mut r, &bm);
    let mut ctx = AppContext::new();
    r.on_event(ActionEvent::Release(Action::Next), &mut ctx);
    assert!(!r.show_position);
    assert!(matches!(ctx.wishes[0], Wish::MarkDirty(_)));
    let t = r.on_event(ActionEvent::LongPress(Action::Back), &mut ctx);
    assert_eq!(t, Transition::Home);
}

#[test]
fn what_a_page_shows() {
    let mut w = World::text(b"Hello\nWorld\n".to_vec());
    let bm = bookmarks();
    let mut r = opened(b"A.TXT", false);
    w.settle(&mut r, &bm);
    let look = Look { toc_line_h: 20, toc_ascent: 15, first_char: 32 };
    let ops = r.draw(&look);
    let mut words: Vec<String> = Vec::new();
    for d in &ops {
        if let PageDraw::Mono { text, .. } = d {
            words.push(String::from_utf8(text.clone()).unwrap());
        }
        if let PageDraw::Chrome { text, .. } = d {
            words.push(String::from_utf8(text.clone()).unwrap());
        }
    }
    assert!(words.contains(&"Hello".to_string()));
    assert!(words.contains(&"World".to_string()));
    assert!(words.iter().any(|t| t.contains("A.TXT")));
}

#[test]
fn results_for_another_book_are_dropped() {
    let mut w = World::epub(vec![lines(10), lines(20), lines(5)]);
    let bm = bookmarks();
    let mut r = opened(b"B.EPUB", true);
    while r.cache.bg != BgCacheState::WaitChapter {
        w.tick(&mut r, &bm);
    }
    let before = (r.cache.done.clone(), r.cache.next);
    let mut ask = r.background(&bm);
    while ask != Ask::PollWorker {
        let reply = w.reply(&r, ask);
        ask = r.resume(reply);
    }
    let outcome = WorkOutcome::ChapterReady { ch: 2, text: vec![b'x'] };
    let ask = r.resume(Reply::Worker(Some(WorkResult { current: false, outcome })));
    assert_eq!(ask, Ask::Idle);
    assert_eq!(r.cache.bg, BgCacheState::WaitChapter);
    assert_eq!(before, (r.cache.done.clone(), r.cache.next));
}

#[test]
fn caching_leaves_the_page_alone() {
    let mut w = World::epub(vec![lines(70), lines(20), b"x\x01I\x05a.png".to_vec()]);
    let bm = bookmarks();
    let mut r = opened(b"B.EPUB", true);
    while r.state != State::Ready {
        w.tick(&mut r, &bm);
    }
    let page = (r.pager.page, r.pager.buf.clone(), r.pager.lines.len(), r.chapter);
    w.settle(&mut r, &bm);
    assert_eq!(page, (r.pager.page, r.pager.buf.clone(), r.pager.lines.len(), r.chapter));
    assert_eq!(r.state, State::Ready);
}

#[test]
fn the_selected_entry_of_the_contents_stays_in_sight() {
    let mut w = World::epub(vec![lines(1), lines(1)]);
    w.toc.clear();
    for i in 0..100u16 {
        w.toc.push((i % 2, format!("Part {}", i).into_bytes()));
    }
    let bm = bookmarks();
    let mut r = opened(b"B.EPUB", true);
    w.settle(&mut r, &bm);
    let mut ctx = AppContext::new();
    r.on_quick_trigger(QA_TOC, &mut ctx);
    let rows = 800 / 13;
    for _ in 0..99 {
        press(&mut r, Action::Next);
        assert!(r.toc_scroll <= r.toc_selected && r.toc_selected < r.toc_scroll + rows);
    }
    assert_eq!(r.toc_selected, 99);
    press(&mut r, Action::Next);
    assert_eq!((r.toc_selected, r.toc_scroll), (0, 0));
    press(&mut r, Action::Prev);
    assert_eq!(r.toc_selected, 99);
}

#[test]
fn a_reference_at_the_end_of_a_chunk_is_not_missed() {
    for len in [5usize, 126, 127, 128] {
        for back in [3, 120, 129, 130, 131, 257, 258] {
            let mut text = vec![b'x'; 8192 - back];
            text.extend_from_slice(&[1, b'I', len as u8]);
            text.extend_from_slice(&vec![b'p'; len - 4]);
            text.extend_from_slice(b".png");
            text.extend_from_slice(&[b'y'; 300]);
            let mut w = World::epub(vec![lines(3), lines(3), text]);
            let bm = bookmarks();
            let mut r = opened(b"B.EPUB", true);
            w.settle(&mut r, &bm);
            assert_eq!(w.images.get(&(len as u32)).map(|d| d.len()), Some(10));
        }
    }
}

#[test]
fn a_new_reader_has_no_pages() {
    let mut r = ReaderApp::new(SCREEN, M, ROOM);
    assert_eq!((r.pager.page, r.pager.total_pages), (0, 0));
    assert_eq!(r.pager.last_known_page(), 0);
    assert_eq!(r.state, State::NeedPage);
    open(&mut r, b"A.TXT", false);
    assert_eq!((r.pager.page, r.pager.total_pages), (0, 1));
}
