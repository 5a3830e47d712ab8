use pulp_os::kernel::bookmarks::{
    BmListEntry, BookmarkCache, BookmarkSlot, BOOKMARK_FILE, FILENAME_CAP, FILE_LEN, RECORD_LEN,
    SLOTS,
};

fn loaded() -> BookmarkCache {
    let mut c = BookmarkCache::new();
    c.ensure_loaded(None);
    c
}

fn slot(name: &[u8], hash: u32, generation: u16) -> BookmarkSlot {
    let mut s = BookmarkSlot::empty();
    s.name_hash = hash;
    s.byte_offset = 0x0403_0201;
    s.chapter = 0x0605;
    s.valid = true;
    s.generation = generation;
    s.name_len = name.len() as u8;
    s.filename[..name.len()].copy_from_slice(name);
    s
}

fn names(c: &BookmarkCache) -> Vec<String> {
    let mut out = [BmListEntry::empty(); SLOTS];
    let n = c.load_all(&mut out);
    let mut all: Vec<String> = Vec::new();
    for e in out.iter().take(n) {
        all.push(e.filename_str().to_string());
    }
    all
}

#[test]
fn sizes_belong_together() {
    assert_eq!(BOOKMARK_FILE, "BKMK.BIN");
    assert_eq!(SLOTS * RECORD_LEN, FILE_LEN);
    assert_eq!(FILENAME_CAP, 32);
}

#[test]
fn record_has_the_documented_layout() {
    let rec = slot(b"A.TXT", 0xDDCC_BBAA, 0x0807).encode();
    assert_eq!(&rec[0..4], &[0xAA, 0xBB, 0xCC, 0xDD]);
    assert_eq!(&rec[4..8], &[1, 2, 3, 4]);
    assert_eq!(&rec[8..10], &[5, 6]);
    assert_eq!(&rec[10..12], &[1, 0]);
    assert_eq!(&rec[12..14], &[7, 8]);
    assert_eq!(rec[14], 5);
    assert_eq!(rec[15], 0);
    assert_eq!(&rec[16..21], b"A.TXT");
    assert!(rec[21..].iter().all(|b| *b == 0));
}

#[test]
fn decoding_undoes_encoding() {
    let s = slot(b"BOOK.EPUB", 77, 12);
    let t = BookmarkSlot::decode(&s.encode());
    assert_eq!(t.name_hash, 77);
    assert_eq!(t.byte_offset, s.byte_offset);
    assert_eq!(t.chapter, s.chapter);
    assert!(t.valid);
    assert_eq!(t.generation, 12);
    assert_eq!(t.filename_str(), "BOOK.EPUB");
}

#[test]
fn short_record_is_an_empty_slot() {
    let t = BookmarkSlot::decode(&[0xFF; 47]);
    assert!(!t.valid);
    assert_eq!(t.name_hash, 0);
    assert_eq!(t.name_len, 0);
}

#[test]
fn decoding_cuts_long_names_and_reads_the_valid_bit_only() {
    let mut rec = [b'x'; 48];
    rec[10] = 2;
    rec[11] = 0;
    rec[14] = 200;
    let t = BookmarkSlot::decode(&rec);
    assert!(!t.valid);
    assert_eq!(t.name_len, 32);
    rec[10] = 3;
    assert!(BookmarkSlot::decode(&rec).valid);
}

#[test]
fn name_that_is_not_text_is_a_question_mark() {
    let s = slot(&[0xFF, 0xFE], 1, 1);
    assert_eq!(s.filename_str(), "?");
    let mut e = BmListEntry::empty();
    e.filename[0] = 0xC0;
    e.name_len = 1;
    assert_eq!(e.filename_str(), "?");
}

#[test]
fn names_are_matched_without_case() {
    let s = slot(b"Book.txt", 1, 1);
    assert!(s.matches_name(b"BOOK.TXT"));
    assert!(!s.matches_name(b"BOOK.TX"));
    assert!(!s.matches_name(b"BOOK.TXU"));
}

#[test]
fn nothing_works_before_loading() {
    let mut c = BookmarkCache::new();
    c.save(b"A", 1, 10, 2);
    assert!(!c.is_dirty());
    assert!(!c.is_loaded());
    assert!(c.find(b"A", 1).is_none());
    assert!(c.flush().is_none());
    let mut out = [BmListEntry::empty(); 4];
    assert_eq!(c.load_all(&mut out), 0);
}

#[test]
fn what_was_saved_is_found() {
    let mut c = loaded();
    c.save(b"A.TXT", 5, 1234, 3);
    assert!(c.is_dirty());
    let s = c.find(b"a.txt", 5).unwrap();
    assert_eq!((s.byte_offset, s.chapter, s.generation), (1234, 3, 1));
    assert!(c.find(b"a.txt", 6).is_none());
    assert!(c.find(b"b.txt", 5).is_none());
}

#[test]
fn saving_again_replaces_and_keeps_others() {
    let mut c = loaded();
    c.save(b"A", 1, 10, 0);
    c.save(b"B", 2, 20, 0);
    c.save(b"A", 1, 11, 4);
    assert_eq!(c.find(b"A", 1).unwrap().byte_offset, 11);
    assert_eq!(c.find(b"B", 2).unwrap().byte_offset, 20);
    assert_eq!(names(&c).len(), 2);
}

#[test]
fn long_names_are_cut_and_then_not_found_again() {
    let mut c = loaded();
    let name = [b'n'; 40];
    c.save(&name, 9, 1, 1);
    assert!(c.find(&name, 9).is_none());
    assert!(c.find(&name[..32], 9).is_some());
}

#[test]
fn oldest_makes_room() {
    let mut c = loaded();
    for i in 0..16u8 {
        c.save(&[b'a' + i], i as u32, i as u32 + 1, 0);
    }
    c.save(b"b", 1, 99, 0);
    c.save(b"z", 200, 7, 0);
    assert!(c.find(b"a", 0).is_none());
    assert_eq!(c.find(b"z", 200).unwrap().byte_offset, 7);
    assert_eq!(c.find(b"b", 1).unwrap().byte_offset, 99);
    for i in 2..16u8 {
        assert!(c.find(&[b'a' + i], i as u32).is_some());
    }
}

#[test]
fn listing_starts_with_the_newest() {
    let mut c = loaded();
    c.save(b"A", 1, 1, 0);
    c.save(b"B", 2, 1, 0);
    c.save(b"C", 3, 1, 0);
    assert_eq!(names(&c), vec!["C", "B", "A"]);
    let mut out = [BmListEntry::empty(); 2];
    assert_eq!(c.load_all(&mut out), 2);
    assert_eq!(out[0].filename_str(), "B");
    assert_eq!(out[1].filename_str(), "A");
}

#[test]
fn file_round_trip() {
    let mut c = loaded();
    c.save(b"A.TXT", 1, 100, 0);
    c.save(b"B.EPUB", 2, 200, 7);
    let bytes = c.flush().unwrap();
    assert_eq!(bytes.len(), 2 * RECORD_LEN);
    c.flush_done(false);
    assert!(c.is_dirty());
    c.flush_done(true);
    assert!(!c.is_dirty());
    assert!(c.flush().is_none());
    let mut d = BookmarkCache::new();
    d.force_load(Some(&bytes));
    assert_eq!(d.find(b"B.EPUB", 2).unwrap().chapter, 7);
    assert_eq!(names(&d), vec!["B.EPUB", "A.TXT"]);
    let mut again = d;
    again.ensure_loaded(None);
    assert!(again.find(b"A.TXT", 1).is_some());
}

#[test]
fn partial_records_in_the_file_do_not_count() {
    let mut c = loaded();
    c.save(b"A", 1, 1, 1);
    let mut bytes = c.flush().unwrap();
    bytes.extend_from_slice(&[1; 47]);
    let mut d = BookmarkCache::new();
    d.force_load(Some(&bytes));
    assert_eq!(names(&d), vec!["A"]);
}

#[test]
fn a_book_saved_again_is_the_one_used_last() {
    let mut c = loaded();
    c.save(b"A", 1, 1, 0);
    c.save(b"B", 2, 2, 0);
    c.save(b"C", 3, 3, 0);
    c.save(b"A", 1, 9, 0);
    assert_eq!(names(&c), vec!["A", "C", "B"]);
    assert_eq!(c.find(b"A", 1).unwrap().generation, 4);
    assert_eq!(c.find(b"A", 1).unwrap().byte_offset, 9);
    for i in 0..14u8 {
        c.save(&[b'a' + i, b'.'], 100 + i as u32, 0, 0);
    }
    assert!(c.find(b"B", 2).is_none());
    assert!(c.find(b"C", 3).is_some());
    assert!(c.find(b"A", 1).is_some());
}

#[test]
fn a_book_has_one_bookmark() {
    let mut c = loaded();
    for (name, key) in [(b"A.TXT", 1), (b"B.TXT", 2), (b"a.txt", 1), (b"A.txt", 1)] {
        c.save(name, key, 4, 5);
        assert!(c.is_dirty());
    }
    assert_eq!(names(&c), vec!["A.txt", "B.TXT"]);
    assert_eq!(c.flush().unwrap().len(), 2 * RECORD_LEN);
}

#[test]
fn slots_come_back_whole() {
    let mut c = loaded();
    c.save(b"A LONG NAME.TXT", 9, 1, 2);
    c.save(b"B", 8, 3, 4);
    let bytes = c.flush().unwrap();
    let mut d = BookmarkCache::new();
    d.force_load(Some(&bytes));
    for (name, key) in [(b"A LONG NAME.TXT".as_slice(), 9), (b"B".as_slice(), 8)] {
        let (s, t) = (c.find(name, key).unwrap(), d.find(name, key).unwrap());
        assert_eq!(s.filename, t.filename);
        assert_eq!(s.encode(), t.encode());
    }
}
