use pulp_os::apps::files::TitleScanResult;
use pulp_os::apps::titles::{TitleAsk, TitleReply, TitleScan};

fn passed_over(idx: usize) -> TitleAsk {
    TitleAsk::Done(Some(TitleScanResult { next_idx: idx + 1, resolved: false }))
}

/// A look-up of book 4 that waits for its size.
fn named() -> TitleScan {
    let mut t = TitleScan::new();
    assert_eq!(t.scan_one_epub_title(2), TitleAsk::NextUntitled { from: 2 });
    let ask = t.resume(TitleReply::Untitled(Some((4, b"B.EPUB".to_vec()))));
    assert_eq!(ask, TitleAsk::FileSize);
    t
}

/// One that waits for the directory of the archive: 10 bytes from 900 on.
fn placed() -> TitleScan {
    let mut t = named();
    let ask = t.resume(TitleReply::Size(Ok(1000)));
    assert_eq!(ask, TitleAsk::ReadFile { offset: 488, len: 512 });
    assert_eq!(t.resume(TitleReply::Bytes(Ok(vec![7; 512]))), TitleAsk::ParseTail);
    assert_eq!(t.scratch.len(), 512);
    assert_eq!(t.resume(TitleReply::Directory(Ok((900, 10)))), TitleAsk::Room { len: 10 });
    t
}

/// One that waits for the place of the package document.
fn parsed() -> TitleScan {
    let mut t = placed();
    assert_eq!(t.resume(TitleReply::Flag(true)), TitleAsk::ReadFile { offset: 900, len: 10 });
    let ask = t.resume(TitleReply::Bytes(Ok(vec![1, 2, 3, 4])));
    assert_eq!(ask, TitleAsk::ReadFile { offset: 904, len: 6 });
    let ask = t.resume(TitleReply::Bytes(Ok(vec![5; 6])));
    assert_eq!(ask, TitleAsk::ParseDirectory);
    assert_eq!(t.scratch, vec![1, 2, 3, 4, 5, 5, 5, 5, 5, 5]);
    assert_eq!(t.resume(TitleReply::Outcome(Ok(()))), TitleAsk::FindContainer);
    t
}

#[test]
fn a_title_is_found() {
    let mut t = parsed();
    assert_eq!(t.name, b"B.EPUB".to_vec());
    assert_eq!(t.resume(TitleReply::Entry(Some(1))), TitleAsk::ContainerPath { idx: 1 });
    let ask = t.resume(TitleReply::Bytes(Ok(b"OEBPS/sub/content.opf".to_vec())));
    assert_eq!(ask, TitleAsk::FindEntry { icase: false });
    assert_eq!(t.opf_dir(), b"OEBPS/sub");
    assert_eq!(t.resume(TitleReply::Entry(None)), TitleAsk::FindEntry { icase: true });
    assert_eq!(t.resume(TitleReply::Entry(Some(6))), TitleAsk::ReadTitle { idx: 6 });
    let ask = t.resume(TitleReply::Bytes(Ok(b"The Title".to_vec())));
    assert_eq!(ask, TitleAsk::SaveTitle { idx: 4 });
    assert_eq!(t.scratch, b"The Title".to_vec());
    let done = t.resume(TitleReply::Outcome(Err("write failed")));
    assert_eq!(done, TitleAsk::Done(Some(TitleScanResult { next_idx: 5, resolved: true })));
    assert_eq!(t.error, None);
}

#[test]
fn without_a_container_the_archive_is_searched() {
    let mut t = parsed();
    assert_eq!(t.resume(TitleReply::Entry(None)), TitleAsk::ScanForOpf);
    let ask = t.resume(TitleReply::Bytes(Ok(b"content.opf".to_vec())));
    assert_eq!(ask, TitleAsk::FindEntry { icase: false });
    assert_eq!(t.opf_dir(), b"");
}

#[test]
fn no_book_is_left() {
    let mut t = TitleScan::new();
    t.scan_one_epub_title(9);
    assert_eq!(t.resume(TitleReply::Untitled(None)), TitleAsk::Done(None));
}

#[test]
fn a_name_that_is_not_text_is_empty() {
    let mut t = TitleScan::new();
    t.scan_one_epub_title(0);
    t.resume(TitleReply::Untitled(Some((0, vec![0xFF]))));
    assert!(t.name.is_empty());
}

#[test]
fn small_file() {
    let mut t = named();
    assert_eq!(t.resume(TitleReply::Size(Ok(21))), passed_over(4));
    assert_eq!(t.error, Some("too small"));
    let mut t = named();
    let ask = t.resume(TitleReply::Size(Ok(22)));
    assert_eq!(ask, TitleAsk::ReadFile { offset: 0, len: 22 });
}

#[test]
fn errors_of_storage_and_archive() {
    let mut t = named();
    assert_eq!(t.resume(TitleReply::Size(Err("open file failed"))), passed_over(4));
    assert_eq!(t.error, Some("open file failed"));
    let mut t = named();
    t.resume(TitleReply::Size(Ok(1000)));
    t.resume(TitleReply::Bytes(Ok(vec![0; 512])));
    assert_eq!(t.resume(TitleReply::Directory(Err("no EOCD"))), passed_over(4));
    assert_eq!(t.error, Some("no EOCD"));
}

#[test]
fn directory_too_large_or_cut_off() {
    let mut t = placed();
    assert_eq!(t.resume(TitleReply::Flag(false)), passed_over(4));
    assert_eq!(t.error, Some("CD too large"));
    let mut t = placed();
    t.resume(TitleReply::Flag(true));
    assert_eq!(t.resume(TitleReply::Bytes(Ok(vec![]))), passed_over(4));
    assert_eq!(t.error, Some("CD truncated"));
}

#[test]
fn an_empty_directory_is_not_read() {
    let mut t = named();
    t.resume(TitleReply::Size(Ok(1000)));
    t.resume(TitleReply::Bytes(Ok(vec![0; 512])));
    t.resume(TitleReply::Directory(Ok((900, 0))));
    assert_eq!(t.resume(TitleReply::Flag(true)), TitleAsk::ParseDirectory);
}

#[test]
fn package_document_missing_or_without_title() {
    let mut t = parsed();
    t.resume(TitleReply::Entry(None));
    assert_eq!(t.resume(TitleReply::Bytes(Ok(vec![0xC3]))), passed_over(4));
    assert_eq!(t.error, Some("bad OPF path"));
    let mut t = parsed();
    t.resume(TitleReply::Entry(None));
    t.resume(TitleReply::Bytes(Ok(b"c.opf".to_vec())));
    t.resume(TitleReply::Entry(None));
    assert_eq!(t.resume(TitleReply::Entry(None)), passed_over(4));
    assert_eq!(t.error, Some("OPF not found"));
    let mut t = parsed();
    t.resume(TitleReply::Entry(None));
    t.resume(TitleReply::Bytes(Ok(b"c.opf".to_vec())));
    t.resume(TitleReply::Entry(Some(0)));
    assert_eq!(t.resume(TitleReply::Bytes(Ok(vec![]))), passed_over(4));
    assert_eq!(t.error, Some("no title in OPF"));
}
