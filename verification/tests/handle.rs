use pulp_os::kernel::bookmarks::BookmarkCache;
use pulp_os::kernel::handle::{
    contains_word, map_read_err, map_write_err, Kernel, KernelHandle, Place, StorageError,
    StorageOp,
};

fn kernel() -> Kernel {
    Kernel { bm_cache: BookmarkCache::new(), sd_ok: false, cached_battery_mv: 3700 }
}

#[test]
fn words_inside_a_message() {
    assert!(contains_word("open file failed", "open file"));
    assert!(contains_word("abc", ""));
    assert!(!contains_word("ab", "abc"));
    assert!(contains_word("aab", "ab"));
}

#[test]
fn state_is_reached_through_the_handle() {
    let mut k = kernel();
    {
        let mut h = KernelHandle::new(&mut k);
        assert_eq!(h.battery_mv(), 3700);
        assert!(!h.sd_ok());
        assert!(h.check_sd(true));
        assert!(h.sd_ok());
        h.bookmark_cache_mut().ensure_loaded(None);
        h.bookmark_cache_mut().save(b"A", 1, 2, 3);
        assert!(h.bookmark_cache().is_dirty());
    }
    assert!(k.sd_ok);
    assert_eq!(k.bm_cache.find(b"A", 1).unwrap().byte_offset, 2);
}

#[test]
fn calls_carry_their_arguments() {
    let mut k = kernel();
    let h = KernelHandle::new(&mut k);
    let c = h.sync_read_chunk(b"A.TXT", 100, 20);
    assert!(matches!(c.place, Place::Root));
    assert_eq!(c.name, b"A.TXT".to_vec());
    assert!(matches!(c.op, StorageOp::ReadChunk { offset: 100, len: 20 }));
    let c = h.sync_write_app_subdir(b"DIR", b"F", b"data");
    assert!(matches!(&c.place, Place::AppSubdir(d) if d == b"DIR"));
    assert!(matches!(&c.op, StorageOp::Write(d) if d == b"data"));
    let c = h.sync_append_app_subdir(b"DIR", b"F", b"more");
    assert!(matches!(&c.op, StorageOp::Append(d) if d == b"more"));
    assert!(matches!(h.sync_file_size(b"X").op, StorageOp::FileSize));
    assert!(matches!(h.sync_read_file_start(b"X", 9).op, StorageOp::ReadStart { len: 9 }));
    let c = h.sync_read_app_data_start(b"S", 512);
    assert!(matches!(c.place, Place::AppData));
    assert!(matches!(c.op, StorageOp::ReadStart { len: 512 }));
    assert!(matches!(&h.sync_write_app_data(b"S", b"t").op, StorageOp::Write(d) if d == b"t"));
    assert!(matches!(h.sync_ensure_app_subdir(b"D").op, StorageOp::EnsureDir));
    let c = h.sync_file_size_app_subdir(b"D", b"F");
    assert!(matches!(&c.place, Place::AppSubdir(d) if d == b"D"));
    let c = h.sync_read_app_subdir_chunk(b"D", b"F", 7, 8);
    assert!(matches!(c.op, StorageOp::ReadChunk { offset: 7, len: 8 }));
    assert!(matches!(&h.sync_save_title(b"F", b"T").op, StorageOp::SaveTitle(t) if t == b"T"));
}

#[test]
fn read_errors() {
    assert_eq!(map_read_err("open volume failed"), StorageError::OpenVolume);
    assert_eq!(map_read_err("open dir failed"), StorageError::OpenDir);
    assert_eq!(map_read_err("open file failed"), StorageError::OpenFile);
    assert_eq!(map_read_err("seek failed"), StorageError::SeekFailed);
    assert_eq!(map_read_err("anything"), StorageError::ReadFailed);
    assert_eq!(map_read_err(""), StorageError::ReadFailed);
}

#[test]
fn write_errors() {
    assert_eq!(map_write_err("volume dir"), StorageError::OpenVolume);
    assert_eq!(map_write_err("open dir failed"), StorageError::OpenDir);
    assert_eq!(map_write_err("make dir failed"), StorageError::WriteFailed);
    assert_eq!(map_write_err("open file failed"), StorageError::OpenFile);
    assert_eq!(map_write_err("create failed"), StorageError::OpenFile);
    assert_eq!(map_write_err("no"), StorageError::WriteFailed);
}

#[test]
fn errors_by_call() {
    let mut k = kernel();
    let h = KernelHandle::new(&mut k);
    assert_eq!(h.sync_file_size(b"A").error("seek"), StorageError::SeekFailed);
    assert_eq!(h.sync_write_app_data(b"A", b"").error("create"), StorageError::OpenFile);
    let mut delete = h.sync_file_size(b"A");
    delete.op = StorageOp::Delete;
    assert_eq!(delete.error("open volume"), StorageError::DeleteFailed);
}

#[test]
fn error_texts() {
    assert_eq!(StorageError::OpenVolume.text(), "open volume failed");
    assert_eq!(StorageError::OpenDir.text(), "open dir failed");
    assert_eq!(StorageError::OpenFile.text(), "open file failed");
    assert_eq!(StorageError::ReadFailed.text(), "read failed");
    assert_eq!(StorageError::WriteFailed.text(), "write failed");
    assert_eq!(StorageError::SeekFailed.text(), "seek failed");
    assert_eq!(StorageError::DeleteFailed.text(), "delete failed");
    assert_eq!(StorageError::DirFull.text(), "directory full");
    assert_eq!(StorageError::NotFound.text(), "not found");
}

#[test]
fn calls_that_wait() {
    let mut k = kernel();
    let h = KernelHandle::new(&mut k);
    assert!(matches!(h.file_size(b"A").op, StorageOp::FileSize));
    let c = h.read_file_chunk(b"A", 3, 4);
    assert!(matches!(c.op, StorageOp::ReadChunk { offset: 3, len: 4 }));
    assert!(matches!(h.read_file_start(b"A", 5).op, StorageOp::ReadStart { len: 5 }));
    assert!(matches!(&h.write_file(b"A", b"x").op, StorageOp::Write(d) if d == b"x"));
    let c = h.delete_file(b"A");
    assert!(matches!((&c.place, &c.op), (Place::Root, StorageOp::Delete)));
    let c = h.ensure_app_dir();
    assert!(matches!((&c.place, &c.op), (Place::AppData, StorageOp::EnsureDir)));
    assert!(matches!(h.read_app_data_start(b"A", 6).place, Place::AppData));
    let c = h.read_app_data(b"A", 7, 8);
    assert!(matches!(c.op, StorageOp::ReadChunk { offset: 7, len: 8 }));
    assert!(matches!(&h.write_app_data(b"A", b"y").op, StorageOp::Write(d) if d == b"y"));
    assert!(matches!(&h.ensure_app_subdir(b"D").place, Place::AppSubdir(d) if d == b"D"));
    let c = h.read_app_subdir(b"D", b"A", 1, 2);
    assert!(matches!(c.op, StorageOp::ReadChunk { offset: 1, len: 2 }));
    assert!(matches!(&h.write_app_subdir(b"D", b"A", b"z").op, StorageOp::Write(d) if d == b"z"));
    assert!(matches!(&h.append_app_subdir(b"D", b"A", b"w").op, StorageOp::Append(d) if d == b"w"));
    assert!(matches!(h.file_size_app_subdir(b"D", b"A").op, StorageOp::FileSize));
    assert!(matches!(h.delete_app_subdir(b"D", b"A").op, StorageOp::Delete));
    let c = h.read_chunk_in_dir(b"SUB", b"A", 9, 10);
    assert!(matches!(&c.place, Place::Dir(d) if d == b"SUB"));
}
