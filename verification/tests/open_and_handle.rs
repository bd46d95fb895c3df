use ipfs_webdav::api::PeerEntry;
use ipfs_webdav::fs::{finish_read, FsError, OpenOptions, PeerFs, PeerNode, SeekPos};

fn plain_options() -> OpenOptions {
    OpenOptions {
        read: true,
        write: false,
        append: false,
        truncate: false,
        create: false,
        create_new: false,
    }
}

fn seeded_fs() -> PeerFs {
    let mut fs = PeerFs::new();
    fs.cache.insert(
        "/existing-dir",
        PeerNode::from_api_entry(&PeerEntry {
            path: "/existing-dir".to_string(),
            crtime: 1,
            mtime: 2,
            is_dir: true,
            size: 0,
        }),
    );
    fs.cache.insert(
        "/existing-file",
        PeerNode::from_api_entry(&PeerEntry {
            path: "/existing-file".to_string(),
            crtime: 1,
            mtime: 2,
            is_dir: false,
            size: 5,
        }),
    );
    fs
}

#[test]
fn open_missing_without_create_is_not_found() {
    let fs = seeded_fs();
    let r = fs.do_open("/missing", plain_options(), 7);
    assert!(matches!(r, Err(FsError::NotFound)));
}

#[test]
fn open_missing_with_create_has_size_zero() {
    let fs = seeded_fs();
    let mut o = plain_options();
    o.create = true;
    let h = fs.do_open("/missing", o, 7).unwrap();
    assert_eq!(h.size, 0);
    assert_eq!(h.pos, 0);
    assert_eq!(h.path, "/missing");
}

#[test]
fn open_directory_is_forbidden() {
    let fs = seeded_fs();
    let r = fs.do_open("/existing-dir", plain_options(), 7);
    assert!(matches!(r, Err(FsError::Forbidden)));
}

#[test]
fn open_existing_with_create_new_is_exists() {
    let fs = seeded_fs();
    let mut o = plain_options();
    o.create = true;
    o.create_new = true;
    let r = fs.do_open("/existing-file", o, 7);
    assert!(matches!(r, Err(FsError::Exists)));
}

#[test]
fn open_existing_file_seeds_cached_size() {
    let fs = seeded_fs();
    let h = fs.do_open("/existing-file", plain_options(), 7).unwrap();
    assert_eq!(h.size, 5);
    assert_eq!(h.pos, 0);
    assert_eq!(h.crtime, 7);
    assert_eq!(h.mtime, 7);
}

#[test]
fn write_advances_size_and_position() {
    let fs = seeded_fs();
    let mut h = fs.do_open("/existing-file", plain_options(), 7).unwrap();
    h.seek(SeekPos::Start(3)).unwrap();
    let (offset, _) = h.do_write(4);
    assert_eq!(offset, 3);
    assert_eq!(h.size, 3 + 4);
    assert_eq!(h.pos, h.size);
}

#[test]
fn append_write_starts_at_known_size() {
    let fs = seeded_fs();
    let mut o = plain_options();
    o.append = true;
    let mut h = fs.do_open("/existing-file", o, 7).unwrap();
    let (offset, _) = h.do_write(2);
    assert_eq!(offset, 5);
    assert_eq!(h.size, 7);
    assert_eq!(h.pos, 7);
}

#[test]
fn only_first_write_truncates() {
    let fs = seeded_fs();
    let mut o = plain_options();
    o.truncate = true;
    let mut h = fs.do_open("/existing-file", o, 7).unwrap();
    let (_, truncate_first) = h.do_write(2);
    let (_, truncate_second) = h.do_write(2);
    assert!(truncate_first);
    assert!(!truncate_second);
}

#[test]
fn seek_before_start_is_invalid_argument() {
    let fs = seeded_fs();
    let mut h = fs.do_open("/existing-file", plain_options(), 7).unwrap();
    h.seek(SeekPos::Start(3)).unwrap();
    let r = h.seek(SeekPos::Current(-5));
    assert!(matches!(r, Err(FsError::InvalidArgument)));
    assert_eq!(h.pos, 3);
}

#[test]
fn seek_within_bounds_moves_position() {
    let fs = seeded_fs();
    let mut h = fs.do_open("/existing-file", plain_options(), 7).unwrap();
    h.seek(SeekPos::Start(3)).unwrap();
    assert_eq!(h.seek(SeekPos::Current(-2)).unwrap(), 1);
    assert_eq!(h.pos, 1);
    assert_eq!(h.seek(SeekPos::End(2)).unwrap(), 7);
    assert_eq!(h.pos, 7);
    assert_eq!(h.seek(SeekPos::End(-5)).unwrap(), 0);
    assert_eq!(h.seek(SeekPos::Start(11)).unwrap(), 11);
    assert_eq!(h.pos, 11);
}

#[test]
fn read_advances_by_requested_count() {
    let fs = seeded_fs();
    let mut h = fs.do_open("/existing-file", plain_options(), 7).unwrap();
    let offset = h.start_read(4);
    assert_eq!(offset, 0);
    assert_eq!(h.pos, 4);
    let offset = h.start_read(4);
    assert_eq!(offset, 4);
    assert_eq!(h.pos, 8);
}

#[test]
fn failed_read_is_general_failure() {
    assert_eq!(finish_read(Some(vec![1, 2, 3])).unwrap(), vec![1, 2, 3]);
    assert!(matches!(finish_read(None), Err(FsError::GeneralFailure)));
}

#[test]
fn flush_commits_handle_state_to_cache() {
    let mut fs = seeded_fs();
    let mut h = fs.do_open("/existing-file", plain_options(), 7).unwrap();
    h.do_write(10);
    let before = h.metadata(&fs).unwrap();
    assert_eq!(before.len(), 5);
    h.flush(&mut fs, false).unwrap();
    assert_eq!(h.metadata(&fs).unwrap().len(), 5);
    h.flush(&mut fs, true).unwrap();
    let after = h.metadata(&fs).unwrap();
    assert_eq!(after.len(), 10);
    assert!(!after.is_dir());
}
