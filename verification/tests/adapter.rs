use ipfs_webdav::api::PeerEntry;
use ipfs_webdav::fs::{FsError, PeerFs};

fn entry(path: &str, is_dir: bool, size: usize) -> PeerEntry {
    PeerEntry { path: path.to_string(), crtime: 10, mtime: 20, is_dir, size }
}

#[test]
fn listing_fills_cache_and_metadata_needs_no_backend() {
    let mut fs = PeerFs::new();
    let listed = fs.read_dir(Some(vec![entry("/dir/f", false, 10)]));
    assert_eq!(listed.len(), 1);
    assert_eq!(listed[0].name(), b"f".to_vec());
    assert_eq!(listed[0].len(), 10);
    assert!(!listed[0].is_dir());
    assert!(fs.cache.contains("/dir/f"));
    let meta = fs.metadata("/dir/f", None).unwrap();
    assert_eq!(meta.len(), 10);
    assert!(!meta.is_dir());
    assert_eq!(meta.modified(), 20);
    assert_eq!(meta.created(), 10);
}

#[test]
fn failed_listing_is_empty_and_changes_nothing() {
    let mut fs = PeerFs::new();
    let listed = fs.read_dir(None);
    assert_eq!(listed.len(), 0);
    assert!(!fs.cache.contains("/dir"));
}

#[test]
fn metadata_miss_caches_stat_result() {
    let mut fs = PeerFs::new();
    let meta = fs.metadata("/f", Some(entry("/f", false, 4))).unwrap();
    assert_eq!(meta.len(), 4);
    assert!(fs.cache.contains("/f"));
    assert!(matches!(fs.metadata("/missing", None), Err(FsError::NotFound)));
}

#[test]
fn rename_moves_cached_subtree() {
    let mut fs = PeerFs::new();
    fs.read_dir(Some(vec![entry("/dir", true, 0), entry("/dir/f", false, 10)]));
    fs.rename("/dir", "/dir2", true).unwrap();
    assert!(matches!(fs.metadata("/dir/f", None), Err(FsError::NotFound)));
    let meta = fs.metadata("/dir2/f", None).unwrap();
    assert_eq!(meta.len(), 10);
    assert_eq!(meta.modified(), 20);
    assert_eq!(meta.created(), 10);
    assert!(!meta.is_dir());
    assert_eq!(meta.name(), b"f".to_vec());
}

#[test]
fn failed_rename_reports_success_and_keeps_cache() {
    let mut fs = PeerFs::new();
    fs.read_dir(Some(vec![entry("/dir/f", false, 10)]));
    fs.rename("/dir", "/dir2", false).unwrap();
    assert!(fs.cache.contains("/dir/f"));
    assert!(!fs.cache.contains("/dir2/f"));
}

#[test]
fn copy_duplicates_cached_subtree() {
    let mut fs = PeerFs::new();
    fs.read_dir(Some(vec![entry("/a", true, 0), entry("/a/b", false, 2)]));
    fs.copy("/a", "/z", true).unwrap();
    assert_eq!(fs.metadata("/a/b", None).unwrap().len(), 2);
    assert_eq!(fs.metadata("/z/b", None).unwrap().len(), 2);
}

#[test]
fn create_dir_check_matrix() {
    let mut fs = PeerFs::new();
    fs.read_dir(Some(vec![entry("/dir", true, 0), entry("/file", false, 1)]));
    assert!(matches!(fs.create_dir_check("/dir"), Err(FsError::Exists)));
    assert!(fs.create_dir_check("/new").is_ok());
    assert!(fs.create_dir_check("/dir/new").is_ok());
    assert!(matches!(fs.create_dir_check("/file/new"), Err(FsError::Forbidden)));
    assert!(matches!(fs.create_dir_check("/nowhere/new"), Err(FsError::NotFound)));
}

#[test]
fn create_dir_commit_caches_only_on_success() {
    let mut fs = PeerFs::new();
    fs.create_dir_commit("/new", Some(entry("/new", true, 0))).unwrap();
    assert!(fs.metadata("/new", None).unwrap().is_dir());
    fs.create_dir_commit("/other", None).unwrap();
    assert!(!fs.cache.contains("/other"));
}

#[test]
fn remove_drops_cache_entry_only_on_success() {
    let mut fs = PeerFs::new();
    fs.read_dir(Some(vec![entry("/dir", true, 0), entry("/f", false, 1)]));
    fs.remove_file("/f", false).unwrap();
    assert!(fs.cache.contains("/f"));
    fs.remove_file("/f", true).unwrap();
    assert!(!fs.cache.contains("/f"));
    fs.remove_dir("/dir", true).unwrap();
    assert!(!fs.cache.contains("/dir"));
}

#[test]
fn entry_views_report_their_fields() {
    let mut fs = PeerFs::new();
    let listed = fs.read_dir(Some(vec![entry("/dir", true, 0)]));
    let meta = listed[0].metadata();
    assert!(meta.is_dir());
    assert_eq!(meta.len(), 0);
    assert_eq!(meta.name(), b"dir".to_vec());
    assert_eq!(meta.modified(), 20);
    assert_eq!(meta.created(), 10);
}
