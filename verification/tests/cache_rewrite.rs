use ipfs_webdav::api::PeerEntry;
use ipfs_webdav::cache::Cache;
use ipfs_webdav::fs::{FsError, PeerNode};

fn file_entry(path: &str, size: usize) -> PeerEntry {
    PeerEntry { path: path.to_string(), crtime: 1, mtime: 2, is_dir: false, size }
}

fn file_node(path: &str, size: usize) -> PeerNode {
    PeerNode::from_api_entry(&file_entry(path, size))
}

fn node_size(n: &PeerNode) -> usize {
    match n.as_file() {
        Ok(f) => f.size,
        Err(_) => panic!("expected a file node"),
    }
}

#[test]
fn cache_insert_get_remove() {
    let mut c = Cache::new();
    assert!(matches!(c.get("/x"), Err(FsError::NotFound)));
    c.insert("/x", file_node("/x", 3));
    assert!(c.contains("/x"));
    assert_eq!(node_size(&c.get("/x").unwrap()), 3);
    c.remove("/x");
    assert!(!c.contains("/x"));
}

#[test]
fn cache_keys_are_normalized() {
    let mut c = Cache::new();
    c.insert("/x/", file_node("/x", 3));
    assert!(c.contains("/x"));
    assert_eq!(node_size(&c.get("/x").unwrap()), 3);
    c.remove("/x/");
    assert!(!c.contains("/x"));
}

#[test]
fn move_values_rewrites_prefix_without_spurious_match() {
    let mut c = Cache::new();
    c.insert("/a", file_node("/a", 1));
    c.insert("/a/b", file_node("/a/b", 2));
    c.insert("/ab", file_node("/ab", 3));
    c.mv_vals("/a", "/z");
    assert!(c.contains("/z"));
    assert!(c.contains("/z/b"));
    assert!(c.contains("/ab"));
    assert!(!c.contains("/a"));
    assert!(!c.contains("/a/b"));
    assert_eq!(node_size(&c.get("/z").unwrap()), 1);
    assert_eq!(node_size(&c.get("/z/b").unwrap()), 2);
    assert_eq!(node_size(&c.get("/ab").unwrap()), 3);
}

#[test]
fn move_values_overwrites_colliding_target() {
    let mut c = Cache::new();
    c.insert("/a", file_node("/a", 1));
    c.insert("/b", file_node("/b", 9));
    c.mv_vals("/a", "/b");
    assert!(!c.contains("/a"));
    assert_eq!(node_size(&c.get("/b").unwrap()), 1);
}

#[test]
fn copy_values_keeps_both_trees() {
    let mut c = Cache::new();
    c.insert("/a", file_node("/a", 1));
    c.insert("/a/b", file_node("/a/b", 2));
    c.cp_vals("/a", "/z");
    for key in ["/a", "/a/b", "/z", "/z/b"] {
        assert!(c.contains(key), "missing {key}");
    }
    assert_eq!(node_size(&c.get("/a").unwrap()), node_size(&c.get("/z").unwrap()));
    assert_eq!(node_size(&c.get("/a/b").unwrap()), node_size(&c.get("/z/b").unwrap()));
}

#[test]
fn copied_trees_are_independently_removable() {
    let mut c = Cache::new();
    c.insert("/a", file_node("/a", 1));
    c.insert("/a/b", file_node("/a/b", 2));
    c.cp_vals("/a", "/z");
    c.remove("/z/b");
    assert!(c.contains("/a/b"));
    assert!(!c.contains("/z/b"));
    c.remove("/a");
    assert!(c.contains("/z"));
}
