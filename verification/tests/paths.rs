use ipfs_webdav::api::{concat_path, normalize_path};
use ipfs_webdav::cache::{add_slash, normalize_hash};
use ipfs_webdav::fs::{file_name_str, parent_path, prop_key};

#[test]
fn normalize_strips_one_trailing_slash() {
    assert_eq!(normalize_path("/a/"), "/a");
    assert_eq!(normalize_path("/a/b/"), "/a/b");
    assert_eq!(normalize_path("/a//"), "/a/");
}

#[test]
fn normalize_keeps_root() {
    assert_eq!(normalize_path("/"), "/");
}

#[test]
fn normalize_keeps_plain_paths() {
    assert_eq!(normalize_path("/a"), "/a");
    assert_eq!(normalize_path("abc"), "abc");
    assert_eq!(normalize_path(""), "");
}

#[test]
fn normalize_hash_keeps_root() {
    assert_eq!(normalize_hash("/"), "/");
    assert_eq!(normalize_hash("/a/"), "/a");
    assert_eq!(normalize_hash("/a"), "/a");
    assert_eq!(normalize_hash(""), "");
}

#[test]
fn add_slash_appends_once() {
    assert_eq!(add_slash(""), "/");
    assert_eq!(add_slash("/a"), "/a/");
    assert_eq!(add_slash("/a/"), "/a/");
}

#[test]
fn concat_path_joins_with_separator() {
    assert_eq!(concat_path("/d", "f"), "/d/f");
    assert_eq!(concat_path("/d/", "f"), "/d/f");
    assert_eq!(concat_path("/", "f"), "/f");
    assert_eq!(concat_path("", "f"), "f");
    assert_eq!(concat_path("/d", "/abs"), "/abs");
}

#[test]
fn parent_path_drops_last_segment() {
    assert_eq!(parent_path("/a/b"), "/a");
    assert_eq!(parent_path("/a"), "/");
    assert_eq!(parent_path("/a/b/"), "/a");
    assert_eq!(parent_path("/a/b/c"), "/a/b");
}

#[test]
fn file_name_is_last_segment() {
    assert_eq!(file_name_str("/a/b"), "b");
    assert_eq!(file_name_str("/a/b/"), "b");
    assert_eq!(file_name_str("/"), "/");
    assert_eq!(file_name_str("/a"), "a");
}

#[test]
fn prop_key_concatenates_namespace_and_name() {
    assert_eq!(prop_key(&Some("DAV:".to_string()), "displayname"), "DAV:displayname");
    assert_eq!(prop_key(&None, "displayname"), "displayname");
}
