use ipfs_webdav::api::PeerEntry;
use ipfs_webdav::fs::{FsError, PeerFs, PeerProp};

fn seeded_fs() -> PeerFs {
    let mut fs = PeerFs::new();
    fs.read_dir(Some(vec![PeerEntry {
        path: "/f".to_string(),
        crtime: 1,
        mtime: 2,
        is_dir: false,
        size: 3,
    }]));
    fs
}

fn prop(ns: Option<&str>, name: &str, xml: Option<Vec<u8>>) -> PeerProp {
    PeerProp {
        name: name.to_string(),
        namespace: ns.map(|s| s.to_string()),
        prefix: None,
        xml,
    }
}

#[test]
fn have_props_is_always_true() {
    let fs = seeded_fs();
    assert!(fs.have_props("/anything"));
}

#[test]
fn set_then_get_prop_returns_payload() {
    let mut fs = seeded_fs();
    let res = fs
        .patch_props("/f", vec![(true, prop(Some("DAV:"), "displayname", Some(b"hello".to_vec())))])
        .unwrap();
    assert_eq!(res.len(), 1);
    assert!(res[0].0);
    assert_eq!(res[0].1.name, "displayname");
    assert_eq!(res[0].1.xml, None);
    let xml = fs.get_prop("/f", prop(Some("DAV:"), "displayname", None)).unwrap();
    assert_eq!(xml, b"hello".to_vec());
}

#[test]
fn get_props_strips_or_keeps_payload() {
    let mut fs = seeded_fs();
    fs.patch_props("/f", vec![(true, prop(None, "a", Some(vec![1])))]).unwrap();
    let without = fs.get_props("/f", false).unwrap();
    assert_eq!(without.len(), 1);
    assert_eq!(without[0].xml, None);
    let with = fs.get_props("/f", true).unwrap();
    assert_eq!(with.len(), 1);
    assert_eq!(with[0].xml, Some(vec![1]));
}

#[test]
fn removing_a_never_set_property_reports_success() {
    let mut fs = seeded_fs();
    let res = fs.patch_props("/f", vec![(false, prop(None, "ghostly", None))]).unwrap();
    assert_eq!(res.len(), 1);
    assert!(res[0].0);
    assert_eq!(fs.get_props("/f", true).unwrap().len(), 0);
}

#[test]
fn set_then_remove_property_round_trip() {
    let mut fs = seeded_fs();
    fs.patch_props("/f", vec![(true, prop(None, "a", Some(vec![1])))]).unwrap();
    assert_eq!(fs.get_props("/f", true).unwrap().len(), 1);
    fs.patch_props("/f", vec![(false, prop(None, "a", None))]).unwrap();
    assert_eq!(fs.get_props("/f", true).unwrap().len(), 0);
    assert!(matches!(fs.get_prop("/f", prop(None, "a", None)), Err(FsError::NotFound)));
}

#[test]
fn setting_same_key_twice_overwrites() {
    let mut fs = seeded_fs();
    fs.patch_props(
        "/f",
        vec![
            (true, prop(Some("ns"), "a", Some(vec![1]))),
            (true, prop(Some("ns"), "a", Some(vec![2]))),
        ],
    )
    .unwrap();
    assert_eq!(fs.get_props("/f", true).unwrap().len(), 1);
    assert_eq!(fs.get_prop("/f", prop(Some("ns"), "a", None)).unwrap(), vec![2]);
}

#[test]
fn props_of_uncached_path_are_not_found() {
    let mut fs = seeded_fs();
    assert!(matches!(fs.get_props("/missing", true), Err(FsError::NotFound)));
    assert!(matches!(
        fs.patch_props("/missing", vec![(true, prop(None, "a", None))]),
        Err(FsError::NotFound)
    ));
    assert!(matches!(fs.get_prop("/missing", prop(None, "a", None)), Err(FsError::NotFound)));
}

#[test]
fn prop_without_payload_is_not_found() {
    let mut fs = seeded_fs();
    fs.patch_props("/f", vec![(true, prop(None, "a", None))]).unwrap();
    assert!(matches!(fs.get_prop("/f", prop(None, "a", None)), Err(FsError::NotFound)));
}
