//! The raw-entry model of the remote store and the path helpers used
//! when talking to it.
//!
//! A [`PeerEntry`] is the plain snapshot the remote namespace reports for
//! one path: where it lives, when it was made and changed (milliseconds
//! since the epoch, as supplied by the caller), whether it is a
//! directory, and its size.

use vstd::prelude::*;

verus! {

/// A remote namespace entity snapshot.
pub struct PeerEntry {
    /// Absolute path of the entity.
    pub path: String,
    /// Creation time, in milliseconds since the epoch.
    pub crtime: u64,
    /// Modification time, in milliseconds since the epoch.
    pub mtime: u64,
    /// Whether the entity is a directory.
    pub is_dir: bool,
    /// Size of the entity in bytes.
    pub size: usize,
}

impl PeerEntry {
    /// A fresh directory entry at `path`, stamped with the caller's clock
    /// reading `now`.
    pub fn new_dir(path: &str, now: u64) -> (e: PeerEntry)
        ensures
            e.path@ == path@,
            e.crtime == now,
            e.mtime == now,
            e.is_dir,
            e.size == 0,
    {
        PeerEntry { path: path.to_owned(), crtime: now, mtime: now, is_dir: true, size: 0 }
    }
}

/// What [`normalize_path`] returns: `p` with one trailing slash removed,
/// unless `p` is the root (or a single character).
pub open spec fn normalize_path_spec(p: Seq<char>) -> Seq<char> {
    if p.len() > 1 && p.last() == '/' {
        p.drop_last()
    } else {
        p
    }
}

/// Strip a single trailing slash, keeping the root `"/"` as it is.
pub fn normalize_path(path: &str) -> (r: String)
    ensures
        r@ == normalize_path_spec(path@),
{
    let n = path.unicode_len();
    if n > 1 && path.get_char(n - 1) == '/' {
        let sub = path.substring_char(0, n - 1);
        proof {
            assert(path@.subrange(0, n - 1) =~= path@.drop_last());
        }
        sub.to_owned()
    } else {
        path.to_owned()
    }
}

/// What [`concat_path`] returns: `p2` if it is absolute, otherwise `p1`
/// and `p2` joined with exactly one separator between them.
pub open spec fn concat_path_spec(p1: Seq<char>, p2: Seq<char>) -> Seq<char> {
    if p2.len() > 0 && p2[0] == '/' {
        p2
    } else if p1.len() == 0 {
        p2
    } else if p1.last() == '/' {
        p1 + p2
    } else {
        p1 + seq!['/'] + p2
    }
}

/// Join a directory path and a child name.
pub fn concat_path(p1: &str, p2: &str) -> (r: String)
    ensures
        r@ == concat_path_spec(p1@, p2@),
{
    let n2 = p2.unicode_len();
    if n2 > 0 && p2.get_char(0) == '/' {
        return p2.to_owned();
    }
    let n1 = p1.unicode_len();
    if n1 == 0 {
        return p2.to_owned();
    }
    if p1.get_char(n1 - 1) == '/' {
        p1.to_owned().concat(p2)
    } else {
        let joined = p1.to_owned().concat("/").concat(p2);
        proof {
            reveal_strlit("/");
            assert("/"@ =~= seq!['/']);
        }
        joined
    }
}

} // verus!
