//! The metadata cache: a mirror of remote node metadata keyed by
//! normalized path strings.
//!
//! Absence of a key means "unknown", not "does not exist"; presence means
//! "last known state". Keys are normalized on every access by stripping
//! one trailing slash, except that the root `"/"` keeps its slash.
//! Renames and copies of whole subtrees rewrite every key under the moved
//! prefix.

use vstd::prelude::*;

use crate::fs::FsError;
use crate::fs::NodeSpec;
use crate::fs::PeerNode;
use crate::strmap::DupView;
use crate::strmap::StrMap;
use crate::strmap::map_copied;
use crate::strmap::map_moved;
use crate::strmap::slashed;

verus! {

/// What [`normalize_hash`] returns: `p` with one trailing slash removed,
/// unless `p` is the root (or a single character).
pub open spec fn normalize_hash_spec(p: Seq<char>) -> Seq<char> {
    if p.len() > 1 && p.last() == '/' {
        p.drop_last()
    } else {
        p
    }
}

/// Strip a single trailing slash from a cache key, keeping the root `"/"`
/// as it is.
pub fn normalize_hash(hash: &str) -> (r: String)
    ensures
        r@ == normalize_hash_spec(hash@),
{
    let n = hash.unicode_len();
    if n > 1 && hash.get_char(n - 1) == '/' {
        let sub = hash.substring_char(0, n - 1);
        proof {
            assert(hash@.subrange(0, n - 1) =~= hash@.drop_last());
        }
        sub.to_owned()
    } else {
        hash.to_owned()
    }
}

/// Append a trailing slash to a cache key unless it already ends in one.
pub fn add_slash(hash: &str) -> (r: String)
    ensures
        r@ == slashed(hash@),
{
    let n = hash.unicode_len();
    if n > 0 && hash.get_char(n - 1) == '/' {
        hash.to_owned()
    } else {
        let r = hash.to_owned().concat("/");
        proof {
            reveal_strlit("/");
            assert("/"@ =~= seq!['/']);
        }
        r
    }
}

/// The in-memory mirror of remote node metadata, keyed by normalized path.
pub struct Cache {
    map: StrMap<PeerNode>,
}

impl View for Cache {
    type V = Map<Seq<char>, NodeSpec>;

    closed spec fn view(&self) -> Map<Seq<char>, NodeSpec> {
        self.map@
    }
}

impl Cache {
    /// An empty cache.
    pub fn new() -> (r: Cache)
        ensures
            r@ == Map::<Seq<char>, NodeSpec>::empty(),
    {
        Cache { map: StrMap::new() }
    }

    /// Whether the normalized key is cached.
    pub fn contains(&self, hash: &str) -> (r: bool)
        ensures
            r == self@.contains_key(normalize_hash_spec(hash@)),
    {
        let h = normalize_hash(hash);
        self.map.contains_key(&h)
    }

    /// The cached node under the normalized key, or `NotFound`.
    pub fn get(&self, hash: &str) -> (r: Result<PeerNode, FsError>)
        ensures
            match r {
                Ok(n) => self@.contains_key(normalize_hash_spec(hash@)) && n@ == self@[
                    normalize_hash_spec(hash@)
                ],
                Err(e) => !self@.contains_key(normalize_hash_spec(hash@)) && e
                    == FsError::NotFound,
            },
    {
        let h = normalize_hash(hash);
        match self.map.get(&h) {
            Some(n) => Ok(n.dup()),
            None => Err(FsError::NotFound),
        }
    }

    /// Cache `node` under the normalized key, replacing any previous node.
    pub fn insert(&mut self, hash: &str, node: PeerNode)
        ensures
            final(self)@ == old(self)@.insert(normalize_hash_spec(hash@), node@),
    {
        let h = normalize_hash(hash);
        self.map.insert(h, node);
    }

    /// Drop the normalized key from the cache, if present.
    pub fn remove(&mut self, hash: &str)
        ensures
            final(self)@ == old(self)@.remove(normalize_hash_spec(hash@)),
    {
        let h = normalize_hash(hash);
        self.map.remove(&h);
    }

    /// Relocate every entry whose key equals the normalized `from`, or lies
    /// under it across a separator, onto the normalized `to`: the key's
    /// prefix is replaced, the relative suffix and the value are kept.
    pub fn mv_vals(&mut self, from: &str, to: &str)
        ensures
            map_moved(
                old(self)@,
                final(self)@,
                normalize_hash_spec(from@),
                normalize_hash_spec(to@),
            ),
    {
        let f = normalize_hash(from);
        let t = normalize_hash(to);
        self.map.move_prefix(&f, &t);
    }

    /// Duplicate every entry whose key equals the normalized `from`, or
    /// lies under it across a separator, onto the normalized `to`: both
    /// trees exist afterwards, with equal values.
    pub fn cp_vals(&mut self, from: &str, to: &str)
        ensures
            map_copied(
                old(self)@,
                final(self)@,
                normalize_hash_spec(from@),
                normalize_hash_spec(to@),
            ),
    {
        let f = normalize_hash(from);
        let t = normalize_hash(to);
        self.map.copy_prefix(&f, &t);
    }
}

} // verus!
