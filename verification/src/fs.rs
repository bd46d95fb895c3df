//! The filesystem adapter: node model, extended properties, the
//! per-operation decision logic over the metadata cache, and the open
//! file handle.
//!
//! Every function here is pure bookkeeping: where the original protocol
//! operation talks to the remote store, the outcome of that call is
//! passed in as a plain value (`bool` for fire-and-forget calls,
//! `Option` for calls whose result is used), and the contract says
//! exactly how the cache and the result depend on it.

use vstd::prelude::*;

use crate::api::PeerEntry;
use crate::cache::Cache;
use crate::cache::normalize_hash_spec;
use crate::strmap::StrMap;
use crate::strmap::DupView;
use crate::strmap::map_has_value;
use crate::strutil::find_last_slash;
use crate::strutil::last_slash_index;
use crate::strutil::lemma_last_slash_index;
use crate::strutil::lemma_strip_trailing_prefix;
use crate::strutil::str_eq;
use crate::strutil::strip_trailing;
use crate::strutil::strip_trailing_slashes;
use vstd::utf8::encode_utf8;

verus! {

/// The error taxonomy of the filesystem contract.
#[derive(Clone, Copy, Debug, PartialEq, Eq, Structural)]
pub enum FsError {
    /// The path is absent, in the cache or at the backend.
    NotFound,
    /// A create conflicts with an existing entry.
    Exists,
    /// The operation is not permitted for the entry's type.
    Forbidden,
    /// A seek moved before the start of the file.
    InvalidArgument,
    /// An uncategorized backend or transport failure.
    GeneralFailure,
}

/// The options a file is opened with.
#[derive(Clone, Copy, Debug)]
pub struct OpenOptions {
    pub read: bool,
    pub write: bool,
    pub append: bool,
    pub truncate: bool,
    pub create: bool,
    pub create_new: bool,
}

/// Where a seek is measured from.
#[derive(Clone, Copy, Debug)]
pub enum SeekPos {
    /// An absolute position.
    Start(u64),
    /// Relative to the current position.
    Current(i64),
    /// Relative to the known size.
    End(i64),
}

/// Mathematical view of one extended property.
pub ghost struct PropSpec {
    pub name: Seq<char>,
    pub namespace: Option<Seq<char>>,
    pub prefix: Option<Seq<char>>,
    pub xml: Option<Seq<u8>>,
}

/// An extended property: a named, optionally namespaced value attached to
/// a path, with an optional serialized payload.
pub struct PeerProp {
    pub name: String,
    pub namespace: Option<String>,
    pub prefix: Option<String>,
    pub xml: Option<Vec<u8>>,
}

/// The view of an optional string.
pub open spec fn view_opt_str(o: Option<String>) -> Option<Seq<char>> {
    match o {
        Some(s) => Some(s@),
        None => None,
    }
}

impl View for PeerProp {
    type V = PropSpec;

    open spec fn view(&self) -> PropSpec {
        PropSpec {
            name: self.name@,
            namespace: view_opt_str(self.namespace),
            prefix: view_opt_str(self.prefix),
            xml: match self.xml {
                Some(v) => Some(v@),
                None => None,
            },
        }
    }
}

/// A byte-for-byte copy of `v`.
pub fn clone_bytes(v: &Vec<u8>) -> (r: Vec<u8>)
    ensures
        r@ == v@,
{
    let mut r: Vec<u8> = Vec::new();
    let mut i: usize = 0;
    while i < v.len()
        invariant
            i <= v@.len(),
            r@ == v@.take(i as int),
        decreases v@.len() - i,
    {
        r.push(v[i]);
        proof {
            assert(v@.take(i + 1) =~= v@.take(i as int).push(v@[i as int]));
        }
        i = i + 1;
    }
    proof {
        assert(v@.take(v@.len() as int) =~= v@);
    }
    r
}

fn clone_opt_string(o: &Option<String>) -> (r: Option<String>)
    ensures
        view_opt_str(r) == view_opt_str(*o),
{
    match o {
        Some(s) => Some(s.clone()),
        None => None,
    }
}

/// A property with the same view as `p`.
pub fn clone_prop_full(p: &PeerProp) -> (r: PeerProp)
    ensures
        r@ == p@,
{
    PeerProp {
        name: p.name.clone(),
        namespace: clone_opt_string(&p.namespace),
        prefix: clone_opt_string(&p.prefix),
        xml: match &p.xml {
            Some(v) => Some(clone_bytes(v)),
            None => None,
        },
    }
}

impl DupView for PeerProp {
    fn dup(&self) -> (r: Self) {
        clone_prop_full(self)
    }
}

/// `p` with its payload dropped.
pub open spec fn strip_xml(p: PropSpec) -> PropSpec {
    PropSpec { xml: None, ..p }
}

/// A copy of `p` without its payload.
pub fn clone_prop(p: &PeerProp) -> (r: PeerProp)
    ensures
        r@ == strip_xml(p@),
{
    PeerProp {
        name: p.name.clone(),
        namespace: clone_opt_string(&p.namespace),
        prefix: clone_opt_string(&p.prefix),
        xml: None,
    }
}

/// The composite key a property is stored under: its namespace, if any,
/// concatenated with its name.
pub open spec fn prop_key_spec(ns: Option<Seq<char>>, name: Seq<char>) -> Seq<char> {
    match ns {
        Some(s) => s + name,
        None => name,
    }
}

/// Compose the storage key of a property from namespace and name.
pub fn prop_key(ns: &Option<String>, name: &str) -> (r: String)
    ensures
        r@ == prop_key_spec(view_opt_str(*ns), name@),
{
    match ns {
        Some(s) => s.clone().concat(name),
        None => name.to_owned(),
    }
}

/// Mathematical view of one cached node.
pub ghost struct NodeSpec {
    pub is_dir: bool,
    pub crtime: u64,
    pub mtime: u64,
    pub size: nat,
    pub props: Map<Seq<char>, PropSpec>,
}

/// Metadata of a cached directory.
pub struct PeerDirNode {
    pub mtime: u64,
    pub crtime: u64,
    pub props: StrMap<PeerProp>,
}

/// Metadata of a cached file.
pub struct PeerFileNode {
    pub mtime: u64,
    pub crtime: u64,
    pub props: StrMap<PeerProp>,
    pub size: usize,
}

/// A cached node: the last known state of one path.
pub enum PeerNode {
    Dir(PeerDirNode),
    File(PeerFileNode),
}

impl View for PeerNode {
    type V = NodeSpec;

    open spec fn view(&self) -> NodeSpec {
        match self {
            PeerNode::Dir(d) => NodeSpec {
                is_dir: true,
                crtime: d.crtime,
                mtime: d.mtime,
                size: 0,
                props: d.props@,
            },
            PeerNode::File(f) => NodeSpec {
                is_dir: false,
                crtime: f.crtime,
                mtime: f.mtime,
                size: f.size as nat,
                props: f.props@,
            },
        }
    }
}

impl DupView for PeerNode {
    fn dup(&self) -> (r: Self) {
        match self {
            PeerNode::Dir(d) => PeerNode::Dir(
                PeerDirNode { mtime: d.mtime, crtime: d.crtime, props: d.props.dup() },
            ),
            PeerNode::File(f) => PeerNode::File(
                PeerFileNode {
                    mtime: f.mtime,
                    crtime: f.crtime,
                    props: f.props.dup(),
                    size: f.size,
                },
            ),
        }
    }
}

/// The node a raw remote entry converts to: no properties yet, and a size
/// only for files.
pub open spec fn node_spec_of_entry(e: PeerEntry) -> NodeSpec {
    NodeSpec {
        is_dir: e.is_dir,
        crtime: e.crtime,
        mtime: e.mtime,
        size: if e.is_dir {
            0
        } else {
            e.size as nat
        },
        props: Map::empty(),
    }
}

/// A directory entry or metadata snapshot handed to the protocol layer.
pub struct PeerFsEntry {
    pub mtime: u64,
    pub crtime: u64,
    pub is_dir: bool,
    pub name: Vec<u8>,
    pub size: usize,
}

/// The last path segment of `path` (trailing slashes ignored); the root's
/// name is `"/"` itself.
pub open spec fn file_name_chars(path: Seq<char>) -> Seq<char> {
    let t = strip_trailing_slashes(path);
    if t.len() == 0 || t == seq!['/'] {
        seq!['/']
    } else {
        t.skip(last_slash_index(t) + 1)
    }
}

fn slash_string() -> (r: String)
    ensures
        r@ == seq!['/'],
{
    let s = String::from_str("/");
    proof {
        reveal_strlit("/");
        assert("/"@ =~= seq!['/']);
    }
    s
}

/// The last path segment of `path`, as an owned string.
pub fn file_name_str(path: &str) -> (r: String)
    ensures
        r@ == file_name_chars(path@),
{
    let t = strip_trailing(path);
    let n = t.as_str().unicode_len();
    if n == 0 {
        return slash_string();
    }
    if n == 1 && t.as_str().get_char(0) == '/' {
        proof {
            assert(t@ =~= seq!['/']);
        }
        return slash_string();
    }
    proof {
        assert(t@ != seq!['/']);
        lemma_last_slash_index(t@);
    }
    match find_last_slash(t.as_str()) {
        Some(i) => {
            let sub = t.as_str().substring_char(i + 1, n);
            proof {
                assert(t@.subrange(i + 1, n as int) =~= t@.skip(i + 1));
            }
            sub.to_owned()
        },
        None => {
            proof {
                assert(t@.skip(0) =~= t@);
            }
            t
        },
    }
}

/// The parent of an absolute path: the path up to the last separator of
/// its trailing-slash-stripped form, itself stripped of trailing slashes;
/// the parent of a first-level entry is the root.
pub open spec fn parent_path_spec(p: Seq<char>) -> Seq<char> {
    let t = strip_trailing_slashes(p);
    let i = last_slash_index(t);
    if i <= 0 {
        seq!['/']
    } else {
        strip_trailing_slashes(t.take(i))
    }
}

/// Compute the parent of an absolute, non-root path.
pub fn parent_path(path: &str) -> (r: String)
    requires
        path@.len() > 0,
        path@[0] == '/',
        strip_trailing_slashes(path@).len() > 1,
    ensures
        r@ == parent_path_spec(path@),
{
    let t = strip_trailing(path);
    proof {
        lemma_strip_trailing_prefix(path@);
        assert(t@[0] == path@[0]);
        lemma_last_slash_index(t@);
    }
    match find_last_slash(t.as_str()) {
        Some(i) => {
            if i == 0 {
                slash_string()
            } else {
                let head = t.as_str().substring_char(0, i);
                proof {
                    assert(t@.subrange(0, i as int) =~= t@.take(i as int));
                }
                strip_trailing(head)
            }
        },
        None => {
            proof {
                lemma_last_slash_index(t@);
                assert(t@[0] != '/');
            }
            slash_string()
        },
    }
}

impl PeerNode {
    /// The node a raw remote entry converts to.
    pub fn from_api_entry(entry: &PeerEntry) -> (r: PeerNode)
        ensures
            r@ == node_spec_of_entry(*entry),
    {
        if entry.is_dir {
            PeerNode::Dir(
                PeerDirNode { crtime: entry.crtime, mtime: entry.mtime, props: StrMap::new() },
            )
        } else {
            PeerNode::File(
                PeerFileNode {
                    crtime: entry.crtime,
                    mtime: entry.mtime,
                    props: StrMap::new(),
                    size: entry.size,
                },
            )
        }
    }

    /// The file node an open handle flushes into the cache.
    pub fn from_fs_file(file: &PeerFsFile) -> (r: PeerNode)
        ensures
            r@ == node_spec_of_file(*file),
    {
        PeerNode::File(
            PeerFileNode {
                crtime: file.crtime,
                mtime: file.mtime,
                props: StrMap::new(),
                size: file.size,
            },
        )
    }

    /// The protocol-facing snapshot of this node, named after the last
    /// segment of `path`.
    pub fn to_entry(&self, path: &str) -> (r: PeerFsEntry)
        ensures
            entry_of_node(r, self@, path@),
    {
        let name = file_name_str(path).as_str().as_bytes_vec();
        match self {
            PeerNode::Dir(d) => PeerFsEntry {
                mtime: d.mtime,
                crtime: d.crtime,
                is_dir: true,
                name,
                size: 0,
            },
            PeerNode::File(f) => PeerFsEntry {
                mtime: f.mtime,
                crtime: f.crtime,
                is_dir: false,
                name,
                size: f.size,
            },
        }
    }

    /// Whether the node is a directory.
    pub fn is_dir(&self) -> (r: bool)
        ensures
            r == self@.is_dir,
    {
        match self {
            PeerNode::Dir(_) => true,
            PeerNode::File(_) => false,
        }
    }

    /// The node as a file, or `Forbidden` if it is a directory.
    pub fn as_file(&self) -> (r: Result<&PeerFileNode, FsError>)
        ensures
            match r {
                Ok(f) => !self@.is_dir && f.size as nat == self@.size,
                Err(e) => self@.is_dir && e == FsError::Forbidden,
            },
    {
        match self {
            PeerNode::File(f) => Ok(f),
            PeerNode::Dir(_) => Err(FsError::Forbidden),
        }
    }

    /// The node's extended properties.
    pub fn props(&self) -> (r: &StrMap<PeerProp>)
        ensures
            r@ == self@.props,
    {
        match self {
            PeerNode::Dir(d) => &d.props,
            PeerNode::File(f) => &f.props,
        }
    }

    /// Set the property stored under `key`.
    pub fn insert_prop(&mut self, key: String, p: PeerProp)
        ensures
            final(self)@ == (NodeSpec { props: old(self)@.props.insert(key@, p@), ..old(self)@ }),
    {
        match self {
            PeerNode::Dir(d) => d.props.insert(key, p),
            PeerNode::File(f) => f.props.insert(key, p),
        }
    }

    /// Clear the property stored under `key`, if any.
    pub fn remove_prop(&mut self, key: &String)
        ensures
            final(self)@ == (NodeSpec { props: old(self)@.props.remove(key@), ..old(self)@ }),
    {
        match self {
            PeerNode::Dir(d) => d.props.remove(key),
            PeerNode::File(f) => f.props.remove(key),
        }
    }
}

/// The node an open handle describes when it is flushed: a file of the
/// handle's size and times, with no properties.
pub open spec fn node_spec_of_file(file: PeerFsFile) -> NodeSpec {
    NodeSpec {
        is_dir: false,
        crtime: file.crtime,
        mtime: file.mtime,
        size: file.size as nat,
        props: Map::empty(),
    }
}

/// `r` is the protocol-facing snapshot of node `n` at `path`.
pub open spec fn entry_of_node(r: PeerFsEntry, n: NodeSpec, path: Seq<char>) -> bool {
    &&& r.is_dir == n.is_dir
    &&& r.size as nat == n.size
    &&& r.mtime == n.mtime
    &&& r.crtime == n.crtime
    &&& r.name@ == encode_utf8(file_name_chars(path))
}

impl PeerFsEntry {
    /// The entry's name: the last segment of its path, as bytes.
    pub fn name(&self) -> (r: Vec<u8>)
        ensures
            r@ == self.name@,
    {
        clone_bytes(&self.name)
    }

    /// A metadata snapshot equal to the entry itself.
    pub fn metadata(&self) -> (r: PeerFsEntry)
        ensures
            r.mtime == self.mtime,
            r.crtime == self.crtime,
            r.is_dir == self.is_dir,
            r.name@ == self.name@,
            r.size == self.size,
    {
        PeerFsEntry {
            mtime: self.mtime,
            crtime: self.crtime,
            is_dir: self.is_dir,
            name: clone_bytes(&self.name),
            size: self.size,
        }
    }

    /// Byte length of the entry.
    pub fn len(&self) -> (r: u64)
        ensures
            r == self.size as u64,
    {
        self.size as u64
    }

    /// Modification time, in milliseconds since the epoch.
    pub fn modified(&self) -> (r: u64)
        ensures
            r == self.mtime,
    {
        self.mtime
    }

    /// Whether the entry is a directory.
    pub fn is_dir(&self) -> (r: bool)
        ensures
            r == self.is_dir,
    {
        self.is_dir
    }

    /// Creation time, in milliseconds since the epoch.
    pub fn created(&self) -> (r: u64)
        ensures
            r == self.crtime,
    {
        self.crtime
    }
}

/// An open file handle: per-open state, not synchronized with other
/// handles on the same path.
pub struct PeerFsFile {
    pub path: String,
    pub crtime: u64,
    pub mtime: u64,
    pub pos: usize,
    pub size: usize,
    pub append: bool,
    pub truncate: bool,
}

/// `h` is the handle `do_open` returns for `path` with `options`, when the
/// known size is `size`.
pub open spec fn opened_handle(
    h: PeerFsFile,
    path: Seq<char>,
    options: OpenOptions,
    now: u64,
    size: nat,
) -> bool {
    &&& h.path@ == path
    &&& h.crtime == now
    &&& h.mtime == now
    &&& h.pos == 0
    &&& h.size as nat == size
    &&& h.append == options.append
    &&& h.truncate == options.truncate
}

/// The cache after the entries of one directory listing are inserted, in
/// order, each keyed by its own (normalized) path.
pub open spec fn cache_after_entries(
    m: Map<Seq<char>, NodeSpec>,
    es: Seq<PeerEntry>,
    n: int,
) -> Map<Seq<char>, NodeSpec>
    decreases n,
{
    if n <= 0 {
        m
    } else {
        cache_after_entries(m, es, n - 1).insert(
            normalize_hash_spec(es[n - 1].path@),
            node_spec_of_entry(es[n - 1]),
        )
    }
}

/// A node's property map after one list of property changes is applied in
/// order: a set inserts by the composite key, a clear removes by it.
pub open spec fn apply_patch(
    m: Map<Seq<char>, PropSpec>,
    s: Seq<(bool, PeerProp)>,
) -> Map<Seq<char>, PropSpec>
    decreases s.len(),
{
    if s.len() == 0 {
        m
    } else {
        let prev = apply_patch(m, s.drop_last());
        let p = s.last().1;
        if s.last().0 {
            prev.insert(prop_key_spec(p@.namespace, p@.name), p@)
        } else {
            prev.remove(prop_key_spec(p@.namespace, p@.name))
        }
    }
}

/// `p` is the value of some entry of `pm`, with the payload kept or
/// dropped as `do_content` says.
pub open spec fn prop_returned(
    pm: Map<Seq<char>, PropSpec>,
    p: PropSpec,
    do_content: bool,
) -> bool {
    exists|k: Seq<char>|
        #[trigger] pm.contains_key(k) && p == (if do_content {
            pm[k]
        } else {
            strip_xml(pm[k])
        })
}

/// The filesystem adapter: the decision logic of each protocol operation
/// against the metadata cache. The caller performs the remote call an
/// operation needs and hands its outcome in.
pub struct PeerFs {
    pub cache: Cache,
}

impl PeerFs {
    /// A fresh adapter with an empty cache.
    pub fn new() -> (r: PeerFs)
        ensures
            r.cache@ == Map::<Seq<char>, NodeSpec>::empty(),
    {
        PeerFs { cache: Cache::new() }
    }

    /// Decide an open call against the cache alone: fail `Exists` when the
    /// path is cached and `create_new` is set, `Forbidden` when it is a
    /// cached directory, `NotFound` when it is uncached and `create` is
    /// not set; otherwise hand out a handle at position zero, seeded with
    /// the cached size (zero when creating) and stamped `now`.
    pub fn do_open(&self, path: &str, options: OpenOptions, now: u64) -> (r: Result<
        PeerFsFile,
        FsError,
    >)
        ensures
            ({
                let key = normalize_hash_spec(path@);
                if self.cache@.contains_key(key) {
                    if options.create_new {
                        r == Err::<PeerFsFile, FsError>(FsError::Exists)
                    } else if self.cache@[key].is_dir {
                        r == Err::<PeerFsFile, FsError>(FsError::Forbidden)
                    } else {
                        r matches Ok(h) && opened_handle(
                            h,
                            path@,
                            options,
                            now,
                            self.cache@[key].size,
                        )
                    }
                } else {
                    if !options.create {
                        r == Err::<PeerFsFile, FsError>(FsError::NotFound)
                    } else {
                        r matches Ok(h) && opened_handle(h, path@, options, now, 0)
                    }
                }
            }),
    {
        match self.cache.get(path) {
            Ok(node) => {
                if options.create_new {
                    return Err(FsError::Exists);
                }
                if node.is_dir() {
                    return Err(FsError::Forbidden);
                }
                let size = match node.as_file() {
                    Ok(f) => f.size,
                    Err(e) => return Err(e),
                };
                Ok(
                    PeerFsFile {
                        path: path.to_owned(),
                        crtime: now,
                        mtime: now,
                        pos: 0,
                        size,
                        append: options.append,
                        truncate: options.truncate,
                    },
                )
            },
            Err(_) => {
                if !options.create {
                    return Err(FsError::NotFound);
                }
                Ok(
                    PeerFsFile {
                        path: path.to_owned(),
                        crtime: now,
                        mtime: now,
                        pos: 0,
                        size: 0,
                        append: options.append,
                        truncate: options.truncate,
                    },
                )
            },
        }
    }

    /// Record a directory listing: `entries` is what the remote list call
    /// returned, or `None` when it failed. Every listed entry is converted
    /// and cached under its own path; a failed listing yields an empty
    /// result and leaves the cache as it stands.
    #[verifier::loop_isolation(false)]
    pub fn read_dir(&mut self, entries: Option<Vec<PeerEntry>>) -> (r: Vec<PeerFsEntry>)
        ensures
            entries is None ==> final(self).cache@ == old(self).cache@ && r@.len() == 0,
            entries matches Some(es) ==> {
                &&& final(self).cache@ == cache_after_entries(
                    old(self).cache@,
                    es@,
                    es@.len() as int,
                )
                &&& r@.len() == es@.len()
                &&& forall|i: int|
                    0 <= i < es@.len() ==> entry_of_node(
                        #[trigger] r@[i],
                        node_spec_of_entry(es@[i]),
                        es@[i].path@,
                    )
            },
    {
        let mut r: Vec<PeerFsEntry> = Vec::new();
        match entries {
            None => r,
            Some(es) => {
                let mut i: usize = 0;
                while i < es.len()
                    invariant
                        i <= es@.len(),
                        r@.len() == i,
                        self.cache@ == cache_after_entries(old(self).cache@, es@, i as int),
                        forall|j: int|
                            0 <= j < i ==> entry_of_node(
                                #[trigger] r@[j],
                                node_spec_of_entry(es@[j]),
                                es@[j].path@,
                            ),
                    decreases es@.len() - i,
                {
                    let node = PeerNode::from_api_entry(&es[i]);
                    r.push(node.to_entry(es[i].path.as_str()));
                    self.cache.insert(es[i].path.as_str(), node);
                    i = i + 1;
                }
                r
            },
        }
    }

    /// Look a path's metadata up: served from the cache when it is there;
    /// otherwise `stat` is what the remote stat call returned (`None` when
    /// it failed or was not needed), which is cached before answering. A
    /// miss with no stat result is `NotFound`.
    pub fn metadata(&mut self, path: &str, stat: Option<PeerEntry>) -> (r: Result<
        PeerFsEntry,
        FsError,
    >)
        ensures
            ({
                let key = normalize_hash_spec(path@);
                if old(self).cache@.contains_key(key) {
                    &&& final(self).cache@ == old(self).cache@
                    &&& r matches Ok(en) && entry_of_node(en, old(self).cache@[key], path@)
                } else {
                    match stat {
                        Some(e) => {
                            &&& final(self).cache@ == old(self).cache@.insert(
                                key,
                                node_spec_of_entry(e),
                            )
                            &&& r matches Ok(en) && entry_of_node(en, node_spec_of_entry(e), path@)
                        },
                        None => {
                            &&& final(self).cache@ == old(self).cache@
                            &&& r == Err::<PeerFsEntry, FsError>(FsError::NotFound)
                        },
                    }
                }
            }),
    {
        if !self.cache.contains(path) {
            match stat {
                Some(entry) => {
                    self.cache.insert(path, PeerNode::from_api_entry(&entry));
                },
                None => {},
            }
        }
        match self.cache.get(path) {
            Ok(node) => Ok(node.to_entry(path)),
            Err(e) => Err(e),
        }
    }

    /// The checks a directory creation makes before any remote call:
    /// `Exists` when the path is already cached; then, unless the parent
    /// is the root, the parent must be cached (`NotFound` otherwise) and
    /// be a directory (`Forbidden` otherwise).
    pub fn create_dir_check(&self, path: &str) -> (r: Result<(), FsError>)
        requires
            path@.len() > 0,
            path@[0] == '/',
            strip_trailing_slashes(path@).len() > 1 || self.cache@.contains_key(
                normalize_hash_spec(path@),
            ),
        ensures
            ({
                let key = normalize_hash_spec(path@);
                let parent = parent_path_spec(path@);
                let pkey = normalize_hash_spec(parent);
                if self.cache@.contains_key(key) {
                    r == Err::<(), FsError>(FsError::Exists)
                } else if parent == seq!['/'] {
                    r == Ok::<(), FsError>(())
                } else if !self.cache@.contains_key(pkey) {
                    r == Err::<(), FsError>(FsError::NotFound)
                } else if !self.cache@[pkey].is_dir {
                    r == Err::<(), FsError>(FsError::Forbidden)
                } else {
                    r == Ok::<(), FsError>(())
                }
            }),
    {
        if self.cache.contains(path) {
            return Err(FsError::Exists);
        }
        let parent = parent_path(path);
        let root = slash_string();
        if !str_eq(parent.as_str(), root.as_str()) {
            match self.cache.get(parent.as_str()) {
                Err(e) => {
                    return Err(e);
                },
                Ok(n) => {
                    if !n.is_dir() {
                        return Err(FsError::Forbidden);
                    }
                },
            }
        }
        Ok(())
    }

    /// Record the outcome of the remote make-directory call: on success
    /// (`made` carries the entry the backend reported) the new directory
    /// is cached; a failure is swallowed and the cache left as it stands.
    pub fn create_dir_commit(&mut self, path: &str, made: Option<PeerEntry>) -> (r: Result<
        (),
        FsError,
    >)
        ensures
            r == Ok::<(), FsError>(()),
            match made {
                Some(e) => final(self).cache@ == old(self).cache@.insert(
                    normalize_hash_spec(path@),
                    node_spec_of_entry(e),
                ),
                None => final(self).cache@ == old(self).cache@,
            },
    {
        match made {
            Some(entry) => {
                self.cache.insert(path, PeerNode::from_api_entry(&entry));
            },
            None => {},
        }
        Ok(())
    }

    /// Record the outcome of a remote remove of a directory: the cache
    /// entry is dropped only when the backend call succeeded; the call
    /// reports success either way.
    pub fn remove_dir(&mut self, path: &str, removed: bool) -> (r: Result<(), FsError>)
        ensures
            r == Ok::<(), FsError>(()),
            removed ==> final(self).cache@ == old(self).cache@.remove(normalize_hash_spec(path@)),
            !removed ==> final(self).cache@ == old(self).cache@,
    {
        if removed {
            self.cache.remove(path);
        }
        Ok(())
    }

    /// Record the outcome of a remote remove of a file: the cache entry is
    /// dropped only when the backend call succeeded; the call reports
    /// success either way.
    pub fn remove_file(&mut self, path: &str, removed: bool) -> (r: Result<(), FsError>)
        ensures
            r == Ok::<(), FsError>(()),
            removed ==> final(self).cache@ == old(self).cache@.remove(normalize_hash_spec(path@)),
            !removed ==> final(self).cache@ == old(self).cache@,
    {
        if removed {
            self.cache.remove(path);
        }
        Ok(())
    }

    /// Record the outcome of a remote move: on success every cached key
    /// under `from` is rewritten onto `to`; the call reports success
    /// either way.
    pub fn rename(&mut self, from: &str, to: &str, moved: bool) -> (r: Result<(), FsError>)
        ensures
            r == Ok::<(), FsError>(()),
            moved ==> crate::strmap::map_moved(
                old(self).cache@,
                final(self).cache@,
                normalize_hash_spec(from@),
                normalize_hash_spec(to@),
            ),
            !moved ==> final(self).cache@ == old(self).cache@,
    {
        if moved {
            self.cache.mv_vals(from, to);
        }
        Ok(())
    }

    /// Record the outcome of a remote copy: on success every cached key
    /// under `from` is duplicated onto `to`; the call reports success
    /// either way.
    pub fn copy(&mut self, from: &str, to: &str, copied: bool) -> (r: Result<(), FsError>)
        ensures
            r == Ok::<(), FsError>(()),
            copied ==> crate::strmap::map_copied(
                old(self).cache@,
                final(self).cache@,
                normalize_hash_spec(from@),
                normalize_hash_spec(to@),
            ),
            !copied ==> final(self).cache@ == old(self).cache@,
    {
        if copied {
            self.cache.cp_vals(from, to);
        }
        Ok(())
    }

    /// Extended properties are always offered, for every path.
    pub fn have_props(&self, _path: &str) -> (r: bool)
        ensures
            r,
    {
        true
    }

    /// Apply a list of property changes to the cached node of `path`: a
    /// set inserts by the composite key, a clear removes by it and always
    /// reports success, even for a key that was never set. The patched
    /// node is written back; each change is answered with success and the
    /// property without its payload.
    #[verifier::loop_isolation(false)]
    pub fn patch_props(&mut self, path: &str, patch: Vec<(bool, PeerProp)>) -> (r: Result<
        Vec<(bool, PeerProp)>,
        FsError,
    >)
        ensures
            ({
                let key = normalize_hash_spec(path@);
                if !old(self).cache@.contains_key(key) {
                    &&& final(self).cache@ == old(self).cache@
                    &&& r == Err::<Vec<(bool, PeerProp)>, FsError>(FsError::NotFound)
                } else {
                    &&& final(self).cache@ == old(self).cache@.insert(
                        key,
                        (NodeSpec {
                            props: apply_patch(old(self).cache@[key].props, patch@),
                            ..old(self).cache@[key]
                        }),
                    )
                    &&& r matches Ok(res) && res@.len() == patch@.len() && (forall|i: int|
                        0 <= i < patch@.len() ==> (#[trigger] res@[i]).0 == true && res@[i].1@
                            == strip_xml(patch@[i].1@))
                }
            }),
    {
        let mut node = match self.cache.get(path) {
            Ok(n) => n,
            Err(e) => {
                return Err(e);
            },
        };
        let ghost props0 = node@.props;
        let ghost node0 = node@;
        let mut res: Vec<(bool, PeerProp)> = Vec::new();
        let mut i: usize = 0;
        while i < patch.len()
            invariant
                i <= patch@.len(),
                res@.len() == i,
                node@ == (NodeSpec { props: apply_patch(props0, patch@.take(i as int)), ..node0 }),
                forall|j: int|
                    0 <= j < i ==> (#[trigger] res@[j]).0 == true && res@[j].1@ == strip_xml(
                        patch@[j].1@,
                    ),
            decreases patch@.len() - i,
        {
            let set = patch[i].0;
            let prop = clone_prop(&patch[i].1);
            let key = prop_key(&patch[i].1.namespace, patch[i].1.name.as_str());
            if set {
                let p = clone_prop_full(&patch[i].1);
                node.insert_prop(key, p);
            } else {
                node.remove_prop(&key);
            }
            res.push((true, prop));
            proof {
                assert(patch@.take(i + 1).drop_last() =~= patch@.take(i as int));
                assert(patch@.take(i + 1).last() == patch@[i as int]);
            }
            i = i + 1;
        }
        proof {
            assert(patch@.take(patch@.len() as int) =~= patch@);
        }
        self.cache.insert(path, node);
        Ok(res)
    }

    /// The properties of the cached node of `path`: each stored property
    /// exactly once, in no promised order, each with its payload kept or
    /// dropped as `do_content` says.
    #[verifier::loop_isolation(false)]
    pub fn get_props(&self, path: &str, do_content: bool) -> (r: Result<Vec<PeerProp>, FsError>)
        ensures
            ({
                let key = normalize_hash_spec(path@);
                if !self.cache@.contains_key(key) {
                    r == Err::<Vec<PeerProp>, FsError>(FsError::NotFound)
                } else {
                    let pm = self.cache@[key].props;
                    r matches Ok(v) && v@.len() == pm.dom().len() && (forall|i: int|
                        0 <= i < v@.len() ==> #[trigger] prop_returned(pm, v@[i]@, do_content)) && (
                    forall|k: Seq<char>|
                        #[trigger] pm.contains_key(k) ==> exists|i: int|
                            0 <= i < v@.len() && v@[i]@ == (if do_content {
                                pm[k]
                            } else {
                                strip_xml(pm[k])
                            }))
                }
            }),
    {
        let node = match self.cache.get(path) {
            Ok(n) => n,
            Err(e) => {
                return Err(e);
            },
        };
        let ghost pm = node@.props;
        let vals = node.props().values_dup();
        let mut r: Vec<PeerProp> = Vec::new();
        let mut i: usize = 0;
        while i < vals.len()
            invariant
                i <= vals@.len(),
                r@.len() == i,
                forall|j: int|
                    0 <= j < i ==> (#[trigger] r@[j])@ == (if do_content {
                        vals@[j]@
                    } else {
                        strip_xml(vals@[j]@)
                    }),
            decreases vals@.len() - i,
        {
            if do_content {
                r.push(vals[i].dup());
            } else {
                r.push(clone_prop(&vals[i]));
            }
            i = i + 1;
        }
        proof {
            assert forall|j: int| 0 <= j < r@.len() implies #[trigger] prop_returned(
                pm,
                r@[j]@,
                do_content,
            ) by {
                assert(map_has_value(pm, vals@[j]@));
                let k = choose|k: Seq<char>| #[trigger] pm.contains_key(k) && pm[k] == vals@[j]@;
                assert(pm.contains_key(k) && r@[j]@ == (if do_content {
                    pm[k]
                } else {
                    strip_xml(pm[k])
                }));
            }
            assert forall|k: Seq<char>| #[trigger] pm.contains_key(k) implies exists|i0: int|
                0 <= i0 < r@.len() && r@[i0]@ == (if do_content {
                    pm[k]
                } else {
                    strip_xml(pm[k])
                }) by {
                let i0 = choose|i0: int| 0 <= i0 < vals@.len() && vals@[i0]@ == pm[k];
                assert(r@[i0]@ == (if do_content {
                    pm[k]
                } else {
                    strip_xml(pm[k])
                }));
            }
        }
        Ok(r)
    }

    /// The payload of one property of the cached node of `path`, looked up
    /// by the composite key of `prop`: `NotFound` when the path is not
    /// cached, the property is not set, or it has no payload.
    pub fn get_prop(&self, path: &str, prop: PeerProp) -> (r: Result<Vec<u8>, FsError>)
        ensures
            ({
                let key = normalize_hash_spec(path@);
                let pk = prop_key_spec(prop@.namespace, prop@.name);
                if !self.cache@.contains_key(key) {
                    r == Err::<Vec<u8>, FsError>(FsError::NotFound)
                } else {
                    let pm = self.cache@[key].props;
                    if !pm.contains_key(pk) {
                        r == Err::<Vec<u8>, FsError>(FsError::NotFound)
                    } else {
                        match pm[pk].xml {
                            Some(x) => r matches Ok(v) && v@ == x,
                            None => r == Err::<Vec<u8>, FsError>(FsError::NotFound),
                        }
                    }
                }
            }),
    {
        let node = match self.cache.get(path) {
            Ok(n) => n,
            Err(e) => {
                return Err(e);
            },
        };
        let key = prop_key(&prop.namespace, prop.name.as_str());
        match node.props().get(&key) {
            None => Err(FsError::NotFound),
            Some(p) => match &p.xml {
                None => Err(FsError::NotFound),
                Some(x) => Ok(clone_bytes(x)),
            },
        }
    }
}

/// Map the outcome of a remote read to the caller: a failure is the one
/// operation of the handle whose error is propagated, as a general
/// failure.
pub fn finish_read(data: Option<Vec<u8>>) -> (r: Result<Vec<u8>, FsError>)
    ensures
        match data {
            Some(bytes) => r matches Ok(b) && b@ == bytes@,
            None => r == Err::<Vec<u8>, FsError>(FsError::GeneralFailure),
        },
{
    match data {
        Some(bytes) => Ok(bytes),
        None => Err(FsError::GeneralFailure),
    }
}

impl PeerFsFile {
    /// Account for one write of `len` bytes: in append mode the position
    /// first jumps to the known size; the write is issued at the resulting
    /// position, with the pending truncate flag; then size and position
    /// advance past the written bytes and the truncate flag is spent. The
    /// returned pair is the offset and truncate flag the remote write call
    /// takes.
    pub fn do_write(&mut self, len: usize) -> (r: (usize, bool))
        requires
            (if old(self).append {
                old(self).size as int
            } else {
                old(self).pos as int
            }) + len <= usize::MAX as int,
        ensures
            r.0 == (if old(self).append {
                old(self).size
            } else {
                old(self).pos
            }),
            r.1 == old(self).truncate,
            final(self).size == r.0 + len,
            final(self).pos == final(self).size,
            !final(self).truncate,
            final(self).path@ == old(self).path@,
            final(self).crtime == old(self).crtime,
            final(self).mtime == old(self).mtime,
            final(self).append == old(self).append,
    {
        if self.append {
            self.pos = self.size;
        }
        let offset = self.pos;
        let truncate = self.truncate;
        self.size = self.pos + len;
        self.pos = self.size;
        self.truncate = false;
        (offset, truncate)
    }

    /// Account for one read of `count` bytes: the read is issued at the
    /// current position (returned), and the position advances by the full
    /// requested count, whether or not the remote read returns that many
    /// bytes.
    pub fn start_read(&mut self, count: usize) -> (offset: usize)
        requires
            old(self).pos + count <= usize::MAX as int,
        ensures
            offset == old(self).pos,
            final(self).pos == old(self).pos + count,
            final(self).path@ == old(self).path@,
            final(self).crtime == old(self).crtime,
            final(self).mtime == old(self).mtime,
            final(self).size == old(self).size,
            final(self).append == old(self).append,
            final(self).truncate == old(self).truncate,
    {
        let offset = self.pos;
        self.pos = self.pos + count;
        offset
    }

    /// Move the position: absolute seeks set it outright; relative seeks
    /// (from the current position or from the known size) fail with
    /// `InvalidArgument` when a negative offset reaches before the start,
    /// and otherwise land on the computed position, past the end included.
    pub fn seek(&mut self, pos: SeekPos) -> (r: Result<u64, FsError>)
        requires
            match pos {
                SeekPos::Start(p) => p as int <= usize::MAX as int,
                SeekPos::Current(off) => old(self).pos as int + off as int <= usize::MAX as int,
                SeekPos::End(off) => old(self).size as int + off as int <= usize::MAX as int,
            },
        ensures
            match pos {
                SeekPos::Start(p) => r == Ok::<u64, FsError>(p) && *final(self) == (PeerFsFile {
                    pos: p as usize,
                    ..*old(self)
                }),
                SeekPos::Current(off) => seek_outcome(
                    old(self).pos as int,
                    off as int,
                    *old(self),
                    *final(self),
                    r,
                ),
                SeekPos::End(off) => seek_outcome(
                    old(self).size as int,
                    off as int,
                    *old(self),
                    *final(self),
                    r,
                ),
            },
    {
        match pos {
            SeekPos::Start(p) => {
                self.pos = p as usize;
                Ok(p)
            },
            SeekPos::Current(off) => {
                let base = self.pos;
                self.seek_from(base, off)
            },
            SeekPos::End(off) => {
                let base = self.size;
                self.seek_from(base, off)
            },
        }
    }

    /// Land `off` away from `base`, refusing to move before the start.
    fn seek_from(&mut self, base: usize, off: i64) -> (r: Result<u64, FsError>)
        requires
            base as int + off as int <= usize::MAX as int,
        ensures
            seek_outcome(base as int, off as int, *old(self), *final(self), r),
    {
        if off < 0 {
            let mag: u64 = if off == i64::MIN {
                9223372036854775808u64
            } else {
                (-off) as u64
            };
            if mag > base as u64 {
                return Err(FsError::InvalidArgument);
            }
            self.pos = (base as u64 - mag) as usize;
            Ok(self.pos as u64)
        } else {
            self.pos = base + (off as usize);
            Ok(self.pos as u64)
        }
    }

    /// Record the outcome of the remote flush: on success a file node with
    /// the handle's size and times replaces whatever the cache holds for
    /// the handle's path; a failure is swallowed and the cache left as it
    /// stands.
    pub fn flush(&self, fs: &mut PeerFs, flushed: bool) -> (r: Result<(), FsError>)
        ensures
            r == Ok::<(), FsError>(()),
            flushed ==> final(fs).cache@ == old(fs).cache@.insert(
                normalize_hash_spec(self.path@),
                node_spec_of_file(*self),
            ),
            !flushed ==> final(fs).cache@ == old(fs).cache@,
    {
        if flushed {
            fs.cache.insert(self.path.as_str(), PeerNode::from_fs_file(self));
        }
        Ok(())
    }

    /// The metadata the cache currently holds for the handle's path; it
    /// can lag behind the handle's own state until a flush.
    pub fn metadata(&self, fs: &PeerFs) -> (r: Result<PeerFsEntry, FsError>)
        ensures
            ({
                let key = normalize_hash_spec(self.path@);
                if fs.cache@.contains_key(key) {
                    r matches Ok(en) && entry_of_node(en, fs.cache@[key], self.path@)
                } else {
                    r == Err::<PeerFsEntry, FsError>(FsError::NotFound)
                }
            }),
    {
        match fs.cache.get(self.path.as_str()) {
            Ok(node) => Ok(node.to_entry(self.path.as_str())),
            Err(e) => Err(e),
        }
    }
}

/// The outcome of a relative seek from `base` by `off`: before-the-start
/// is refused with `InvalidArgument` and nothing moves; otherwise the
/// position lands on `base + off`.
pub open spec fn seek_outcome(
    base: int,
    off: int,
    old_h: PeerFsFile,
    new_h: PeerFsFile,
    r: Result<u64, FsError>,
) -> bool {
    if off < 0 && -off > base {
        r == Err::<u64, FsError>(FsError::InvalidArgument) && new_h == old_h
    } else {
        r == Ok::<u64, FsError>((base + off) as u64) && new_h == (PeerFsFile {
            pos: (base + off) as usize,
            ..old_h
        })
    }
}

} // verus!


