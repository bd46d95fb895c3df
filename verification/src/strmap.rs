//! A verified map from strings to values, used for the metadata cache and
//! for a node's extended properties.
//!
//! The map is stored as a vector of key/value pairs with pairwise distinct
//! keys and is viewed as a `Map<Seq<char>, V::V>`. Besides the usual
//! operations it offers the two subtree rewrites a rename or copy of a
//! path prefix needs: every key equal to the prefix, or lying under it
//! with a `'/'` separator, is rebased onto a new prefix.

use vstd::prelude::*;

use crate::strutil::is_prefix_of;
use crate::strutil::str_eq;
use crate::strutil::str_starts_with;
use crate::strutil::str_suffix;

verus! {

/// A value that can be duplicated without changing its abstract view.
pub trait DupView: View + Sized {
    /// Produce a copy with the same view.
    fn dup(&self) -> (r: Self)
        ensures
            r@ == self@,
    ;
}

/// The map, stored as key/value pairs with pairwise distinct keys.
pub struct StrMap<V: DupView> {
    items: Vec<(String, V)>,
}

/// Some pair of `s` has key `k`.
pub open spec fn has_key<V: View>(s: Seq<(String, V)>, k: Seq<char>) -> bool {
    exists|j: int| 0 <= j < s.len() && s[j].0@ == k
}

pub proof fn lemma_push_has_key<V: View>(s: Seq<(String, V)>, p: (String, V))
    ensures
        forall|k: Seq<char>| #![trigger has_key(s.push(p), k)]
            has_key(s, k) ==> has_key(s.push(p), k),
        has_key(s.push(p), p.0@),
{
    assert forall|k: Seq<char>| has_key(s, k) implies has_key(s.push(p), k) by {
        let j = choose|j: int| 0 <= j < s.len() && s[j].0@ == k;
        assert(s.push(p)[j] == s[j]);
    }
    assert(s.push(p)[s.len() as int] == p);
}

/// `v` is one of the values of `m`.
pub open spec fn map_has_value<NV>(m: Map<Seq<char>, NV>, v: NV) -> bool {
    exists|k: Seq<char>| #[trigger] m.contains_key(k) && m[k] == v
}

/// The keys of `s` are pairwise distinct.
pub open spec fn distinct_keys<V>(s: Seq<(String, V)>) -> bool {
    forall|i: int, j: int| 0 <= i < j < s.len() ==> s[i].0@ != s[j].0@
}

/// The map described by a sequence of key/value pairs; later pairs win.
pub open spec fn entries_map<V: View>(s: Seq<(String, V)>) -> Map<Seq<char>, V::V>
    decreases s.len(),
{
    if s.len() == 0 {
        Map::empty()
    } else {
        entries_map(s.drop_last()).insert(s.last().0@, s.last().1@)
    }
}

pub proof fn lemma_entries_map_domain<V: View>(s: Seq<(String, V)>)
    ensures
        forall|k: Seq<char>|
            #[trigger] entries_map(s).contains_key(k) <==> exists|i: int|
                0 <= i < s.len() && s[i].0@ == k,
    decreases s.len(),
{
    if s.len() > 0 {
        lemma_entries_map_domain(s.drop_last());
        assert forall|k: Seq<char>| #[trigger]
            entries_map(s).contains_key(k) implies exists|i: int|
            0 <= i < s.len() && s[i].0@ == k by {
            if k == s.last().0@ {
                assert(s[s.len() - 1].0@ == k);
            } else {
                assert(entries_map(s.drop_last()).contains_key(k));
                let i = choose|i: int| 0 <= i < s.drop_last().len() && s.drop_last()[i].0@ == k;
                assert(s.drop_last()[i] == s[i]);
                assert(s[i].0@ == k);
            }
        }
        assert forall|k: Seq<char>|
            (exists|i: int| 0 <= i < s.len() && s[i].0@ == k) implies #[trigger]
            entries_map(s).contains_key(k) by {
            let i = choose|i: int| 0 <= i < s.len() && s[i].0@ == k;
            if i < s.len() - 1 {
                assert(s.drop_last()[i].0@ == k);
                assert(entries_map(s.drop_last()).contains_key(k));
            }
        }
    }
}

pub proof fn lemma_entries_map_index<V: View>(s: Seq<(String, V)>, i: int)
    requires
        distinct_keys(s),
        0 <= i < s.len(),
    ensures
        entries_map(s).contains_key(s[i].0@),
        entries_map(s)[s[i].0@] == s[i].1@,
    decreases s.len(),
{
    if i == s.len() - 1 {
    } else {
        assert(distinct_keys(s.drop_last()));
        assert(s.drop_last()[i] == s[i]);
        lemma_entries_map_index(s.drop_last(), i);
        assert(s[i].0@ != s.last().0@);
    }
}

/// Quantified form of the two lemmas above.
pub proof fn lemma_entries_map_all<V: View>(s: Seq<(String, V)>)
    requires
        distinct_keys(s),
    ensures
        forall|k: Seq<char>|
            #[trigger] entries_map(s).contains_key(k) <==> exists|i: int|
                0 <= i < s.len() && s[i].0@ == k,
        forall|i: int|
            0 <= i < s.len() ==> #[trigger] entries_map(s)[s[i].0@] == s[i].1@,
{
    lemma_entries_map_domain(s);
    assert forall|i: int| 0 <= i < s.len() implies #[trigger] entries_map(s)[s[i].0@]
        == s[i].1@ by {
        lemma_entries_map_index(s, i);
    }
}

pub proof fn lemma_entries_map_update<V: View>(s: Seq<(String, V)>, i: int, p: (String, V))
    requires
        distinct_keys(s),
        0 <= i < s.len(),
        p.0@ == s[i].0@,
    ensures
        entries_map(s.update(i, p)) == entries_map(s).insert(p.0@, p.1@),
    decreases s.len(),
{
    if i == s.len() - 1 {
        assert(s.update(i, p).drop_last() =~= s.drop_last());
        assert(entries_map(s.update(i, p)) =~= entries_map(s).insert(p.0@, p.1@));
    } else {
        assert(distinct_keys(s.drop_last()));
        assert(s.drop_last()[i] == s[i]);
        lemma_entries_map_update(s.drop_last(), i, p);
        assert(s.update(i, p).drop_last() =~= s.drop_last().update(i, p));
        assert(s.update(i, p).last() == s.last());
        assert(s[i].0@ != s.last().0@);
        assert(entries_map(s.update(i, p)) =~= entries_map(s).insert(p.0@, p.1@));
    }
}

pub proof fn lemma_entries_map_remove<V: View>(s: Seq<(String, V)>, i: int)
    requires
        distinct_keys(s),
        0 <= i < s.len(),
    ensures
        entries_map(s.remove(i)) == entries_map(s).remove(s[i].0@),
        distinct_keys(s.remove(i)),
    decreases s.len(),
{
    assert forall|a: int, b: int| 0 <= a < b < s.remove(i).len() implies s.remove(i)[a].0@
        != s.remove(i)[b].0@ by {
        let a0 = if a < i { a } else { a + 1 };
        let b0 = if b < i { b } else { b + 1 };
        assert(s.remove(i)[a] == s[a0]);
        assert(s.remove(i)[b] == s[b0]);
    }
    if i == s.len() - 1 {
        assert(s.remove(i) =~= s.drop_last());
        lemma_entries_map_domain(s.drop_last());
        assert(!entries_map(s.drop_last()).contains_key(s[i].0@));
        assert(entries_map(s.remove(i)) =~= entries_map(s).remove(s[i].0@));
    } else {
        assert(distinct_keys(s.drop_last()));
        assert(s.drop_last()[i] == s[i]);
        lemma_entries_map_remove(s.drop_last(), i);
        assert(s.remove(i).drop_last() =~= s.drop_last().remove(i));
        assert(s.remove(i).last() == s.last());
        assert(s[i].0@ != s.last().0@);
        assert(entries_map(s.remove(i)) =~= entries_map(s).remove(s[i].0@));
    }
}

impl<V: DupView> View for StrMap<V> {
    type V = Map<Seq<char>, <V as View>::V>;

    closed spec fn view(&self) -> Map<Seq<char>, <V as View>::V> {
        entries_map(self.items@)
    }
}

impl<V: DupView> StrMap<V> {
    /// The keys stored are pairwise distinct.
    #[verifier::type_invariant]
    pub closed spec fn inv(&self) -> bool {
        distinct_keys(self.items@)
    }

    /// An empty map.
    pub fn new() -> (r: Self)
        ensures
            r@ == Map::<Seq<char>, <V as View>::V>::empty(),
    {
        StrMap { items: Vec::new() }
    }

    /// Index of `key` in the stored pairs, if present.
    fn index_of(&self, key: &String) -> (r: Option<usize>)
        ensures
            match r {
                Some(i) => i < self.items@.len() && self.items@[i as int].0@ == key@,
                None => forall|i: int| 0 <= i < self.items@.len() ==> self.items@[i].0@ != key@,
            },
    {
        let mut i: usize = 0;
        while i < self.items.len()
            invariant
                i <= self.items@.len(),
                forall|j: int| 0 <= j < i ==> self.items@[j].0@ != key@,
            decreases self.items@.len() - i,
        {
            if str_eq(self.items[i].0.as_str(), key.as_str()) {
                return Some(i);
            }
            i = i + 1;
        }
        None
    }

    /// Whether `key` is in the map.
    pub fn contains_key(&self, key: &String) -> (r: bool)
        ensures
            r == self@.contains_key(key@),
    {
        proof {
            lemma_entries_map_domain(self.items@);
        }
        self.index_of(key).is_some()
    }

    /// Borrow the value stored under `key`, if any.
    pub fn get(&self, key: &String) -> (r: Option<&V>)
        ensures
            match r {
                Some(v) => self@.contains_key(key@) && v@ == self@[key@],
                None => !self@.contains_key(key@),
            },
    {
        proof {
            use_type_invariant(self);
            lemma_entries_map_all(self.items@);
        }
        match self.index_of(key) {
            Some(i) => Some(&self.items[i].1),
            None => None,
        }
    }

    /// Insert `value` under `key`, replacing any previous value.
    pub fn insert(&mut self, key: String, value: V)
        ensures
            final(self)@ == old(self)@.insert(key@, value@),
    {
        proof {
            use_type_invariant(&*self);
        }
        let idx = self.index_of(&key);
        let mut items: Vec<(String, V)> = Vec::new();
        core::mem::swap(&mut items, &mut self.items);
        match idx {
            Some(i) => {
                proof {
                    lemma_entries_map_update(items@, i as int, (key, value));
                }
                items.set(i, (key, value));
            },
            None => {
                proof {
                    assert(items@.push((key, value)).drop_last() =~= items@);
                    assert(forall|j: int|
                        0 <= j < items@.len() ==> items@.push((key, value))[j] == items@[j]);
                }
                items.push((key, value));
            },
        }
        self.items = items;
    }

    /// Remove the value stored under `key`, if any.
    pub fn remove(&mut self, key: &String)
        ensures
            final(self)@ == old(self)@.remove(key@),
    {
        proof {
            use_type_invariant(&*self);
        }
        let idx = self.index_of(key);
        match idx {
            Some(i) => {
                let mut items: Vec<(String, V)> = Vec::new();
                core::mem::swap(&mut items, &mut self.items);
                proof {
                    lemma_entries_map_remove(items@, i as int);
                }
                items.remove(i);
                self.items = items;
            },
            None => {
                proof {
                    lemma_entries_map_domain(self.items@);
                    assert(entries_map(self.items@) =~= entries_map(self.items@).remove(key@));
                }
            },
        }
    }

    /// Number of entries in the map.
    pub fn len(&self) -> (n: usize)
        ensures
            n == self@.dom().len(),
            self@.dom().finite(),
    {
        proof {
            use_type_invariant(self);
            lemma_entries_map_card(self.items@);
        }
        self.items.len()
    }

    /// Duplicates of all stored values, in storage order: each value of the
    /// map appears exactly once.
    pub fn values_dup(&self) -> (r: Vec<V>)
        ensures
            r@.len() == self@.dom().len(),
            forall|i: int|
                0 <= i < r@.len() ==> #[trigger] map_has_value(self@, r@[i]@),
            forall|k: Seq<char>|
                #[trigger] self@.contains_key(k) ==> exists|i: int|
                    0 <= i < r@.len() && r@[i]@ == self@[k],
    {
        let mut r: Vec<V> = Vec::new();
        let mut i: usize = 0;
        while i < self.items.len()
            invariant
                i <= self.items@.len(),
                r@.len() == i,
                forall|j: int| 0 <= j < i ==> r@[j]@ == self.items@[j].1@,
            decreases self.items@.len() - i,
        {
            r.push(self.items[i].1.dup());
            i = i + 1;
        }
        proof {
            use_type_invariant(self);
            lemma_entries_map_card(self.items@);
            lemma_entries_map_all(self.items@);
            assert forall|j: int| 0 <= j < r@.len() implies #[trigger] map_has_value(
                self@,
                r@[j]@,
            ) by {
                assert(self@.contains_key(self.items@[j].0@) && self@[self.items@[j].0@]
                    == r@[j]@);
            }
            assert forall|k: Seq<char>| #[trigger] self@.contains_key(k) implies exists|i0: int|
                0 <= i0 < r@.len() && r@[i0]@ == self@[k] by {
                let i0 = choose|i0: int| 0 <= i0 < self.items@.len() && self.items@[i0].0@ == k;
                assert(r@[i0]@ == self@[k]);
            }
        }
        r
    }

    /// A copy of the whole map with the same view.
    pub fn dup(&self) -> (r: Self)
        ensures
            r@ == self@,
    {
        let mut items: Vec<(String, V)> = Vec::new();
        let mut i: usize = 0;
        while i < self.items.len()
            invariant
                i <= self.items@.len(),
                items@.len() == i,
                forall|j: int|
                    0 <= j < i ==> items@[j].0@ == self.items@[j].0@ && items@[j].1@
                        == self.items@[j].1@,
            decreases self.items@.len() - i,
        {
            let key = self.items[i].0.clone();
            let value = self.items[i].1.dup();
            items.push((key, value));
            i = i + 1;
        }
        proof {
            use_type_invariant(self);
            assert(distinct_keys(items@));
            lemma_entries_map_congruent(items@, self.items@);
        }
        StrMap { items }
    }
}

/// `p` with a trailing slash added if it does not already end in one.
pub open spec fn slashed(p: Seq<char>) -> Seq<char> {
    if p.len() > 0 && p.last() == '/' {
        p
    } else {
        p + seq!['/']
    }
}

/// `k` lies in the subtree rooted at `p`: it is `p` itself, or it extends
/// `p` across a separator.
pub open spec fn under_prefix(k: Seq<char>, p: Seq<char>) -> bool {
    k == p || is_prefix_of(slashed(p), k)
}

/// The key under `f` carried over to the prefix `t`.
pub open spec fn rebased(k: Seq<char>, f: Seq<char>, t: Seq<char>) -> Seq<char> {
    t + k.skip(f.len() as int)
}

/// The key under `f` that the rebased key `k` under `t` came from.
pub open spec fn rebase_src(k: Seq<char>, f: Seq<char>, t: Seq<char>) -> Seq<char> {
    f + k.skip(t.len() as int)
}

/// `k` is produced by rebasing some key of `m` that lies under `f` onto `t`.
pub open spec fn is_rebased_target<NV>(
    m: Map<Seq<char>, NV>,
    f: Seq<char>,
    t: Seq<char>,
    k: Seq<char>,
) -> bool {
    &&& is_prefix_of(t, k)
    &&& under_prefix(rebase_src(k, f, t), f)
    &&& m.contains_key(rebase_src(k, f, t))
}

/// The value at key `k` after the subtree at `f` of `m` is moved onto `t`,
/// or `None` if `k` is then absent.
pub open spec fn mv_sel<NV>(
    m: Map<Seq<char>, NV>,
    f: Seq<char>,
    t: Seq<char>,
    k: Seq<char>,
) -> Option<NV> {
    if is_rebased_target(m, f, t, k) {
        Some(m[rebase_src(k, f, t)])
    } else if m.contains_key(k) && !under_prefix(k, f) {
        Some(m[k])
    } else {
        None
    }
}

/// The value at key `k` after the subtree at `f` of `m` is copied onto `t`,
/// or `None` if `k` is then absent.
pub open spec fn cp_sel<NV>(
    m: Map<Seq<char>, NV>,
    f: Seq<char>,
    t: Seq<char>,
    k: Seq<char>,
) -> Option<NV> {
    if is_rebased_target(m, f, t, k) {
        Some(m[rebase_src(k, f, t)])
    } else if m.contains_key(k) {
        Some(m[k])
    } else {
        None
    }
}

/// `m1` is `m0` with the subtree of keys under `f` moved onto `t`.
pub open spec fn map_moved<NV>(
    m0: Map<Seq<char>, NV>,
    m1: Map<Seq<char>, NV>,
    f: Seq<char>,
    t: Seq<char>,
) -> bool {
    &&& forall|k: Seq<char>| #![trigger m1.contains_key(k)]
        m1.contains_key(k) <==> mv_sel(m0, f, t, k) is Some
    &&& forall|k: Seq<char>| #![trigger m1[k]]
        m1.contains_key(k) ==> Some(m1[k]) == mv_sel(m0, f, t, k)
}

/// `m1` is `m0` with the subtree of keys under `f` also copied onto `t`.
pub open spec fn map_copied<NV>(
    m0: Map<Seq<char>, NV>,
    m1: Map<Seq<char>, NV>,
    f: Seq<char>,
    t: Seq<char>,
) -> bool {
    &&& forall|k: Seq<char>| #![trigger m1.contains_key(k)]
        m1.contains_key(k) <==> cp_sel(m0, f, t, k) is Some
    &&& forall|k: Seq<char>| #![trigger m1[k]]
        m1.contains_key(k) ==> Some(m1[k]) == cp_sel(m0, f, t, k)
}

pub proof fn lemma_under_prefix_take(k: Seq<char>, p: Seq<char>)
    requires
        under_prefix(k, p),
    ensures
        p.len() <= k.len(),
        k.take(p.len() as int) == p,
{
    if k == p {
        assert(k.take(p.len() as int) =~= p);
    } else {
        if p.len() > 0 && p.last() == '/' {
            assert(k.take(p.len() as int) == p);
        } else {
            assert(k.take((p.len() + 1) as int) == p + seq!['/']);
            assert forall|j: int| 0 <= j < p.len() implies k.take(p.len() as int)[j] == p[j] by {
                assert(k.take((p.len() + 1) as int)[j] == (p + seq!['/'])[j]);
            }
            assert(k.take(p.len() as int) =~= p);
        }
    }
}

pub proof fn lemma_rebased_is_target<NV>(
    m: Map<Seq<char>, NV>,
    f: Seq<char>,
    t: Seq<char>,
    k: Seq<char>,
)
    requires
        under_prefix(k, f),
        m.contains_key(k),
    ensures
        is_rebased_target(m, f, t, rebased(k, f, t)),
        rebase_src(rebased(k, f, t), f, t) == k,
{
    lemma_under_prefix_take(k, f);
    let r = rebased(k, f, t);
    assert(r.take(t.len() as int) =~= t);
    assert(r.skip(t.len() as int) =~= k.skip(f.len() as int));
    assert(rebase_src(r, f, t) =~= k);
}

pub proof fn lemma_target_src<NV>(m: Map<Seq<char>, NV>, f: Seq<char>, t: Seq<char>, k: Seq<char>)
    requires
        is_rebased_target(m, f, t, k),
    ensures
        under_prefix(rebase_src(k, f, t), f),
        m.contains_key(rebase_src(k, f, t)),
        rebased(rebase_src(k, f, t), f, t) == k,
{
    let s = rebase_src(k, f, t);
    lemma_under_prefix_take(s, f);
    assert(s.skip(f.len() as int) =~= k.skip(t.len() as int));
    assert(rebased(s, f, t) =~= k);
}

/// The law of copying onto a disjoint subtree: when neither prefix lies in
/// the other's subtree (and neither carries a trailing slash), a copy from
/// `f` onto `t` leaves every key under `f` resolving exactly as before,
/// makes its rebased key under `t` resolve to the same value, and the two
/// keys are distinct — so either tree can afterwards be removed entry by
/// entry without touching the other.
pub proof fn lemma_copy_disjoint_subtrees<NV>(
    m: Map<Seq<char>, NV>,
    f: Seq<char>,
    t: Seq<char>,
    k: Seq<char>,
)
    requires
        !under_prefix(t, f),
        !under_prefix(f, t),
        f.len() == 0 || f.last() != '/',
        t.len() == 0 || t.last() != '/',
        under_prefix(k, f),
    ensures
        cp_sel(m, f, t, k) == (if m.contains_key(k) {
            Some(m[k])
        } else {
            None::<NV>
        }),
        m.contains_key(k) ==> cp_sel(m, f, t, rebased(k, f, t)) == Some(m[k]),
        m.contains_key(k) ==> rebased(k, f, t) != k,
{
    lemma_under_prefix_take(k, f);
    // A key under `f` is never a rebased target: that would force one
    // prefix into the other's subtree.
    assert(!is_rebased_target(m, f, t, k)) by {
        if is_rebased_target(m, f, t, k) {
            assert(k.take(t.len() as int) == t);
            if t.len() == f.len() {
                assert(t =~= f);
            } else if t.len() < f.len() {
                assert forall|j: int| 0 <= j < t.len() implies f[j] == t[j] by {
                    assert(k.take(f.len() as int)[j] == k[j]);
                    assert(k.take(t.len() as int)[j] == k[j]);
                }
                assert(f.take(t.len() as int) =~= t);
                let src = rebase_src(k, f, t);
                assert(src.len() > f.len());
                assert(src != f);
                assert(is_prefix_of(slashed(f), src));
                assert(slashed(f) =~= f + seq!['/']);
                assert(src[f.len() as int] == '/') by {
                    assert(src.take(slashed(f).len() as int)[f.len() as int]
                        == src[f.len() as int]);
                }
                assert(k[t.len() as int] == '/') by {
                    assert(src[f.len() as int] == k.skip(t.len() as int)[0]);
                    assert(k.skip(t.len() as int)[0] == k[t.len() as int]);
                }
                assert(f[t.len() as int] == '/') by {
                    assert(k.take(f.len() as int)[t.len() as int] == k[t.len() as int]);
                }
                assert(is_prefix_of(slashed(t), f)) by {
                    assert(slashed(t) =~= t + seq!['/']);
                    assert(f.take((t.len() + 1) as int) =~= t + seq!['/']);
                }
                assert(under_prefix(f, t));
            } else {
                assert forall|j: int| 0 <= j < f.len() implies t[j] == f[j] by {
                    assert(k.take(f.len() as int)[j] == k[j]);
                    assert(k.take(t.len() as int)[j] == k[j]);
                }
                assert(t.take(f.len() as int) =~= f);
                assert(k != f);
                assert(is_prefix_of(slashed(f), k));
                assert(slashed(f) =~= f + seq!['/']);
                assert(k[f.len() as int] == '/') by {
                    assert(k.take(slashed(f).len() as int)[f.len() as int] == k[f.len() as int]);
                }
                assert(t[f.len() as int] == '/') by {
                    assert(k.take(t.len() as int)[f.len() as int] == k[f.len() as int]);
                }
                assert(is_prefix_of(slashed(f), t)) by {
                    assert(t.take((f.len() + 1) as int) =~= f + seq!['/']);
                }
                assert(under_prefix(t, f));
            }
        }
    }
    if m.contains_key(k) {
        lemma_rebased_is_target(m, f, t, k);
        assert(rebased(k, f, t) != k) by {
            if rebased(k, f, t) == k {
                assert(rebased(k, f, t).len() == t.len() + k.len() - f.len());
                assert(t.len() == f.len());
                assert forall|j: int| 0 <= j < f.len() implies t[j] == f[j] by {
                    assert(rebased(k, f, t)[j] == t[j]);
                    assert(k.take(f.len() as int)[j] == k[j]);
                }
                assert(t =~= f);
                assert(under_prefix(t, f));
            }
        }
    }
}

/// A survivor entry of a prefix move: present before, outside the moved
/// subtree, and not overwritten by a rebased entry.
pub open spec fn kept_for_move<NV>(
    m: Map<Seq<char>, NV>,
    f: Seq<char>,
    t: Seq<char>,
    key: Seq<char>,
    v: NV,
) -> bool {
    &&& m.contains_key(key)
    &&& v == m[key]
    &&& !under_prefix(key, f)
    &&& !is_rebased_target(m, f, t, key)
}

/// A survivor entry of a prefix copy: present before and not overwritten
/// by a rebased entry.
pub open spec fn kept_for_copy<NV>(
    m: Map<Seq<char>, NV>,
    f: Seq<char>,
    t: Seq<char>,
    key: Seq<char>,
    v: NV,
) -> bool {
    &&& m.contains_key(key)
    &&& v == m[key]
    &&& !is_rebased_target(m, f, t, key)
}

/// `p` with a trailing slash added if it does not already end in one.
fn slashed_string(p: &String) -> (r: String)
    ensures
        r@ == slashed(p@),
{
    let n = p.as_str().unicode_len();
    if n > 0 && p.as_str().get_char(n - 1) == '/' {
        p.clone()
    } else {
        let r = p.clone().concat("/");
        proof {
            reveal_strlit("/");
            assert("/"@ =~= seq!['/']);
        }
        r
    }
}

/// Whether `key` lies in the subtree rooted at `from`.
fn is_under_key(key: &String, from: &String, prefix: &String) -> (r: bool)
    requires
        prefix@ == slashed(from@),
    ensures
        r == under_prefix(key@, from@),
{
    str_eq(key.as_str(), from.as_str()) || str_starts_with(key.as_str(), prefix.as_str())
}

impl<V: DupView> StrMap<V> {
    /// Whether `key` would be produced by rebasing some present key under
    /// `from` onto `to`.
    fn is_target_key(&self, key: &String, from: &String, prefix: &String, to: &String) -> (r: bool)
        requires
            prefix@ == slashed(from@),
        ensures
            r == is_rebased_target(self@, from@, to@, key@),
    {
        if !str_starts_with(key.as_str(), to.as_str()) {
            return false;
        }
        let suffix = str_suffix(key.as_str(), to.as_str().unicode_len());
        let src = from.clone().concat(suffix.as_str());
        proof {
            assert(src@ == rebase_src(key@, from@, to@));
        }
        if !is_under_key(&src, from, prefix) {
            return false;
        }
        self.contains_key(&src)
    }

    /// Rebase `key`, which lies under `from`, onto `to`.
    fn rebase_key(key: &String, from: &String, to: &String) -> (r: String)
        requires
            under_prefix(key@, from@),
        ensures
            r@ == rebased(key@, from@, to@),
    {
        proof {
            lemma_under_prefix_take(key@, from@);
        }
        let suffix = str_suffix(key.as_str(), from.as_str().unicode_len());
        to.clone().concat(suffix.as_str())
    }

    /// Move the subtree of entries under `from` onto `to`: each such entry
    /// is removed and reinserted under its rebased key, with its value
    /// unchanged; rebased entries overwrite colliding survivors.
    #[verifier::loop_isolation(false)]
    pub fn move_prefix(&mut self, from: &String, to: &String)
        ensures
            map_moved(old(self)@, final(self)@, from@, to@),
    {
        proof {
            use_type_invariant(&*self);
        }
        let ghost m0 = self@;
        let ghost s0 = self.items@;
        proof {
            lemma_entries_map_all(s0);
        }
        let prefix = slashed_string(from);
        let mut kept: Vec<(String, V)> = Vec::new();
        let mut i: usize = 0;
        while i < self.items.len()
            invariant
                i <= s0.len(),
                distinct_keys(kept@),
                forall|j: int| #![trigger kept@[j]]
                    0 <= j < kept@.len() ==> kept_for_move(
                        m0,
                        from@,
                        to@,
                        kept@[j].0@,
                        kept@[j].1@,
                    ),
                forall|j: int| #![trigger kept@[j]]
                    0 <= j < kept@.len() ==> exists|i0: int|
                        0 <= i0 < i && s0[i0].0@ == kept@[j].0@,
                forall|i0: int| #![trigger s0[i0]]
                    0 <= i0 < i && kept_for_move(m0, from@, to@, s0[i0].0@, s0[i0].1@)
                        ==> has_key(kept@, s0[i0].0@),
            decreases s0.len() - i,
        {
            let key = self.items[i].0.clone();
            let under = is_under_key(&key, from, &prefix);
            let tgt = self.is_target_key(&key, from, &prefix, to);
            if !under && !tgt {
                let v = self.items[i].1.dup();
                proof {
                    assert forall|j: int| 0 <= j < kept@.len() implies kept@[j].0@ != key@ by {
                        let i0 = choose|i0: int| 0 <= i0 < i && s0[i0].0@ == kept@[j].0@;
                        assert(s0[i0].0@ != s0[i as int].0@);
                    }
                    lemma_push_has_key(kept@, (key, v));
                }
                kept.push((key, v));
                proof {
                    assert(kept@[kept@.len() - 1].0@ == s0[i as int].0@);
                }
            }
            i = i + 1;
        }
        proof {
            assert forall|k: Seq<char>|
                m0.contains_key(k) && !under_prefix(k, from@) && !is_rebased_target(
                    m0,
                    from@,
                    to@,
                    k,
                ) implies has_key(kept@, k) by {
                let i0 = choose|i0: int| 0 <= i0 < s0.len() && s0[i0].0@ == k;
                assert(kept_for_move(m0, from@, to@, s0[i0].0@, s0[i0].1@));
            }
        }
        let mut i: usize = 0;
        while i < self.items.len()
            invariant
                i <= s0.len(),
                distinct_keys(kept@),
                forall|j: int| #![trigger kept@[j]]
                    0 <= j < kept@.len() ==> (kept_for_move(
                        m0,
                        from@,
                        to@,
                        kept@[j].0@,
                        kept@[j].1@,
                    ) || exists|i0: int|
                        0 <= i0 < i && under_prefix(s0[i0].0@, from@) && kept@[j].0@ == rebased(
                            s0[i0].0@,
                            from@,
                            to@,
                        ) && kept@[j].1@ == s0[i0].1@),
                forall|k: Seq<char>| #![trigger m0.contains_key(k)]
                    m0.contains_key(k) && !under_prefix(k, from@) && !is_rebased_target(
                        m0,
                        from@,
                        to@,
                        k,
                    ) ==> has_key(kept@, k),
                forall|i0: int| #![trigger s0[i0]]
                    0 <= i0 < i && under_prefix(s0[i0].0@, from@) ==> has_key(
                        kept@,
                        rebased(s0[i0].0@, from@, to@),
                    ),
            decreases s0.len() - i,
        {
            let key = self.items[i].0.clone();
            if is_under_key(&key, from, &prefix) {
                let newkey = Self::rebase_key(&key, from, to);
                let v = self.items[i].1.dup();
                proof {
                    lemma_rebased_is_target(m0, from@, to@, key@);
                    assert forall|j: int| 0 <= j < kept@.len() implies kept@[j].0@ != newkey@ by {
                        if kept_for_move(m0, from@, to@, kept@[j].0@, kept@[j].1@) {
                            assert(is_rebased_target(m0, from@, to@, newkey@));
                        } else {
                            let i0 = choose|i0: int|
                                0 <= i0 < i && under_prefix(s0[i0].0@, from@) && kept@[j].0@
                                    == rebased(s0[i0].0@, from@, to@) && kept@[j].1@ == s0[i0].1@;
                            lemma_rebased_is_target(m0, from@, to@, s0[i0].0@);
                            assert(s0[i0].0@ != s0[i as int].0@);
                            assert(rebase_src(kept@[j].0@, from@, to@) == s0[i0].0@);
                            assert(rebase_src(newkey@, from@, to@) == s0[i as int].0@);
                        }
                    }
                    lemma_push_has_key(kept@, (newkey, v));
                }
                kept.push((newkey, v));
                proof {
                    assert(kept@[kept@.len() - 1].0@ == rebased(s0[i as int].0@, from@, to@));
                    assert(has_key(kept@, rebased(s0[i as int].0@, from@, to@)));
                }
            }
            i = i + 1;
        }
        proof {
            lemma_entries_map_all(kept@);
            assert forall|k: Seq<char>| #[trigger]
                entries_map(kept@).contains_key(k) implies mv_sel(m0, from@, to@, k) is Some
                && Some(entries_map(kept@)[k]) == mv_sel(m0, from@, to@, k) by {
                let j = choose|j: int| 0 <= j < kept@.len() && kept@[j].0@ == k;
                assert(entries_map(kept@)[kept@[j].0@] == kept@[j].1@);
                if !kept_for_move(m0, from@, to@, kept@[j].0@, kept@[j].1@) {
                    let i0 = choose|i0: int|
                        0 <= i0 < s0.len() && under_prefix(s0[i0].0@, from@) && kept@[j].0@
                            == rebased(s0[i0].0@, from@, to@) && kept@[j].1@ == s0[i0].1@;
                    lemma_rebased_is_target(m0, from@, to@, s0[i0].0@);
                    assert(rebase_src(k, from@, to@) == s0[i0].0@);
                    assert(m0[s0[i0].0@] == s0[i0].1@);
                }
            }
            assert forall|k: Seq<char>| mv_sel(m0, from@, to@, k) is Some implies #[trigger]
                entries_map(kept@).contains_key(k) by {
                if is_rebased_target(m0, from@, to@, k) {
                    let src = rebase_src(k, from@, to@);
                    lemma_target_src(m0, from@, to@, k);
                    let i0 = choose|i0: int| 0 <= i0 < s0.len() && s0[i0].0@ == src;
                    assert(rebased(s0[i0].0@, from@, to@) == k);
                }
                assert(has_key(kept@, k));
                let j = choose|j: int| 0 <= j < kept@.len() && kept@[j].0@ == k;
                assert(kept@[j].0@ == k);
            }
        }
        self.items = kept;
    }

    /// Copy the subtree of entries under `from` onto `to`: each such entry
    /// is kept and also inserted under its rebased key, with a duplicated
    /// value; rebased entries overwrite colliding survivors.
    #[verifier::loop_isolation(false)]
    pub fn copy_prefix(&mut self, from: &String, to: &String)
        ensures
            map_copied(old(self)@, final(self)@, from@, to@),
    {
        proof {
            use_type_invariant(&*self);
        }
        let ghost m0 = self@;
        let ghost s0 = self.items@;
        proof {
            lemma_entries_map_all(s0);
        }
        let prefix = slashed_string(from);
        let mut kept: Vec<(String, V)> = Vec::new();
        let mut i: usize = 0;
        while i < self.items.len()
            invariant
                i <= s0.len(),
                distinct_keys(kept@),
                forall|j: int| #![trigger kept@[j]]
                    0 <= j < kept@.len() ==> kept_for_copy(
                        m0,
                        from@,
                        to@,
                        kept@[j].0@,
                        kept@[j].1@,
                    ),
                forall|j: int| #![trigger kept@[j]]
                    0 <= j < kept@.len() ==> exists|i0: int|
                        0 <= i0 < i && s0[i0].0@ == kept@[j].0@,
                forall|i0: int| #![trigger s0[i0]]
                    0 <= i0 < i && kept_for_copy(m0, from@, to@, s0[i0].0@, s0[i0].1@)
                        ==> has_key(kept@, s0[i0].0@),
            decreases s0.len() - i,
        {
            let key = self.items[i].0.clone();
            let tgt = self.is_target_key(&key, from, &prefix, to);
            if !tgt {
                let v = self.items[i].1.dup();
                proof {
                    assert forall|j: int| 0 <= j < kept@.len() implies kept@[j].0@ != key@ by {
                        let i0 = choose|i0: int| 0 <= i0 < i && s0[i0].0@ == kept@[j].0@;
                        assert(s0[i0].0@ != s0[i as int].0@);
                    }
                    lemma_push_has_key(kept@, (key, v));
                }
                kept.push((key, v));
                proof {
                    assert(kept@[kept@.len() - 1].0@ == s0[i as int].0@);
                }
            }
            i = i + 1;
        }
        proof {
            assert forall|k: Seq<char>|
                m0.contains_key(k) && !is_rebased_target(m0, from@, to@, k) implies has_key(
                kept@,
                k,
            ) by {
                let i0 = choose|i0: int| 0 <= i0 < s0.len() && s0[i0].0@ == k;
                assert(kept_for_copy(m0, from@, to@, s0[i0].0@, s0[i0].1@));
            }
        }
        let mut i: usize = 0;
        while i < self.items.len()
            invariant
                i <= s0.len(),
                distinct_keys(kept@),
                forall|j: int| #![trigger kept@[j]]
                    0 <= j < kept@.len() ==> (kept_for_copy(
                        m0,
                        from@,
                        to@,
                        kept@[j].0@,
                        kept@[j].1@,
                    ) || exists|i0: int|
                        0 <= i0 < i && under_prefix(s0[i0].0@, from@) && kept@[j].0@ == rebased(
                            s0[i0].0@,
                            from@,
                            to@,
                        ) && kept@[j].1@ == s0[i0].1@),
                forall|k: Seq<char>| #![trigger m0.contains_key(k)]
                    m0.contains_key(k) && !is_rebased_target(m0, from@, to@, k) ==> has_key(
                        kept@,
                        k,
                    ),
                forall|i0: int| #![trigger s0[i0]]
                    0 <= i0 < i && under_prefix(s0[i0].0@, from@) ==> has_key(
                        kept@,
                        rebased(s0[i0].0@, from@, to@),
                    ),
            decreases s0.len() - i,
        {
            let key = self.items[i].0.clone();
            if is_under_key(&key, from, &prefix) {
                let newkey = Self::rebase_key(&key, from, to);
                let v = self.items[i].1.dup();
                proof {
                    lemma_rebased_is_target(m0, from@, to@, key@);
                    assert forall|j: int| 0 <= j < kept@.len() implies kept@[j].0@ != newkey@ by {
                        if kept_for_copy(m0, from@, to@, kept@[j].0@, kept@[j].1@) {
                            assert(is_rebased_target(m0, from@, to@, newkey@));
                        } else {
                            let i0 = choose|i0: int|
                                0 <= i0 < i && under_prefix(s0[i0].0@, from@) && kept@[j].0@
                                    == rebased(s0[i0].0@, from@, to@) && kept@[j].1@ == s0[i0].1@;
                            lemma_rebased_is_target(m0, from@, to@, s0[i0].0@);
                            assert(s0[i0].0@ != s0[i as int].0@);
                            assert(rebase_src(kept@[j].0@, from@, to@) == s0[i0].0@);
                            assert(rebase_src(newkey@, from@, to@) == s0[i as int].0@);
                        }
                    }
                    lemma_push_has_key(kept@, (newkey, v));
                }
                kept.push((newkey, v));
                proof {
                    assert(kept@[kept@.len() - 1].0@ == rebased(s0[i as int].0@, from@, to@));
                    assert(has_key(kept@, rebased(s0[i as int].0@, from@, to@)));
                }
            }
            i = i + 1;
        }
        proof {
            lemma_entries_map_all(kept@);
            assert forall|k: Seq<char>| #[trigger]
                entries_map(kept@).contains_key(k) implies cp_sel(m0, from@, to@, k) is Some
                && Some(entries_map(kept@)[k]) == cp_sel(m0, from@, to@, k) by {
                let j = choose|j: int| 0 <= j < kept@.len() && kept@[j].0@ == k;
                assert(entries_map(kept@)[kept@[j].0@] == kept@[j].1@);
                if !kept_for_copy(m0, from@, to@, kept@[j].0@, kept@[j].1@) {
                    let i0 = choose|i0: int|
                        0 <= i0 < s0.len() && under_prefix(s0[i0].0@, from@) && kept@[j].0@
                            == rebased(s0[i0].0@, from@, to@) && kept@[j].1@ == s0[i0].1@;
                    lemma_rebased_is_target(m0, from@, to@, s0[i0].0@);
                    assert(rebase_src(k, from@, to@) == s0[i0].0@);
                    assert(m0[s0[i0].0@] == s0[i0].1@);
                }
            }
            assert forall|k: Seq<char>| cp_sel(m0, from@, to@, k) is Some implies #[trigger]
                entries_map(kept@).contains_key(k) by {
                if is_rebased_target(m0, from@, to@, k) {
                    let src = rebase_src(k, from@, to@);
                    lemma_target_src(m0, from@, to@, k);
                    let i0 = choose|i0: int| 0 <= i0 < s0.len() && s0[i0].0@ == src;
                    assert(rebased(s0[i0].0@, from@, to@) == k);
                }
                assert(has_key(kept@, k));
                let j = choose|j: int| 0 <= j < kept@.len() && kept@[j].0@ == k;
                assert(kept@[j].0@ == k);
            }
        }
        self.items = kept;
    }
}

pub proof fn lemma_entries_map_card<V: View>(s: Seq<(String, V)>)
    requires
        distinct_keys(s),
    ensures
        entries_map(s).dom().finite(),
        entries_map(s).dom().len() == s.len(),
    decreases s.len(),
{
    if s.len() > 0 {
        assert(distinct_keys(s.drop_last()));
        lemma_entries_map_card(s.drop_last());
        lemma_entries_map_domain(s.drop_last());
        assert(!entries_map(s.drop_last()).contains_key(s.last().0@));
        assert(entries_map(s).dom() =~= entries_map(s.drop_last()).dom().insert(s.last().0@));
    }
}

/// Pairwise view-equal pair sequences describe the same map.
pub proof fn lemma_entries_map_congruent<V: View>(a: Seq<(String, V)>, b: Seq<(String, V)>)
    requires
        a.len() == b.len(),
        forall|j: int| 0 <= j < a.len() ==> a[j].0@ == b[j].0@ && a[j].1@ == b[j].1@,
    ensures
        entries_map(a) == entries_map(b),
    decreases a.len(),
{
    if a.len() > 0 {
        assert(forall|j: int|
            0 <= j < a.drop_last().len() ==> a.drop_last()[j] == a[j] && b.drop_last()[j] == b[j]);
        lemma_entries_map_congruent(a.drop_last(), b.drop_last());
        assert(entries_map(a) =~= entries_map(b));
    }
}

} // verus!
