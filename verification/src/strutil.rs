//! Small verified building blocks for working with path strings:
//! character-wise equality, prefix tests, and searching for the last
//! slash of a path.

use vstd::prelude::*;

verus! {

/// `p` is an initial segment of `s`.
pub open spec fn is_prefix_of(p: Seq<char>, s: Seq<char>) -> bool {
    p.len() <= s.len() && s.take(p.len() as int) == p
}

/// `s` without its trailing slashes, except that a lone `"/"` keeps it.
pub open spec fn strip_trailing_slashes(s: Seq<char>) -> Seq<char>
    decreases s.len(),
{
    if s.len() > 1 && s.last() == '/' {
        strip_trailing_slashes(s.drop_last())
    } else {
        s
    }
}

/// Index of the last `'/'` in `s`, or `-1` if there is none.
pub open spec fn last_slash_index(s: Seq<char>) -> int
    decreases s.len(),
{
    if s.len() == 0 {
        -1
    } else if s.last() == '/' {
        s.len() - 1
    } else {
        last_slash_index(s.drop_last())
    }
}

pub proof fn lemma_last_slash_index(s: Seq<char>)
    ensures
        last_slash_index(s) >= -1,
        last_slash_index(s) == -1 ==> forall|j: int| 0 <= j < s.len() ==> s[j] != '/',
        last_slash_index(s) >= 0 ==> {
            &&& last_slash_index(s) < s.len()
            &&& s[last_slash_index(s)] == '/'
            &&& forall|j: int| last_slash_index(s) < j < s.len() ==> s[j] != '/'
        },
    decreases s.len(),
{
    if s.len() == 0 {
    } else if s.last() == '/' {
    } else {
        lemma_last_slash_index(s.drop_last());
        assert(last_slash_index(s) == last_slash_index(s.drop_last()));
        assert forall|j: int| 0 <= j < s.len() && last_slash_index(s) < j implies s[j] != '/' by {
            if j < s.len() - 1 {
                assert(s.drop_last()[j] == s[j]);
                if last_slash_index(s.drop_last()) == -1 {
                    assert(s.drop_last()[j] != '/');
                } else {
                    assert(s.drop_last()[j] != '/');
                }
            } else {
                assert(s[j] == s.last());
            }
        }
    }
}

pub proof fn lemma_strip_trailing_prefix(s: Seq<char>)
    ensures
        strip_trailing_slashes(s).len() <= s.len(),
        s.len() > 0 ==> strip_trailing_slashes(s).len() >= 1,
        strip_trailing_slashes(s) == s.take(strip_trailing_slashes(s).len() as int),
    decreases s.len(),
{
    if s.len() > 1 && s.last() == '/' {
        lemma_strip_trailing_prefix(s.drop_last());
        let t = strip_trailing_slashes(s);
        assert(s.drop_last().take(t.len() as int) =~= s.take(t.len() as int));
    } else {
        assert(s.take(s.len() as int) =~= s);
    }
}

/// Position of the last `'/'` in `s`, if any.
#[verifier::loop_isolation(false)]
pub fn find_last_slash(s: &str) -> (r: Option<usize>)
    ensures
        match r {
            Some(i) => 0 <= last_slash_index(s@) && i == last_slash_index(s@),
            None => last_slash_index(s@) == -1,
        },
{
    proof {
        lemma_last_slash_index(s@);
    }
    let n = s.unicode_len();
    let mut j: usize = n;
    while j > 0
        invariant
            j <= n,
            forall|jj: int| j <= jj < n ==> s@[jj] != '/',
        decreases j,
    {
        if s.get_char(j - 1) == '/' {
            proof {
                if last_slash_index(s@) != j - 1 {
                    assert(s@[last_slash_index(s@)] == '/');
                }
            }
            return Some(j - 1);
        }
        j = j - 1;
    }
    None
}

/// Character-wise string equality.
pub fn str_eq(a: &str, b: &str) -> (r: bool)
    ensures
        r == (a@ == b@),
{
    let n = a.unicode_len();
    if n != b.unicode_len() {
        return false;
    }
    let mut i: usize = 0;
    while i < n
        invariant
            n == a@.len(),
            n == b@.len(),
            i <= n,
            forall|j: int| 0 <= j < i ==> a@[j] == b@[j],
        decreases n - i,
    {
        if a.get_char(i) != b.get_char(i) {
            return false;
        }
        i = i + 1;
    }
    proof {
        assert(a@ =~= b@);
    }
    true
}

/// Character-wise prefix test.
pub fn str_starts_with(s: &str, p: &str) -> (r: bool)
    ensures
        r == is_prefix_of(p@, s@),
{
    let np = p.unicode_len();
    let ns = s.unicode_len();
    if np > ns {
        return false;
    }
    let mut i: usize = 0;
    while i < np
        invariant
            np == p@.len(),
            ns == s@.len(),
            np <= ns,
            i <= np,
            forall|j: int| 0 <= j < i ==> s@[j] == p@[j],
        decreases np - i,
    {
        if s.get_char(i) != p.get_char(i) {
            proof {
                assert(s@.take(np as int)[i as int] != p@[i as int]);
            }
            return false;
        }
        i = i + 1;
    }
    proof {
        assert(s@.take(np as int) =~= p@);
    }
    true
}

/// The suffix of `s` from character position `from` on, as an owned string.
pub fn str_suffix(s: &str, from: usize) -> (r: String)
    requires
        from <= s@.len(),
    ensures
        r@ == s@.skip(from as int),
{
    let n = s.unicode_len();
    let sub = s.substring_char(from, n);
    proof {
        assert(s@.subrange(from as int, s@.len() as int) =~= s@.skip(from as int));
    }
    sub.to_owned()
}

/// `s` without its trailing slashes (a lone `"/"` stays), as an owned string.
pub fn strip_trailing(s: &str) -> (r: String)
    ensures
        r@ == strip_trailing_slashes(s@),
{
    let mut n = s.unicode_len();
    proof {
        assert(s@.take(s@.len() as int) =~= s@);
    }
    while n > 1 && s.get_char(n - 1) == '/'
        invariant
            n <= s@.len(),
            strip_trailing_slashes(s@) == strip_trailing_slashes(s@.take(n as int)),
        decreases n,
    {
        proof {
            assert(s@.take(n as int).drop_last() =~= s@.take(n - 1));
        }
        n = n - 1;
    }
    let sub = s.substring_char(0, n);
    proof {
        assert(s@.take(s@.len() as int) =~= s@);
        assert(s@.subrange(0, n as int) =~= s@.take(n as int));
        if n > 0 {
            assert(strip_trailing_slashes(s@.take(n as int)) == s@.take(n as int));
        } else {
            assert(strip_trailing_slashes(s@.take(0)) =~= s@.take(0));
        }
    }
    sub.to_owned()
}

} // verus!
