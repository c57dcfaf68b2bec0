//! Small association tables with unique keys.
//!
//! The persisted store of the module is modeled as vectors of key/value
//! pairs, one per key prefix. Each table keeps its keys unique, and its
//! contents are spoken of through [`tbl_get`].

use vstd::prelude::*;

verus! {

/// Keys are copyable values whose executable equality is structural.
pub trait TblKey: Sized + Copy {
    /// Executable equality agreeing with mathematical equality.
    fn key_eq(&self, other: &Self) -> (r: bool)
        ensures
            r == (*self == *other),
    ;
}

impl TblKey for crate::words::Bytes32 {
    fn key_eq(&self, other: &Self) -> (r: bool)
        ensures
            r == (*self == *other),
    {
        *self == *other
    }
}

impl TblKey for crate::words::OutPoint {
    fn key_eq(&self, other: &Self) -> (r: bool)
        ensures
            r == (*self == *other),
    {
        *self == *other
    }
}

impl TblKey for u64 {
    fn key_eq(&self, other: &Self) -> (r: bool)
        ensures
            r == (*self == *other),
    {
        *self == *other
    }
}

/// All keys in the table are distinct.
pub open spec fn tbl_wf<K, V>(s: Seq<(K, V)>) -> bool {
    forall|i: int, j: int| 0 <= i < j < s.len() ==> s[i].0 != s[j].0
}

/// Some entry holds key `k`.
pub open spec fn tbl_has<K, V>(s: Seq<(K, V)>, k: K) -> bool {
    exists|i: int| 0 <= i < s.len() && s[i].0 == k
}

/// The index of the entry holding key `k` (meaningful under [`tbl_wf`]).
pub open spec fn tbl_idx<K, V>(s: Seq<(K, V)>, k: K) -> int {
    choose|i: int| 0 <= i < s.len() && s[i].0 == k
}

/// The value stored under `k`, or `None`.
pub open spec fn tbl_get<K, V>(s: Seq<(K, V)>, k: K) -> Option<V> {
    if tbl_has(s, k) {
        Some(s[tbl_idx(s, k)].1)
    } else {
        None
    }
}

/// Under [`tbl_wf`], the entry at index `i` is the entry `tbl_get` speaks of.
pub proof fn lemma_tbl_at<K, V>(s: Seq<(K, V)>, i: int)
    requires
        tbl_wf(s),
        0 <= i < s.len(),
    ensures
        tbl_has(s, s[i].0),
        tbl_idx(s, s[i].0) == i,
        tbl_get(s, s[i].0) == Some(s[i].1),
{
    let k = s[i].0;
    assert(tbl_has(s, k));
    let j = tbl_idx(s, k);
    assert(0 <= j < s.len() && s[j].0 == k);
    if i != j {
        if i < j {
            assert(s[i].0 != s[j].0);
        } else {
            assert(s[j].0 != s[i].0);
        }
    }
}

/// Looks up `k`, returning a reference to the stored value.
pub fn tbl_find<'a, K: TblKey, V>(s: &'a Vec<(K, V)>, k: &K) -> (r: Option<&'a V>)
    requires
        tbl_wf(s@),
    ensures
        match r {
            Some(v) => tbl_get(s@, *k) == Some(*v),
            None => tbl_get(s@, *k) is None,
        },
{
    let n = s.len();
    let mut i: usize = 0;
    while i < n
        invariant
            tbl_wf(s@),
            n == s@.len(),
            i <= n,
            forall|j: int| 0 <= j < i ==> s@[j].0 != *k,
        decreases n - i,
    {
        if s[i].0.key_eq(k) {
            proof {
                lemma_tbl_at(s@, i as int);
            }
            return Some(&s[i].1);
        }
        i = i + 1;
    }
    proof {
        if tbl_has(s@, *k) {
            let j = tbl_idx(s@, *k);
            assert(s@[j].0 != *k);
        }
    }
    None
}

/// Whether the table holds key `k`.
pub fn tbl_contains<K: TblKey, V>(s: &Vec<(K, V)>, k: &K) -> (r: bool)
    requires
        tbl_wf(s@),
    ensures
        r == tbl_has(s@, *k),
{
    match tbl_find(s, k) {
        Some(_) => true,
        None => false,
    }
}

/// Stores `v` under `k`, overwriting any previous value.
pub fn tbl_set<K: TblKey, V>(s: &mut Vec<(K, V)>, k: K, v: V)
    requires
        tbl_wf(old(s)@),
    ensures
        tbl_wf(final(s)@),
        tbl_get(final(s)@, k) == Some(v),
        forall|k2: K| k2 != k ==> tbl_get(final(s)@, k2) == tbl_get(old(s)@, k2),
        tbl_has(old(s)@, k) ==> final(s)@ == old(s)@.update(tbl_idx(old(s)@, k), (k, v)),
        !tbl_has(old(s)@, k) ==> final(s)@ == old(s)@.push((k, v)),
{
    let n = s.len();
    let mut i: usize = 0;
    while i < n
        invariant
            tbl_wf(s@),
            s@ == old(s)@,
            n == s@.len(),
            i <= n,
            forall|j: int| 0 <= j < i ==> s@[j].0 != k,
        decreases n - i,
    {
        if s[i].0.key_eq(&k) {
            proof {
                lemma_tbl_at(s@, i as int);
            }
            s[i] = (k, v);
            proof {
                lemma_tbl_set_update(old(s)@, s@, i as int, k, v);
            }
            return ;
        }
        i = i + 1;
    }
    proof {
        if tbl_has(s@, k) {
            let j = tbl_idx(s@, k);
            assert(s@[j].0 != k);
        }
    }
    s.push((k, v));
    proof {
        lemma_tbl_set_push(old(s)@, s@, k, v);
    }
}

/// After overwriting index `i`, lookups behave as a map update.
pub proof fn lemma_tbl_set_update<K, V>(pre: Seq<(K, V)>, post: Seq<(K, V)>, i: int, k: K, v: V)
    requires
        tbl_wf(pre),
        0 <= i < pre.len(),
        pre[i].0 == k,
        post == pre.update(i, (k, v)),
    ensures
        tbl_wf(post),
        tbl_get(post, k) == Some(v),
        forall|k2: K| k2 != k ==> tbl_get(post, k2) == tbl_get(pre, k2),
{
    assert forall|a: int, b: int| 0 <= a < b < post.len() implies post[a].0 != post[b].0 by {
        assert(pre[a].0 != pre[b].0);
    }
    lemma_tbl_at(post, i);
    assert forall|k2: K| k2 != k implies tbl_get(post, k2) == tbl_get(pre, k2) by {
        if tbl_has(pre, k2) {
            let j = tbl_idx(pre, k2);
            assert(pre[j].0 == k2);
            assert(j != i);
            assert(post[j] == pre[j]);
            lemma_tbl_at(post, j);
            lemma_tbl_at(pre, j);
        } else {
            if tbl_has(post, k2) {
                let j = tbl_idx(post, k2);
                assert(post[j].0 == k2);
                assert(j != i);
                assert(pre[j].0 == k2);
            }
        }
    }
}

/// After pushing a fresh key, lookups behave as a map insert.
pub proof fn lemma_tbl_set_push<K, V>(pre: Seq<(K, V)>, post: Seq<(K, V)>, k: K, v: V)
    requires
        tbl_wf(pre),
        !tbl_has(pre, k),
        post == pre.push((k, v)),
    ensures
        tbl_wf(post),
        tbl_get(post, k) == Some(v),
        forall|k2: K| k2 != k ==> tbl_get(post, k2) == tbl_get(pre, k2),
{
    assert forall|a: int, b: int| 0 <= a < b < post.len() implies post[a].0 != post[b].0 by {
        if b < pre.len() {
            assert(pre[a].0 != pre[b].0);
        } else {
            assert(post[b] == (k, v));
            if post[a].0 == k {
                assert(pre[a].0 == k);
                assert(tbl_has(pre, k));
            }
        }
    }
    lemma_tbl_at(post, post.len() - 1);
    assert forall|k2: K| k2 != k implies tbl_get(post, k2) == tbl_get(pre, k2) by {
        if tbl_has(pre, k2) {
            let j = tbl_idx(pre, k2);
            assert(post[j] == pre[j]);
            lemma_tbl_at(post, j);
            lemma_tbl_at(pre, j);
        } else {
            if tbl_has(post, k2) {
                let j = tbl_idx(post, k2);
                assert(post[j].0 == k2);
                assert(j < pre.len());
                assert(pre[j].0 == k2);
            }
        }
    }
}

/// Removes the entry under `k`, if any.
pub fn tbl_remove<K: TblKey, V>(s: &mut Vec<(K, V)>, k: &K)
    requires
        tbl_wf(old(s)@),
    ensures
        tbl_wf(final(s)@),
        tbl_get(final(s)@, *k) is None,
        forall|k2: K| k2 != *k ==> tbl_get(final(s)@, k2) == tbl_get(old(s)@, k2),
        tbl_has(old(s)@, *k) ==> final(s)@ == old(s)@.remove(tbl_idx(old(s)@, *k)),
        !tbl_has(old(s)@, *k) ==> final(s)@ == old(s)@,
{
    let n = s.len();
    let mut i: usize = 0;
    while i < n
        invariant
            tbl_wf(s@),
            s@ == old(s)@,
            n == s@.len(),
            i <= n,
            forall|j: int| 0 <= j < i ==> s@[j].0 != *k,
        decreases n - i,
    {
        if s[i].0.key_eq(k) {
            proof {
                lemma_tbl_at(s@, i as int);
            }
            s.remove(i);
            proof {
                lemma_tbl_remove(old(s)@, s@, i as int, *k);
            }
            return ;
        }
        i = i + 1;
    }
    proof {
        if tbl_has(s@, *k) {
            let j = tbl_idx(s@, *k);
            assert(s@[j].0 != *k);
        }
    }
}

/// After removing index `i`, lookups behave as a map removal.
proof fn lemma_tbl_remove<K, V>(pre: Seq<(K, V)>, post: Seq<(K, V)>, i: int, k: K)
    requires
        tbl_wf(pre),
        0 <= i < pre.len(),
        pre[i].0 == k,
        post == pre.remove(i),
    ensures
        tbl_wf(post),
        tbl_get(post, k) is None,
        forall|k2: K| k2 != k ==> tbl_get(post, k2) == tbl_get(pre, k2),
{
    assert forall|a: int, b: int| 0 <= a < b < post.len() implies post[a].0 != post[b].0 by {
        let a0 = if a < i {
            a
        } else {
            a + 1
        };
        let b0 = if b < i {
            b
        } else {
            b + 1
        };
        assert(post[a] == pre[a0]);
        assert(post[b] == pre[b0]);
        assert(pre[a0].0 != pre[b0].0);
    }
    if tbl_has(post, k) {
        let j = tbl_idx(post, k);
        let j0 = if j < i {
            j
        } else {
            j + 1
        };
        assert(post[j] == pre[j0]);
        assert(j0 != i);
        assert(pre[j0].0 != pre[i].0);
    }
    assert forall|k2: K| k2 != k implies tbl_get(post, k2) == tbl_get(pre, k2) by {
        if tbl_has(pre, k2) {
            let j = tbl_idx(pre, k2);
            assert(pre[j].0 == k2);
            assert(j != i);
            let jn = if j < i {
                j
            } else {
                j - 1
            };
            assert(post[jn] == pre[j]);
            lemma_tbl_at(post, jn);
            lemma_tbl_at(pre, j);
        } else {
            if tbl_has(post, k2) {
                let j = tbl_idx(post, k2);
                let j0 = if j < i {
                    j
                } else {
                    j + 1
                };
                assert(post[j] == pre[j0]);
                assert(pre[j0].0 == k2);
            }
        }
    }
}

} // verus!
