//! Association lists keyed by strings: the model of the string-keyed maps
//! the configuration and the label store keep.

use vstd::prelude::*;

use crate::text::str_eq;

verus! {

/// No key occurs twice.
pub open spec fn unique_keys<V>(s: Seq<(Seq<char>, V)>) -> bool {
    forall|i: int, j: int|
        0 <= i < s.len() && 0 <= j < s.len() && i != j ==> #[trigger] s[i].0 != #[trigger] s[j].0
}

/// Some entry has key `k`.
pub open spec fn has_key<V>(s: Seq<(Seq<char>, V)>, k: Seq<char>) -> bool {
    exists|i: int| 0 <= i < s.len() && #[trigger] s[i].0 == k
}

/// The value under `k`, if any.
pub open spec fn lookup<V>(s: Seq<(Seq<char>, V)>, k: Seq<char>) -> Option<V> {
    if has_key(s, k) {
        Some(s[choose|i: int| 0 <= i < s.len() && #[trigger] s[i].0 == k].1)
    } else {
        None
    }
}

/// The keys, in order.
pub open spec fn keys<V>(s: Seq<(Seq<char>, V)>) -> Seq<Seq<char>> {
    s.map_values(|e: (Seq<char>, V)| e.0)
}

pub proof fn lemma_lookup_at<V>(s: Seq<(Seq<char>, V)>, i: int)
    requires
        unique_keys(s),
        0 <= i < s.len(),
    ensures
        lookup(s, s[i].0) == Some(s[i].1),
{
    assert(has_key(s, s[i].0));
    let j = choose|j: int| 0 <= j < s.len() && #[trigger] s[j].0 == s[i].0;
    assert(j == i);
}

pub proof fn lemma_lookup_update<V>(s: Seq<(Seq<char>, V)>, i: int, v: V)
    requires
        unique_keys(s),
        0 <= i < s.len(),
    ensures
        unique_keys(s.update(i, (s[i].0, v))),
        lookup(s.update(i, (s[i].0, v)), s[i].0) == Some(v),
        forall|k: Seq<char>| k != s[i].0 ==> #[trigger] lookup(s.update(i, (s[i].0, v)), k) == lookup(s, k),
{
    let n = s.update(i, (s[i].0, v));
    assert(unique_keys(n)) by {
        assert forall|a: int, b: int|
            0 <= a < n.len() && 0 <= b < n.len() && a != b implies #[trigger] n[a].0 != #[trigger] n[b].0 by {
            assert(n[a].0 == s[a].0);
            assert(n[b].0 == s[b].0);
        }
    }
    lemma_lookup_at(n, i);
    assert forall|k: Seq<char>| k != s[i].0 implies #[trigger] lookup(n, k) == lookup(s, k) by {
        if has_key(s, k) {
            let j = choose|j: int| 0 <= j < s.len() && #[trigger] s[j].0 == k;
            assert(n[j].0 == k);
            lemma_lookup_at(s, j);
            lemma_lookup_at(n, j);
        } else {
            if has_key(n, k) {
                let j = choose|j: int| 0 <= j < n.len() && #[trigger] n[j].0 == k;
                assert(s[j].0 == k);
            }
        }
    }
}

pub proof fn lemma_lookup_push<V>(s: Seq<(Seq<char>, V)>, k: Seq<char>, v: V)
    requires
        unique_keys(s),
        !has_key(s, k),
    ensures
        unique_keys(s.push((k, v))),
        lookup(s.push((k, v)), k) == Some(v),
        forall|k2: Seq<char>| k2 != k ==> #[trigger] lookup(s.push((k, v)), k2) == lookup(s, k2),
{
    let n = s.push((k, v));
    assert(unique_keys(n)) by {
        assert forall|a: int, b: int|
            0 <= a < n.len() && 0 <= b < n.len() && a != b implies #[trigger] n[a].0 != #[trigger] n[b].0 by {
            if a < s.len() && b < s.len() {
                assert(n[a] == s[a]);
                assert(n[b] == s[b]);
            } else if a < s.len() {
                assert(n[a] == s[a]);
            } else {
                assert(n[b] == s[b]);
            }
        }
    }
    lemma_lookup_at(n, s.len() as int);
    assert forall|k2: Seq<char>| k2 != k implies #[trigger] lookup(n, k2) == lookup(s, k2) by {
        if has_key(s, k2) {
            let j = choose|j: int| 0 <= j < s.len() && #[trigger] s[j].0 == k2;
            assert(n[j] == s[j]);
            lemma_lookup_at(s, j);
            lemma_lookup_at(n, j);
        } else {
            if has_key(n, k2) {
                let j = choose|j: int| 0 <= j < n.len() && #[trigger] n[j].0 == k2;
                assert(j < s.len());
                assert(s[j].0 == k2);
            }
        }
    }
}

pub proof fn lemma_lookup_remove<V>(s: Seq<(Seq<char>, V)>, i: int)
    requires
        unique_keys(s),
        0 <= i < s.len(),
    ensures
        unique_keys(s.remove(i)),
        lookup(s.remove(i), s[i].0) is None,
        forall|k: Seq<char>| k != s[i].0 ==> #[trigger] lookup(s.remove(i), k) == lookup(s, k),
{
    let n = s.remove(i);
    assert(unique_keys(n)) by {
        assert forall|a: int, b: int|
            0 <= a < n.len() && 0 <= b < n.len() && a != b implies #[trigger] n[a].0 != #[trigger] n[b].0 by {
            let sa = if a < i { a } else { a + 1 };
            let sb = if b < i { b } else { b + 1 };
            assert(n[a] == s[sa]);
            assert(n[b] == s[sb]);
        }
    }
    assert(!has_key(n, s[i].0)) by {
        if has_key(n, s[i].0) {
            let j = choose|j: int| 0 <= j < n.len() && #[trigger] n[j].0 == s[i].0;
            let sj = if j < i { j } else { j + 1 };
            assert(n[j] == s[sj]);
        }
    }
    assert forall|k: Seq<char>| k != s[i].0 implies #[trigger] lookup(n, k) == lookup(s, k) by {
        if has_key(s, k) {
            let j = choose|j: int| 0 <= j < s.len() && #[trigger] s[j].0 == k;
            assert(j != i);
            let nj = if j < i { j } else { j - 1 };
            assert(n[nj] == s[j]);
            lemma_lookup_at(s, j);
            lemma_lookup_at(n, nj);
        } else {
            if has_key(n, k) {
                let j = choose|j: int| 0 <= j < n.len() && #[trigger] n[j].0 == k;
                let sj = if j < i { j } else { j + 1 };
                assert(n[j] == s[sj]);
            }
        }
    }
}

/// Index of the entry whose key (given by `key_of`) equals `k`.
pub fn find_key(ks: &[String], k: &str) -> (r: Option<usize>)
    ensures
        match r {
            Some(i) => i < ks@.len() && ks@[i as int]@ == k@,
            None => forall|i: int| 0 <= i < ks@.len() ==> #[trigger] ks@[i]@ != k@,
        },
{
    let mut i: usize = 0;
    while i < ks.len()
        invariant
            i <= ks@.len(),
            forall|j: int| 0 <= j < i ==> #[trigger] ks@[j]@ != k@,
        decreases ks.len() - i,
    {
        if str_eq(ks[i].as_str(), k) {
            return Some(i);
        }
        i = i + 1;
    }
    None
}

} // verus!
