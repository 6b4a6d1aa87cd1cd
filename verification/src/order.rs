//! A stable insertion sort over any type that carries its own strict order.

use vstd::prelude::*;

verus! {

/// A strict order on values, with an executable test.
pub trait Ranked: Sized {
    /// `a` sorts strictly before `b`.
    spec fn ranks_before(a: Self, b: Self) -> bool;

    proof fn lemma_ranks_irrefl(a: Self)
        ensures
            !Self::ranks_before(a, a),
    ;

    proof fn lemma_ranks_trans(a: Self, b: Self, c: Self)
        requires
            Self::ranks_before(a, b),
            Self::ranks_before(b, c),
        ensures
            Self::ranks_before(a, c),
    ;

    /// The order ranks by a key: whatever `c` is, `a` before `b` puts `a`
    /// before `c` or `c` before `b`.
    proof fn lemma_ranks_split(a: Self, b: Self, c: Self)
        requires
            Self::ranks_before(a, b),
        ensures
            Self::ranks_before(a, c) || Self::ranks_before(c, b),
    ;

    fn precedes(&self, other: &Self) -> (r: bool)
        ensures
            r == Self::ranks_before(*self, *other),
    ;
}

impl Ranked for i32 {
    open spec fn ranks_before(a: i32, b: i32) -> bool {
        a < b
    }

    proof fn lemma_ranks_irrefl(a: i32) {
    }

    proof fn lemma_ranks_trans(a: i32, b: i32, c: i32) {
    }

    proof fn lemma_ranks_split(a: i32, b: i32, c: i32) {
    }

    fn precedes(&self, other: &i32) -> (r: bool) {
        *self < *other
    }
}

/// No element sorts strictly before one that comes earlier.
pub open spec fn ranked_sorted<T: Ranked>(s: Seq<T>) -> bool {
    forall|i: int, j: int| 0 <= i < j < s.len() ==> !T::ranks_before(#[trigger] s[j], #[trigger] s[i])
}

/// `out` holds the elements of `input` rearranged by `perm` (`out[i]` is
/// `input[perm[i]]`, each index once), and two elements of which neither
/// ranks before the other keep their order from `input`.
pub open spec fn stably_rearranged<T: Ranked>(input: Seq<T>, out: Seq<T>, perm: Seq<int>) -> bool {
    &&& perm.len() == out.len()
    &&& out.len() == input.len()
    &&& forall|i: int| 0 <= i < out.len() ==> 0 <= #[trigger] perm[i] < input.len() && out[i] == input[perm[i]]
    &&& forall|i: int, j: int| 0 <= i < j < out.len() ==> #[trigger] perm[i] != #[trigger] perm[j]
    &&& forall|i: int, j: int|
        0 <= i < j < out.len() && !T::ranks_before(#[trigger] out[i], #[trigger] out[j]) ==> perm[i] < perm[j]
}

/// Sorts `v` by `ranks_before`; elements that compare equal keep their order.
pub fn sort_ranked<T: Ranked>(v: Vec<T>) -> (r: Vec<T>)
    ensures
        r@.to_multiset() == v@.to_multiset(),
        ranked_sorted(r@),
        exists|perm: Seq<int>| stably_rearranged(v@, r@, perm),
{
    let mut src = v;
    let ghost input = src@;
    let ghost mut perm: Seq<int> = Seq::empty();
    let mut out: Vec<T> = Vec::new();
    let mut k: usize = 0;
    proof {
        broadcast use vstd::seq_lib::group_to_multiset_ensures;
        broadcast use vstd::multiset::group_multiset_axioms;
        assert(out@ =~= Seq::<T>::empty());
        assert(input.len() == src.len());
        assert(src@ =~= input.subrange(0, input.len() as int));
        assert(out@.to_multiset().add(src@.to_multiset()) =~= input.to_multiset());
    }
    // Take the elements in input order; each goes in front of the first
    // element it ranks before.
    while src.len() > 0
        invariant
            k <= input.len() <= usize::MAX,
            src@ == input.subrange(k as int, input.len() as int),
            out@.len() == k,
            perm.len() == k,
            out@.to_multiset().add(src@.to_multiset()) == input.to_multiset(),
            ranked_sorted(out@),
            forall|i: int| 0 <= i < k ==> 0 <= #[trigger] perm[i] < k && out@[i] == input[perm[i]],
            forall|i: int, j: int| 0 <= i < j < k ==> #[trigger] perm[i] != #[trigger] perm[j],
            forall|i: int, j: int|
                0 <= i < j < k && !T::ranks_before(#[trigger] out@[i], #[trigger] out@[j]) ==> perm[i] < perm[j],
        decreases src.len(),
    {
        let ghost before = src@;
        let x = src.remove(0);
        let mut p: usize = 0;
        while p < out.len() && !x.precedes(&out[p])
            invariant
                p <= out@.len(),
                forall|q: int| 0 <= q < p ==> !T::ranks_before(x, #[trigger] out@[q]),
            decreases out.len() - p,
        {
            p = p + 1;
        }
        let ghost o = out@;
        let ghost po = perm;
        proof {
            assert(x == input[k as int]);
            assert(src@ =~= input.subrange(k + 1, input.len() as int));
            assert forall|q: int| p <= q < o.len() implies T::ranks_before(x, #[trigger] o[q]) by {
                if q > p {
                    T::lemma_ranks_split(x, o[p as int], o[q]);
                }
            }
            let n = o.insert(p as int, x);
            let np = po.insert(p as int, k as int);
            assert forall|i: int, j: int| 0 <= i < j < n.len() implies !T::ranks_before(#[trigger] n[j], #[trigger] n[i]) by {
                if i < p && j < p {
                } else if i < p && j == p {
                } else if i < p && j > p {
                    assert(n[j] == o[j - 1]);
                } else if i == p {
                    assert(n[j] == o[j - 1]);
                    if T::ranks_before(o[j - 1], x) {
                        T::lemma_ranks_trans(x, o[j - 1], x);
                        T::lemma_ranks_irrefl(x);
                    }
                } else {
                    assert(n[i] == o[i - 1]);
                    assert(n[j] == o[j - 1]);
                }
            }
            assert forall|i: int| 0 <= i < k + 1 implies 0 <= #[trigger] np[i] < k + 1 && n[i] == input[np[i]] by {
                if i > p {
                    assert(np[i] == po[i - 1]);
                    assert(n[i] == o[i - 1]);
                }
            }
            assert forall|i: int, j: int| 0 <= i < j < k + 1 implies #[trigger] np[i] != #[trigger] np[j] by {
                if i < p && j > p {
                    assert(np[j] == po[j - 1]);
                } else if i == p {
                    assert(np[j] == po[j - 1]);
                } else if i > p {
                    assert(np[i] == po[i - 1]);
                    assert(np[j] == po[j - 1]);
                }
            }
            assert forall|i: int, j: int|
                0 <= i < j < k + 1 && !T::ranks_before(#[trigger] n[i], #[trigger] n[j]) implies np[i] < np[j] by {
                if i < p && j > p {
                    assert(np[j] == po[j - 1]);
                    assert(n[j] == o[j - 1]);
                } else if i == p {
                    assert(n[j] == o[j - 1]);
                    assert(T::ranks_before(x, o[j - 1]));
                } else if i > p {
                    assert(np[i] == po[i - 1]);
                    assert(np[j] == po[j - 1]);
                    assert(n[i] == o[i - 1]);
                    assert(n[j] == o[j - 1]);
                }
            }
            perm = np;
        }
        out.insert(p, x);
        k = k + 1;
        proof {
            broadcast use vstd::seq_lib::group_to_multiset_ensures;
            broadcast use vstd::multiset::group_multiset_axioms;
            assert(before =~= src@.insert(0, x));
            assert(out@.to_multiset().add(src@.to_multiset()) =~= input.to_multiset());
        }
    }
    proof {
        broadcast use vstd::seq_lib::group_to_multiset_ensures;
        broadcast use vstd::multiset::group_multiset_axioms;
        assert(src@ =~= Seq::<T>::empty());
        assert(out@.to_multiset() =~= input.to_multiset());
        assert(stably_rearranged(input, out@, perm));
    }
    out
}

} // verus!
