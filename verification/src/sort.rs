//! Stable sorting by string keys, as `sort_by_key` / `sort_by` with
//! `String::cmp` do it. The sort yields the order of the indices, so that the
//! callers can walk their own entries in that order.
use vstd::prelude::*;
use crate::text::{lex_lt, lex_le, str_lt, lemma_lex_total, lemma_lex_transitive, lemma_lex_irreflexive};

verus! {

/// The views of a list of strings.
pub open spec fn string_views(v: Seq<String>) -> Seq<Seq<char>> {
    v.map_values(|s: String| s@)
}

/// Where index `i` goes when it is inserted into `order` at or after
/// position `q`: before the first index whose key is strictly greater.
pub open spec fn insert_pos(keys: Seq<Seq<char>>, order: Seq<int>, i: int, q: int) -> int
    decreases order.len() - q,
{
    if q >= order.len() {
        order.len() as int
    } else if lex_lt(keys[i], keys[order[q]]) {
        q
    } else {
        insert_pos(keys, order, i, q + 1)
    }
}

/// The stable sorted order of the first `n` indices of `keys`.
pub open spec fn sorted_prefix(keys: Seq<Seq<char>>, n: nat) -> Seq<int>
    decreases n,
{
    if n == 0 {
        Seq::empty()
    } else {
        let o = sorted_prefix(keys, (n - 1) as nat);
        o.insert(insert_pos(keys, o, n - 1, 0), n - 1)
    }
}

/// The stable sorted order of all indices of `keys`: `order[k]` is the index
/// of the entry that comes `k`-th.
pub open spec fn sort_order(keys: Seq<Seq<char>>) -> Seq<int> {
    sorted_prefix(keys, keys.len())
}

/// `order` lists each of `0..n` exactly once.
pub open spec fn is_permutation_of_range(order: Seq<int>, n: int) -> bool {
    &&& order.len() == n
    &&& forall|k: int| 0 <= k < order.len() ==> 0 <= #[trigger] order[k] < n
    &&& forall|a: int, b: int| 0 <= a < order.len() && 0 <= b < order.len() && a != b ==> order[a] != order[b]
    &&& forall|i: int| 0 <= i < n ==> #[trigger] holds_index(order, i)
}

/// `i` occurs in `order`.
pub open spec fn holds_index(order: Seq<int>, i: int) -> bool {
    exists|k: int| 0 <= k < order.len() && order[k] == i
}

/// The keys along `order` never go down.
pub open spec fn keys_sorted_along(keys: Seq<Seq<char>>, order: Seq<int>) -> bool {
    forall|a: int, b: int| #![trigger order[a], order[b]] 0 <= a < b < order.len() ==> lex_le(keys[order[a]], keys[order[b]])
}

/// Entries with equal keys keep their relative order.
pub open spec fn ties_in_input_order(keys: Seq<Seq<char>>, order: Seq<int>) -> bool {
    forall|a: int, b: int| #![trigger order[a], order[b]] 0 <= a < b < order.len() && keys[order[a]] == keys[order[b]] ==> order[a] < order[b]
}

proof fn lemma_insert_pos(keys: Seq<Seq<char>>, order: Seq<int>, i: int, q: int)
    requires
        0 <= q <= order.len(),
    ensures
        q <= insert_pos(keys, order, i, q) <= order.len(),
        forall|r: int| q <= r < insert_pos(keys, order, i, q) ==> !lex_lt(keys[i], keys[order[r]]),
        insert_pos(keys, order, i, q) < order.len() ==> lex_lt(
            keys[i],
            keys[order[insert_pos(keys, order, i, q)]],
        ),
    decreases order.len() - q,
{
    if q < order.len() && !lex_lt(keys[i], keys[order[q]]) {
        lemma_insert_pos(keys, order, i, q + 1);
    }
}

proof fn lemma_step(keys: Seq<Seq<char>>, o: Seq<int>, i: int, p: int, a: int, b: int)
    requires
        0 <= p <= o.len(),
        0 <= a < b < o.len() + 1,
        i < keys.len(),
        forall|k: int| 0 <= k < o.len() ==> 0 <= #[trigger] o[k] < i,
        keys_sorted_along(keys, o),
        ties_in_input_order(keys, o),
        forall|r: int| 0 <= r < p ==> !lex_lt(keys[i], keys[o[r]]),
        p < o.len() ==> lex_lt(keys[i], keys[o[p]]),
    ensures
        lex_le(keys[o.insert(p, i)[a]], keys[o.insert(p, i)[b]]),
        keys[o.insert(p, i)[a]] == keys[o.insert(p, i)[b]] ==> o.insert(p, i)[a] < o.insert(p, i)[b],
{
    let o2 = o.insert(p, i);
    if a != p && b != p {
        let a0 = if a < p { a } else { a - 1 };
        let b0 = if b < p { b } else { b - 1 };
        assert(o2[a] == o[a0]);
        assert(o2[b] == o[b0]);
    } else if a == p {
        let b0 = b - 1;
        assert(o2[b] == o[b0]);
        assert(o2[a] == i);
        if b0 > p {
            assert(lex_le(keys[o[p]], keys[o[b0]]));
            if keys[o[p]] != keys[o[b0]] {
                lemma_lex_transitive(keys[i], keys[o[p]], keys[o[b0]]);
            }
        }
        lemma_lex_irreflexive(keys[i]);
    } else {
        assert(o2[a] == o[a]);
        assert(o2[b] == i);
        assert(!lex_lt(keys[i], keys[o[a]]));
        lemma_lex_total(keys[i], keys[o[a]]);
    }
}

/// The stable insertion order is a permutation of the indices, sorted by key,
/// with ties in input order.
pub proof fn lemma_sorted_prefix(keys: Seq<Seq<char>>, n: nat)
    requires
        n <= keys.len(),
    ensures
        is_permutation_of_range(sorted_prefix(keys, n), n as int),
        keys_sorted_along(keys, sorted_prefix(keys, n)),
        ties_in_input_order(keys, sorted_prefix(keys, n)),
    decreases n,
{
    if n > 0 {
        let m = (n - 1) as nat;
        lemma_sorted_prefix(keys, m);
        let o = sorted_prefix(keys, m);
        let i = n - 1;
        let p = insert_pos(keys, o, i, 0);
        lemma_insert_pos(keys, o, i, 0);
        let o2 = o.insert(p, i);
        assert(o2 == sorted_prefix(keys, n));
        assert forall|k: int| 0 <= k < o2.len() implies 0 <= #[trigger] o2[k] < n by {
            if k < p {
                assert(o2[k] == o[k]);
            } else if k > p {
                assert(o2[k] == o[k - 1]);
            }
        }
        assert forall|j: int| 0 <= j < n implies #[trigger] holds_index(o2, j) by {
            if j == n - 1 {
                assert(o2[p] == j);
            } else {
                assert(holds_index(o, j));
                let k = choose|k: int| 0 <= k < o.len() && o[k] == j;
                if k < p {
                    assert(o2[k] == j);
                } else {
                    assert(o2[k + 1] == j);
                }
            }
        }
        assert forall|a: int, b: int| 0 <= a < o2.len() && 0 <= b < o2.len() && a != b implies o2[a]
            != o2[b] by {
            if a != p && b != p {
                let a0 = if a < p { a } else { a - 1 };
                let b0 = if b < p { b } else { b - 1 };
                assert(o2[a] == o[a0]);
                assert(o2[b] == o[b0]);
            } else if a == p {
                let b0 = if b < p { b } else { b - 1 };
                assert(o2[b] == o[b0]);
            } else {
                let a0 = if a < p { a } else { a - 1 };
                assert(o2[a] == o[a0]);
            }
        }
        assert forall|a: int, b: int| #![trigger o2[a], o2[b]] 0 <= a < b < o2.len() implies lex_le(
            keys[o2[a]],
            keys[o2[b]],
        ) && (keys[o2[a]] == keys[o2[b]] ==> o2[a] < o2[b]) by {
            lemma_step(keys, o, i, p, a, b);
        }
        assert(keys_sorted_along(keys, o2));
        assert(ties_in_input_order(keys, o2));
    }
}

/// `sort_order(keys)` lists each index once, by key, ties in input order.
pub proof fn lemma_sort_order(keys: Seq<Seq<char>>)
    ensures
        is_permutation_of_range(sort_order(keys), keys.len() as int),
        keys_sorted_along(keys, sort_order(keys)),
        ties_in_input_order(keys, sort_order(keys)),
{
    lemma_sorted_prefix(keys, keys.len());
}

/// The indices of `keys` in stable sorted order of the keys.
pub fn sort_indices(keys: &Vec<String>) -> (r: Vec<usize>)
    ensures
        r@.map_values(|x: usize| x as int) == sort_order(string_views(keys@)),
        forall|k: int| 0 <= k < r@.len() ==> (#[trigger] r@[k]) < keys@.len(),
{
    let ghost ks = string_views(keys@);
    let n = keys.len();
    let mut order: Vec<usize> = Vec::new();
    let mut i: usize = 0;
    while i < n
        invariant
            n == keys@.len(),
            ks == string_views(keys@),
            i <= n,
            order@.map_values(|x: usize| x as int) == sorted_prefix(ks, i as nat),
            forall|k: int| 0 <= k < order@.len() ==> (#[trigger] order@[k]) < i,
        decreases n - i,
    {
        let ghost o = sorted_prefix(ks, i as nat);
        let mut q: usize = 0;
        while q < order.len() && !str_lt(keys[i].as_str(), keys[order[q]].as_str())
            invariant
                n == keys@.len(),
                ks == string_views(keys@),
                i < n,
                q <= order@.len(),
                order@.map_values(|x: usize| x as int) == o,
                forall|k: int| 0 <= k < order@.len() ==> (#[trigger] order@[k]) < i,
                insert_pos(ks, o, i as int, 0) == insert_pos(ks, o, i as int, q as int),
            decreases order@.len() - q,
        {
            assert(o[q as int] == order@[q as int] as int);
            q = q + 1;
        }
        proof {
            if q < order.len() {
                assert(o[q as int] == order@[q as int] as int);
            }
        }
        let ghost before = order@;
        order.insert(q, i);
        proof {
            assert(order@.map_values(|x: usize| x as int) =~= o.insert(q as int, i as int));
            assert forall|k: int| 0 <= k < order@.len() implies (#[trigger] order@[k]) < i + 1 by {
                if k < q {
                    assert(order@[k] == before[k]);
                } else if k > q {
                    assert(order@[k] == before[k - 1]);
                }
            }
        }
        i = i + 1;
    }
    assert(ks.len() == n);
    order
}

} // verus!
