//! Stable sorting by string keys, under either code-point order or natural
//! order.
//!
//! A sort is described by the order in which it takes the input positions:
//! `is_stable_sort_of(natural, keys, p)` says that `p` lists every position
//! of `keys` once, in increasing key order, and equal keys in their original
//! order. Such an order is unique (`lemma_stable_sort_unique`), so
//! `stable_order` names it.

use vstd::prelude::*;
use crate::natord::{
    NatOrder, natural_order, natural_order_chars, flip, lemma_natural_order_reflexive,
    lemma_natural_order_antisymmetric, lemma_natural_order_transitive,
};
use crate::text::{char_seq_order, char_seq_order_exec, lemma_char_seq_order_laws};

verus! {

/// The key order used by a sort: natural order or code-point order.
pub open spec fn key_order(natural: bool, a: Seq<char>, b: Seq<char>) -> NatOrder {
    if natural {
        natural_order(a, b)
    } else {
        char_seq_order(a, b)
    }
}

/// Position `i` comes before position `j` in a stable sort of `keys`.
pub open spec fn ranks_before(natural: bool, keys: Seq<Seq<char>>, i: int, j: int) -> bool {
    let o = key_order(natural, keys[i], keys[j]);
    o == NatOrder::Less || (o == NatOrder::Equal && i < j)
}

/// Value `v` occurs in `p`.
pub open spec fn lists(p: Seq<usize>, v: int) -> bool {
    exists|k: int| 0 <= k < p.len() && p[k] == v
}

/// `p` is the order in which a stable sort of `keys` takes the positions.
pub open spec fn is_stable_sort_of(natural: bool, keys: Seq<Seq<char>>, p: Seq<usize>) -> bool {
    &&& p.len() == keys.len()
    &&& forall|k: int| 0 <= k < p.len() ==> #[trigger] p[k] < keys.len()
    &&& forall|v: int| 0 <= v < keys.len() ==> #[trigger] lists(p, v)
    &&& forall|k: int, l: int|
        0 <= k < l < p.len() ==> ranks_before(natural, keys, #[trigger] p[k] as int, #[trigger] p[l] as int)
}

/// The (unique) stable sort order of `keys`.
pub open spec fn stable_order(natural: bool, keys: Seq<Seq<char>>) -> Seq<usize> {
    choose|p: Seq<usize>| is_stable_sort_of(natural, keys, p)
}

/// `items` taken in the order `p`.
pub open spec fn permuted<T>(items: Seq<T>, p: Seq<usize>) -> Seq<T> {
    Seq::new(p.len(), |k: int| items[p[k] as int])
}

/// Reflexivity, antisymmetry and transitivity of both key orders.
pub proof fn lemma_key_order_laws(natural: bool, a: Seq<char>, b: Seq<char>, c: Seq<char>)
    ensures
        key_order(natural, a, a) == NatOrder::Equal,
        key_order(natural, b, a) == flip(key_order(natural, a, b)),
        key_order(natural, a, b) != NatOrder::Greater && key_order(natural, b, c)
            != NatOrder::Greater ==> key_order(natural, a, c) != NatOrder::Greater,
        key_order(natural, a, b) == NatOrder::Less && key_order(natural, b, c)
            != NatOrder::Greater ==> key_order(natural, a, c) == NatOrder::Less,
        key_order(natural, a, b) != NatOrder::Greater && key_order(natural, b, c)
            == NatOrder::Less ==> key_order(natural, a, c) == NatOrder::Less,
{
    if natural {
        lemma_natural_order_reflexive(a);
        lemma_natural_order_antisymmetric(a, b);
        lemma_natural_order_transitive(a, b, c);
    } else {
        lemma_char_seq_order_laws(a, b, c);
        lemma_char_seq_order_laws(b, c, c);
    }
}

proof fn lemma_ranks_before_strict(natural: bool, keys: Seq<Seq<char>>, i: int, j: int)
    requires
        0 <= i < keys.len(),
        0 <= j < keys.len(),
    ensures
        !ranks_before(natural, keys, i, i),
        ranks_before(natural, keys, i, j) ==> !ranks_before(natural, keys, j, i),
        i != j ==> ranks_before(natural, keys, i, j) || ranks_before(natural, keys, j, i),
{
    lemma_key_order_laws(natural, keys[i], keys[j], keys[j]);
}

proof fn lemma_ranks_before_transitive(
    natural: bool,
    keys: Seq<Seq<char>>,
    i: int,
    j: int,
    l: int,
)
    requires
        0 <= i < keys.len(),
        0 <= j < keys.len(),
        0 <= l < keys.len(),
        ranks_before(natural, keys, i, j),
        ranks_before(natural, keys, j, l),
    ensures
        ranks_before(natural, keys, i, l),
{
    lemma_key_order_laws(natural, keys[i], keys[j], keys[l]);
    lemma_key_order_laws(natural, keys[l], keys[j], keys[i]);
    lemma_key_order_laws(natural, keys[i], keys[l], keys[l]);
}

/// A stable sort order is unique.
pub proof fn lemma_stable_sort_unique(
    natural: bool,
    keys: Seq<Seq<char>>,
    p: Seq<usize>,
    q: Seq<usize>,
)
    requires
        is_stable_sort_of(natural, keys, p),
        is_stable_sort_of(natural, keys, q),
    ensures
        p == q,
{
    if p.len() > 0 {
        lemma_sort_prefix_agree(natural, keys, p, q, p.len() - 1);
    }
    assert(p =~= q);
}

proof fn lemma_sort_prefix_agree(
    natural: bool,
    keys: Seq<Seq<char>>,
    p: Seq<usize>,
    q: Seq<usize>,
    k: int,
)
    requires
        is_stable_sort_of(natural, keys, p),
        is_stable_sort_of(natural, keys, q),
        0 <= k < p.len(),
    ensures
        forall|m: int| 0 <= m <= k ==> p[m] == q[m],
    decreases k,
{
    if k > 0 {
        lemma_sort_prefix_agree(natural, keys, p, q, k - 1);
    }
    if p[k] != q[k] {
        let v = p[k] as int;
        let w = q[k] as int;
        assert(lists(q, v));
        assert(lists(p, w));
        let l = choose|l: int| 0 <= l < q.len() && q[l] == v;
        let m = choose|m: int| 0 <= m < p.len() && p[m] == w;
        lemma_ranks_before_strict(natural, keys, v, w);
        lemma_ranks_before_strict(natural, keys, v, v);
        lemma_ranks_before_strict(natural, keys, w, w);
        if l < k {
            assert(p[l] == q[l]);
            assert(ranks_before(natural, keys, p[l] as int, p[k] as int));
        } else if m < k {
            assert(p[m] == q[m]);
            assert(ranks_before(natural, keys, q[m] as int, q[k] as int));
        } else {
            assert(ranks_before(natural, keys, q[k] as int, q[l] as int));
            assert(ranks_before(natural, keys, p[k] as int, p[m] as int));
        }
    }
}

/// A stable sort lists every position exactly once, with keys in
/// non-decreasing order.
pub proof fn lemma_stable_sort_sorted(natural: bool, keys: Seq<Seq<char>>, p: Seq<usize>)
    requires
        is_stable_sort_of(natural, keys, p),
    ensures
        forall|k: int, l: int|
            0 <= k < l < p.len() ==> key_order(natural, keys[#[trigger] p[k] as int], keys[#[trigger] p[l] as int])
                != NatOrder::Greater,
        forall|k: int, l: int| 0 <= k < l < p.len() ==> #[trigger] p[k] != #[trigger] p[l],
        forall|v: int| 0 <= v < keys.len() ==> #[trigger] lists(p, v),
{
    assert forall|k: int, l: int| 0 <= k < l < p.len() implies #[trigger] p[k] != #[trigger] p[l] by {
        lemma_ranks_before_strict(natural, keys, p[k] as int, p[k] as int);
    }
}

/// `stable_order` is the order any stable sort produces.
pub proof fn lemma_stable_order_is(natural: bool, keys: Seq<Seq<char>>, p: Seq<usize>)
    requires
        is_stable_sort_of(natural, keys, p),
    ensures
        stable_order(natural, keys) == p,
{
    let q = stable_order(natural, keys);
    assert(is_stable_sort_of(natural, keys, q));
    lemma_stable_sort_unique(natural, keys, p, q);
}

/// The views of a vector of keys.
pub open spec fn key_views(keys: Seq<Vec<char>>) -> Seq<Seq<char>> {
    Seq::new(keys.len(), |i: int| keys[i]@)
}

fn key_order_exec(natural: bool, a: &Vec<char>, b: &Vec<char>) -> (r: NatOrder)
    ensures
        r == key_order(natural, a@, b@),
{
    if natural {
        natural_order_chars(a, b)
    } else {
        char_seq_order_exec(a, b)
    }
}

/// The order in which a stable sort of `keys` takes the positions
/// (insertion sort).
pub fn stable_sort_order(keys: &Vec<Vec<char>>, natural: bool) -> (p: Vec<usize>)
    ensures
        is_stable_sort_of(natural, key_views(keys@), p@),
{
    let ghost kv = key_views(keys@);
    let n = keys.len();
    let mut p: Vec<usize> = Vec::new();
    let mut i: usize = 0;
    while i < n
        invariant
            n == keys.len(),
            kv == key_views(keys@),
            i <= n,
            p.len() == i,
            forall|k: int| 0 <= k < p.len() ==> #[trigger] p[k] < i,
            forall|v: int| 0 <= v < i ==> #[trigger] lists(p@, v),
            forall|k: int, l: int|
                0 <= k < l < p.len() ==> ranks_before(natural, kv, #[trigger] p[k] as int, #[trigger] p[l] as int),
        decreases n - i,
    {
        let mut pos: usize = p.len();
        while pos > 0 && key_order_exec(natural, &keys[p[pos - 1]], &keys[i]) == NatOrder::Greater
            invariant
                n == keys.len(),
                kv == key_views(keys@),
                i < n,
                pos <= p.len(),
                p.len() == i,
                forall|k: int| 0 <= k < p.len() ==> #[trigger] p[k] < i,
                forall|k: int|
                    pos <= k < p.len() ==> key_order(natural, kv[#[trigger] p[k] as int], kv[i as int])
                        == NatOrder::Greater,
            decreases pos,
        {
            pos = pos - 1;
        }
        let ghost old_p = p@;
        p.insert(pos, i);
        proof {
            assert forall|k: int| 0 <= k < p.len() implies #[trigger] p[k] < i + 1 by {
                if k < pos {
                    assert(p[k] == old_p[k]);
                } else if k > pos {
                    assert(p[k] == old_p[k - 1]);
                }
            }
            assert forall|v: int| 0 <= v < i + 1 implies #[trigger] lists(p@, v) by {
                if v == i {
                    assert(p[pos as int] == v);
                } else {
                    assert(lists(old_p, v));
                    let k0 = choose|k: int| 0 <= k < old_p.len() && old_p[k] == v;
                    if k0 < pos {
                        assert(p[k0] == v);
                    } else {
                        assert(p[k0 + 1] == v);
                    }
                }
            }
            if pos > 0 {
                let last = old_p[pos - 1] as int;
                lemma_key_order_laws(natural, kv[last], kv[i as int], kv[i as int]);
                assert(ranks_before(natural, kv, last, i as int));
            }
            assert forall|k: int, l: int| 0 <= k < l < p.len() implies ranks_before(
                natural,
                kv,
                #[trigger] p[k] as int,
                #[trigger] p[l] as int,
            ) by {
                let ok = if k < pos { k } else { k - 1 };
                let ol = if l <= pos { l } else { l - 1 };
                if k != pos && l != pos {
                    assert(p[k] == old_p[ok]);
                    assert(p[l] == old_p[ol]);
                } else if l == pos {
                    assert(p[k] == old_p[k]);
                    if k < pos - 1 {
                        assert(ranks_before(natural, kv, old_p[k] as int, old_p[pos - 1] as int));
                        lemma_ranks_before_transitive(
                            natural,
                            kv,
                            old_p[k] as int,
                            old_p[pos - 1] as int,
                            i as int,
                        );
                    }
                } else {
                    assert(p[l] == old_p[l - 1]);
                    let w = old_p[l - 1] as int;
                    assert(key_order(natural, kv[w], kv[i as int]) == NatOrder::Greater);
                    lemma_key_order_laws(natural, kv[w], kv[i as int], kv[i as int]);
                }
            }
        }
        i = i + 1;
    }
    p
}

} // verus!
