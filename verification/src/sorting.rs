//! Stable ordering of positions by a key.
use vstd::prelude::*;

verus! {

/// Position `i` comes before position `j`: by ascending key, and in list order
/// among equals.
pub open spec fn before(keys: Seq<Option<i128>>, i: int, j: int) -> bool {
    keys[i]->0 < keys[j]->0 || (keys[i]->0 == keys[j]->0 && i < j)
}

/// `order` lists the positions that have a key, each once, by ascending key
/// and in list order among equals.
pub open spec fn ranking(keys: Seq<Option<i128>>, order: Seq<int>) -> bool {
    &&& forall|k: int|
        0 <= k < order.len() ==> 0 <= #[trigger] order[k] < keys.len() && keys[order[k]] is Some
    &&& forall|i: int| 0 <= i < keys.len() && (#[trigger] keys[i]) is Some ==> order.contains(i)
    &&& forall|a: int, b: int|
        0 <= a < b < order.len() ==> before(keys, #[trigger] order[a], #[trigger] order[b])
}

/// The numbers of a list of machine integers.
pub open spec fn positions(order: Seq<usize>) -> Seq<int> {
    order.map_values(|i: usize| i as int)
}

/// There is one such order only.
pub proof fn ranking_is_unique(keys: Seq<Option<i128>>, p: Seq<int>, q: Seq<int>)
    requires
        ranking(keys, p),
        ranking(keys, q),
    ensures
        p == q,
{
    lemma_same_prefix(keys, p, q, p.len() as int);
    lemma_same_prefix(keys, q, p, q.len() as int);
    assert(p =~= q);
}

proof fn lemma_same_prefix(keys: Seq<Option<i128>>, p: Seq<int>, q: Seq<int>, n: int)
    requires
        ranking(keys, p),
        ranking(keys, q),
        0 <= n <= p.len(),
    ensures
        n <= q.len(),
        forall|k: int| 0 <= k < n ==> p[k] == q[k],
    decreases n,
{
    if n > 0 {
        lemma_same_prefix(keys, p, q, n - 1);
        let x = p[n - 1];
        assert(q.contains(x));
        let at = choose|k: int| 0 <= k < q.len() && q[k] == x;
        if at < n - 1 {
            assert(p[at] == q[at]);
            assert(before(keys, p[at], p[n - 1]));
        } else if at > n - 1 {
            let y = q[n - 1];
            assert(p.contains(y));
            let from = choose|k: int| 0 <= k < p.len() && p[k] == y;
            assert(before(keys, q[n - 1], q[at]));
            if from < n - 1 {
                assert(p[from] == q[from]);
                assert(before(keys, q[from], q[n - 1]));
            } else if from > n - 1 {
                assert(before(keys, p[n - 1], p[from]));
            }
        }
    }
}

/// `order` lists the positions below `i`, as `ranking` asks.
spec fn partial_ranking(keys: Seq<Option<i128>>, order: Seq<usize>, i: int) -> bool {
    &&& forall|k: int|
        0 <= k < order.len() ==> #[trigger] order[k] < i && keys[order[k] as int] is Some
    &&& forall|m: int| 0 <= m < i && (#[trigger] keys[m]) is Some ==> order.contains(m as usize)
    &&& forall|a: int, b: int|
        0 <= a < b < order.len() ==> before(
            keys,
            #[trigger] order[a] as int,
            #[trigger] order[b] as int,
        )
}

proof fn lemma_inserted(keys: Seq<Option<i128>>, old_order: Seq<usize>, at: int, i: usize)
    requires
        i < keys.len(),
        0 <= at <= old_order.len(),
        partial_ranking(keys, old_order, i as int),
        keys[i as int] is Some,
        forall|k: int|
            0 <= k < at ==> keys[#[trigger] old_order[k] as int]->0 <= keys[i as int]->0,
        at < old_order.len() ==> keys[old_order[at] as int]->0 > keys[i as int]->0,
    ensures
        partial_ranking(keys, old_order.insert(at, i), i + 1),
{
    let order = old_order.insert(at, i);
    assert forall|k: int| at <= k < old_order.len() implies keys[#[trigger] old_order[k] as int]->0
        > keys[i as int]->0 by {
        if k > at {
            assert(before(keys, old_order[at] as int, old_order[k] as int));
        }
    }
    assert forall|k: int| 0 <= k < order.len() implies #[trigger] order[k] < i + 1
        && keys[order[k] as int] is Some by {
        if k < at {
            assert(order[k] == old_order[k]);
        } else if k > at {
            assert(order[k] == old_order[k - 1]);
        }
    }
    assert forall|m: int| 0 <= m < i + 1 && (#[trigger] keys[m]) is Some implies order.contains(
        m as usize,
    ) by {
        if m == i {
            assert(order[at] == i);
        } else {
            assert(old_order.contains(m as usize));
            let k = choose|k: int| 0 <= k < old_order.len() && old_order[k] == m as usize;
            if k < at {
                assert(order[k] == m as usize);
            } else {
                assert(order[k + 1] == m as usize);
            }
        }
    }
    assert forall|a: int, b: int| 0 <= a < b < order.len() implies before(
        keys,
        #[trigger] order[a] as int,
        #[trigger] order[b] as int,
    ) by {
        if a == at {
            assert(order[b] == old_order[b - 1]);
        } else if b == at {
            assert(order[a] == old_order[a]);
        } else {
            let x = if a < at {
                a
            } else {
                a - 1
            };
            let y = if b < at {
                b
            } else {
                b - 1
            };
            assert(order[a] == old_order[x] && order[b] == old_order[y]);
            assert(before(keys, old_order[x] as int, old_order[y] as int));
        }
    }
}

proof fn lemma_complete(keys: Seq<Option<i128>>, order: Seq<usize>)
    requires
        keys.len() <= usize::MAX,
        partial_ranking(keys, order, keys.len() as int),
    ensures
        ranking(keys, positions(order)),
{
    let all = positions(order);
    assert forall|m: int| 0 <= m < keys.len() && (#[trigger] keys[m]) is Some implies all.contains(
        m,
    ) by {
        assert(order.contains(m as usize));
        let k = choose|k: int| 0 <= k < order.len() && order[k] == m as usize;
        assert(all[k] == m);
    }
    assert forall|k: int| 0 <= k < all.len() implies 0 <= #[trigger] all[k] < keys.len()
        && keys[all[k]] is Some by {
        assert(all[k] == order[k] as int);
    }
    assert forall|a: int, b: int| 0 <= a < b < all.len() implies before(
        keys,
        #[trigger] all[a],
        #[trigger] all[b],
    ) by {
        assert(all[a] == order[a] as int && all[b] == order[b] as int);
    }
}

/// Where position `i` belongs in `order`: behind every position whose key is
/// not greater.
fn place(keys: &Vec<Option<i128>>, order: &Vec<usize>, i: usize, key: i128) -> (at: usize)
    requires
        i < keys@.len(),
        keys@[i as int] == Some(key),
        forall|k: int|
            0 <= k < order@.len() ==> #[trigger] order@[k] < keys@.len()
                && keys@[order@[k] as int] is Some,
    ensures
        at <= order@.len(),
        forall|k: int| 0 <= k < at ==> keys@[#[trigger] order@[k] as int]->0 <= key,
        at < order@.len() ==> keys@[order@[at as int] as int]->0 > key,
{
    let mut at: usize = 0;
    while at < order.len()
        invariant
            i < keys@.len(),
            at <= order@.len(),
            forall|k: int|
                0 <= k < order@.len() ==> #[trigger] order@[k] < keys@.len()
                    && keys@[order@[k] as int] is Some,
            forall|k: int| 0 <= k < at ==> keys@[#[trigger] order@[k] as int]->0 <= key,
        decreases order@.len() - at,
    {
        if let Some(other) = keys[order[at]] {
            if other > key {
                return at;
            }
        }
        at += 1;
    }
    at
}

/// The positions that have a key, by ascending key and in list order among
/// equals.
pub fn rank_by(keys: &Vec<Option<i128>>) -> (r: Vec<usize>)
    ensures
        ranking(keys@, positions(r@)),
{
    let mut order: Vec<usize> = Vec::new();
    let mut i: usize = 0;
    while i < keys.len()
        invariant
            i <= keys@.len(),
            partial_ranking(keys@, order@, i as int),
        decreases keys@.len() - i,
    {
        if let Some(key) = keys[i] {
            let at: usize = place(keys, &order, i, key);
            proof {
                lemma_inserted(keys@, order@, at as int, i);
            }
            order.insert(at, i);
        }
        i += 1;
    }
    proof {
        lemma_complete(keys@, order@);
    }
    order
}

} // verus!
