//! Stable ordering of listings: by score (highest first), then recency
//! (newest first), with ties kept in their input order — what
//! `sort_by(|a, b| b.score.cmp(&a.score).then(b.created.cmp(&a.created)))`
//! yields.
use vstd::prelude::*;

verus! {

/// Whether item `a` is listed before item `b` (`a != b`) under the keys
/// `(score, created_at)`: a higher score first, then a later creation time,
/// then the earlier input position.
pub open spec fn ranks_before(keys: Seq<(i64, i64)>, a: int, b: int) -> bool {
    ||| keys[a].0 > keys[b].0
    ||| keys[a].0 == keys[b].0 && keys[a].1 > keys[b].1
    ||| keys[a].0 == keys[b].0 && keys[a].1 == keys[b].1 && a < b
}

/// Whether `order` lists every position of `keys` exactly once, each before
/// every later one under [`ranks_before`]. Since `ranks_before` is a strict
/// total order on positions, exactly one `order` qualifies.
pub open spec fn is_ranking(keys: Seq<(i64, i64)>, order: Seq<usize>) -> bool {
    &&& order.len() == keys.len()
    &&& forall|k: int| 0 <= k < order.len() ==> #[trigger] order[k] < keys.len()
    &&& forall|k: int, l: int|
        0 <= k < l < order.len() ==> ranks_before(keys, #[trigger] order[k] as int, #[trigger] order[l] as int)
}

/// `ranks_before`, computed.
fn ranks_before_exec(keys: &Vec<(i64, i64)>, a: usize, b: usize) -> (r: bool)
    requires
        a < keys@.len(),
        b < keys@.len(),
    ensures
        r == ranks_before(keys@, a as int, b as int),
{
    let (sa, ca) = keys[a];
    let (sb, cb) = keys[b];
    sa > sb || (sa == sb && ca > cb) || (sa == sb && ca == cb && a < b)
}

/// Two distinct positions are always ordered one way or the other.
proof fn lemma_ranks_total(keys: Seq<(i64, i64)>, a: int, b: int)
    requires
        a != b,
    ensures
        ranks_before(keys, a, b) || ranks_before(keys, b, a),
{
}

/// `ranks_before` is transitive.
proof fn lemma_ranks_transitive(keys: Seq<(i64, i64)>, a: int, b: int, c: int)
    requires
        ranks_before(keys, a, b),
        ranks_before(keys, b, c),
    ensures
        ranks_before(keys, a, c),
{
}

/// A ranking lists items by score, highest first, items of equal score
/// newest first, and items with equal score and age in their input order.
pub proof fn law_ranking_orders_by_score_then_recency(keys: Seq<(i64, i64)>, order: Seq<usize>, k: int, l: int)
    requires
        is_ranking(keys, order),
        0 <= k < l < order.len(),
    ensures
        keys[order[k] as int].0 >= keys[order[l] as int].0,
        keys[order[k] as int].0 == keys[order[l] as int].0 ==> keys[order[k] as int].1 >= keys[order[l] as int].1,
        keys[order[k] as int] == keys[order[l] as int] ==> order[k] < order[l],
{
    assert(ranks_before(keys, order[k] as int, order[l] as int));
}

/// A ranking is determined by its keys: two orders that both rank `keys` are
/// the same order, so the listing a ranking produces is exactly the stable
/// sort by score then recency.
pub proof fn law_ranking_unique(keys: Seq<(i64, i64)>, a: Seq<usize>, b: Seq<usize>)
    requires
        is_ranking(keys, a),
        is_ranking(keys, b),
    ensures
        a == b,
{
    let n = keys.len() as int;
    let ai = positions_of(a);
    let bi = positions_of(b);
    lemma_ranking_covers(keys, a);
    lemma_ranking_covers(keys, b);
    let leq = |x: int, y: int| x == y || ranks_before(keys, x, y);
    assert(vstd::relations::total_ordering(leq)) by {
        assert forall|x: int, y: int, z: int| #[trigger] leq(x, y) && #[trigger] leq(y, z) implies leq(x, z) by {
            if x != y && y != z {
                lemma_ranks_transitive(keys, x, y, z);
            }
        }
        assert forall|x: int, y: int| #[trigger] leq(x, y) && #[trigger] leq(y, x) implies x == y by {}
        assert forall|x: int, y: int| #[trigger] leq(x, y) || #[trigger] leq(y, x) by {
            if x != y {
                lemma_ranks_total(keys, x, y);
            }
        }
    }
    assert(vstd::relations::sorted_by(ai, leq)) by {
        assert forall|i: int, j: int| 0 <= i < j < ai.len() implies #[trigger] leq(ai[i], ai[j]) by {
            assert(ranks_before(keys, a[i] as int, a[j] as int));
        }
    }
    assert(vstd::relations::sorted_by(bi, leq)) by {
        assert forall|i: int, j: int| 0 <= i < j < bi.len() implies #[trigger] leq(bi[i], bi[j]) by {
            assert(ranks_before(keys, b[i] as int, b[j] as int));
        }
    }
    lemma_same_multiset(ai, bi, n);
    vstd::seq_lib::lemma_sorted_unique(ai, bi, leq);
    assert forall|i: int| 0 <= i < a.len() implies a[i] == b[i] by {
        assert(ai[i] == bi[i]);
    }
    assert(a =~= b);
}

/// The positions of an order, as integers.
spec fn positions_of(order: Seq<usize>) -> Seq<int> {
    order.map_values(|x: usize| x as int)
}

/// A ranking lists each position `0..n` exactly once.
proof fn lemma_ranking_covers(keys: Seq<(i64, i64)>, order: Seq<usize>)
    requires
        is_ranking(keys, order),
    ensures
        positions_of(order).no_duplicates(),
        positions_of(order).to_set() == vstd::set_lib::set_int_range(0, keys.len() as int),
{
    let s = positions_of(order);
    let n = keys.len() as int;
    assert(s.no_duplicates()) by {
        assert forall|i: int, j: int| 0 <= i < s.len() && 0 <= j < s.len() && i != j implies s[i] != s[j] by {
            if i < j {
                assert(ranks_before(keys, order[i] as int, order[j] as int));
            } else {
                assert(ranks_before(keys, order[j] as int, order[i] as int));
            }
        }
    }
    s.unique_seq_to_set();
    vstd::set_lib::lemma_int_range(0, n);
    let r = vstd::set_lib::set_int_range(0, n);
    assert(s.to_set().subset_of(r)) by {
        assert forall|x: int| s.to_set().contains(x) implies r.contains(x) by {
            let i = choose|i: int| 0 <= i < s.len() && s[i] == x;
            assert(order[i] < keys.len());
        }
    }
    vstd::set_lib::lemma_subset_equality(s.to_set(), r);
}

/// Two duplicate-free sequences listing the same positions `0..n` hold the
/// same multiset.
proof fn lemma_same_multiset(x: Seq<int>, y: Seq<int>, n: int)
    requires
        x.no_duplicates(),
        y.no_duplicates(),
        x.to_set() == vstd::set_lib::set_int_range(0, n),
        y.to_set() == vstd::set_lib::set_int_range(0, n),
    ensures
        x.to_multiset() == y.to_multiset(),
{
    broadcast use vstd::seq_lib::group_to_multiset_ensures;
    x.lemma_multiset_has_no_duplicates();
    y.lemma_multiset_has_no_duplicates();
    assert forall|v: int| #[trigger] x.to_multiset().count(v) == y.to_multiset().count(v) by {
        assert(x.to_set().contains(v) == x.contains(v));
        assert(y.to_set().contains(v) == y.contains(v));
        if x.contains(v) {
            assert(x.to_multiset().contains(v));
            assert(y.to_multiset().contains(v));
        } else {
            assert(!x.to_multiset().contains(v));
            assert(!y.to_multiset().contains(v));
        }
    }
    assert(x.to_multiset() =~= y.to_multiset());
}

/// The stable ranking of `keys`: positions ordered by score (highest first),
/// then creation time (newest first), ties in input order.
pub fn rank_order(keys: &Vec<(i64, i64)>) -> (order: Vec<usize>)
    ensures
        is_ranking(keys@, order@),
{
    let n = keys.len();
    let mut order: Vec<usize> = Vec::new();
    let mut i: usize = 0;
    while i < n
        invariant
            n == keys@.len(),
            i <= n,
            order@.len() == i,
            forall|k: int| 0 <= k < order@.len() ==> #[trigger] order@[k] < i,
            forall|k: int, l: int|
                0 <= k < l < order@.len() ==> ranks_before(
                    keys@,
                    #[trigger] order@[k] as int,
                    #[trigger] order@[l] as int,
                ),
        decreases n - i,
    {
        let mut p: usize = 0;
        while p < order.len() && ranks_before_exec(keys, order[p], i)
            invariant
                n == keys@.len(),
                i < n,
                p <= order@.len(),
                forall|k: int| 0 <= k < order@.len() ==> #[trigger] order@[k] < i,
                forall|k: int| 0 <= k < p ==> ranks_before(keys@, #[trigger] order@[k] as int, i as int),
            decreases order@.len() - p,
        {
            p = p + 1;
        }
        let ghost old_order = order@;
        proof {
            if p < old_order.len() {
                lemma_ranks_total(keys@, old_order[p as int] as int, i as int);
                assert forall|q: int| p <= q < old_order.len() implies ranks_before(
                    keys@,
                    i as int,
                    #[trigger] old_order[q] as int,
                ) by {
                    if q > p {
                        lemma_ranks_transitive(
                            keys@,
                            i as int,
                            old_order[p as int] as int,
                            old_order[q] as int,
                        );
                    }
                }
            }
        }
        order.insert(p, i);
        assert forall|k: int, l: int| 0 <= k < l < order@.len() implies ranks_before(
            keys@,
            #[trigger] order@[k] as int,
            #[trigger] order@[l] as int,
        ) by {
            if k < p && l < p {
                assert(order@[k] == old_order[k] && order@[l] == old_order[l]);
            } else if k < p && l == p {
            } else if k < p {
                assert(order@[l] == old_order[l - 1]);
                assert(ranks_before(keys@, old_order[k] as int, old_order[l - 1] as int));
            } else if k == p {
                assert(order@[l] == old_order[l - 1]);
            } else {
                assert(order@[k] == old_order[k - 1] && order@[l] == old_order[l - 1]);
            }
        }
        i = i + 1;
    }
    order
}

/// Place the items in the listed order: the result's `k`-th item is the
/// input's `order[k]`-th.
pub fn apply_order<T>(items: Vec<T>, order: &Vec<usize>) -> (out: Vec<T>)
    requires
        forall|k: int| 0 <= k < order@.len() ==> #[trigger] order@[k] < items@.len(),
        forall|k: int, l: int|
            0 <= k < l < order@.len() ==> #[trigger] order@[k] != #[trigger] order@[l],
    ensures
        out@.len() == order@.len(),
        forall|k: int| 0 <= k < order@.len() ==> #[trigger] out@[k] == items@[order@[k] as int],
{
    let n = items.len();
    let ghost orig = items@;
    let mut items = items;
    let mut slots: Vec<Option<T>> = Vec::new();
    while items.len() > 0
        invariant
            items@.len() + slots@.len() == n,
            n == orig.len(),
            items@ == orig.take(items@.len() as int),
            forall|j: int| 0 <= j < slots@.len() ==> #[trigger] slots@[j] == Some(orig[n - 1 - j]),
        decreases items@.len(),
    {
        let x = items.pop().unwrap();
        slots.push(Some(x));
        assert(items@ =~= orig.take(items@.len() as int));
    }
    assert forall|m: int| 0 <= m < order@.len() implies #[trigger] slots@[n - 1 - order@[m]] == Some(
        orig[order@[m] as int],
    ) by {
        assert(slots@[n - 1 - order@[m]] == Some(orig[n - 1 - (n - 1 - order@[m])]));
    }
    let mut out: Vec<T> = Vec::new();
    let mut k: usize = 0;
    while k < order.len()
        invariant
            n == orig.len(),
            slots@.len() == n,
            k <= order@.len(),
            out@.len() == k,
            forall|j: int| 0 <= j < order@.len() ==> #[trigger] order@[j] < n,
            forall|a: int, b: int| 0 <= a < b < order@.len() ==> #[trigger] order@[a] != #[trigger] order@[b],
            forall|j: int| 0 <= j < k ==> #[trigger] out@[j] == orig[order@[j] as int],
            forall|m: int|
                k <= m < order@.len() ==> #[trigger] slots@[n - 1 - order@[m]] == Some(
                    orig[order@[m] as int],
                ),
        decreases order@.len() - k,
    {
        let i = order[k];
        let slot = n - 1 - i;
        let taken = slots.remove(slot);
        slots.insert(slot, None);
        let x = taken.unwrap();
        out.push(x);
        assert forall|m: int| k + 1 <= m < order@.len() implies #[trigger] slots@[n - 1 - order@[m]] == Some(
            orig[order@[m] as int],
        ) by {
            assert(order@[m] != order@[k as int]);
        }
        k = k + 1;
    }
    out
}

} // verus!
