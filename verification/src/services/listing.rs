//! Moving items out of a vector in their input order, and placing items
//! in a ranked order.
use vstd::prelude::*;

use super::ranking::{apply_order, is_ranking, rank_order};

verus! {

/// `v` reversed, so that popping the result yields `v`'s items front to back.
pub fn reversed<T>(v: Vec<T>) -> (r: Vec<T>)
    ensures
        r@.len() == v@.len(),
        forall|j: int| 0 <= j < v@.len() ==> #[trigger] r@[j] == v@[v@.len() - 1 - j],
{
    let n = v.len();
    let ghost orig = v@;
    let mut v = v;
    let mut r: Vec<T> = Vec::new();
    while v.len() > 0
        invariant
            v@.len() + r@.len() == n,
            n == orig.len(),
            v@ == orig.take(v@.len() as int),
            forall|j: int| 0 <= j < r@.len() ==> #[trigger] r@[j] == orig[n - 1 - j],
        decreases v@.len(),
    {
        let x = v.pop().unwrap();
        r.push(x);
        assert(v@ =~= orig.take(v@.len() as int));
    }
    r
}

/// The `(score, created_at)` keys that rank a list.
pub open spec fn keys_in(scores: Seq<i64>, created: Seq<i64>) -> Seq<(i64, i64)> {
    Seq::new(scores.len(), |k: int| (scores[k], created[k]))
}

/// Rank `items` by their `(score, created_at)` keys (highest score first,
/// then newest, ties in input order).
pub fn rank_by_keys<T>(items: Vec<T>, scores: &Vec<i64>, created: &Vec<i64>) -> (out: Vec<T>)
    requires
        scores@.len() == items@.len(),
        created@.len() == items@.len(),
    ensures
        out@.len() == items@.len(),
        exists|order: Seq<usize>|
            #![trigger is_ranking(keys_in(scores@, created@), order)]
            is_ranking(keys_in(scores@, created@), order) && forall|k: int|
                0 <= k < out@.len() ==> #[trigger] out@[k] == items@[order[k] as int],
{
    let n = items.len();
    let mut keys: Vec<(i64, i64)> = Vec::new();
    let mut k: usize = 0;
    while k < n
        invariant
            n == items@.len(),
            n == scores@.len(),
            n == created@.len(),
            k <= n,
            keys@ == keys_in(scores@, created@).take(k as int),
        decreases n - k,
    {
        keys.push((scores[k], created[k]));
        assert(keys@ =~= keys_in(scores@, created@).take(k + 1));
        k = k + 1;
    }
    assert(keys@ =~= keys_in(scores@, created@));
    let order = rank_order(&keys);
    proof {
        assert forall|a: int, b: int| 0 <= a < b < order@.len() implies #[trigger] order@[a] != #[trigger] order@[b] by {
            assert(super::ranking::ranks_before(keys@, order@[a] as int, order@[b] as int));
        }
    }
    let out = apply_order(items, &order);
    out
}

} // verus!
