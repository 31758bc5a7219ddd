//! Ranking of the matches of a fuzzy search.

use vstd::prelude::*;
use crate::object::Satellite;

verus! {

/// The most results that a search returns, unless the catalog is set up
/// with another limit.
pub const SEARCH_LIMIT: usize = 20;

/// An object that matched a fuzzy query, with the score of the match.
#[derive(Debug)]
pub struct SearchResult {
    pub score: isize,
    pub satellite: Satellite,
}

/// Whether `a` comes before `b` in a result list: by the higher score, and
/// among equal scores by the larger identifier.
pub open spec fn outranks(a: SearchResult, b: SearchResult) -> bool {
    a.score > b.score || (a.score == b.score && a.satellite.id > b.satellite.id)
}

/// Whether no element of `list` is outranked by one that comes after it.
pub open spec fn ranked(list: Seq<SearchResult>) -> bool {
    forall|i: int, j: int|
        0 <= i < j < list.len() ==> !outranks(#[trigger] list[j], #[trigger] list[i])
}

/// Whether `top` is a selection of the best of `candidates`, where
/// `origin[i]` is the place in `candidates` that `top[i]` was taken from:
/// no place is taken twice, and a candidate that was left out is outranked
/// by none of a full list.
pub open spec fn selects(
    candidates: Seq<SearchResult>,
    top: Seq<SearchResult>,
    origin: Seq<int>,
    limit: usize,
) -> bool {
    &&& origin.len() == top.len()
    &&& forall|i: int|
        0 <= i < top.len() ==> 0 <= #[trigger] origin[i] < candidates.len() && top[i]
            == candidates[origin[i]]
    &&& forall|i: int, j: int|
        0 <= i < j < top.len() ==> #[trigger] origin[i] != #[trigger] origin[j]
    &&& forall|k: int|
        0 <= k < candidates.len() && !origin.contains(k) ==> #[trigger] left_out(
            candidates[k],
            top,
            limit,
        )
}

/// What holds of a candidate that a selection left out: the list is full
/// to its limit, and the candidate outranks none of its elements.
pub open spec fn left_out(c: SearchResult, top: Seq<SearchResult>, limit: usize) -> bool {
    &&& top.len() == limit
    &&& forall|i: int| 0 <= i < top.len() ==> !outranks(c, #[trigger] top[i])
}

/// Whether `a` comes before `b` in a result list.
pub fn comes_before(a: &SearchResult, b: &SearchResult) -> (r: bool)
    ensures
        r == outranks(*a, *b),
{
    a.score > b.score || (a.score == b.score && a.satellite.id > b.satellite.id)
}

/// The place of an element of `pool` that none of the others outranks.
pub fn best_index(pool: &Vec<SearchResult>) -> (best: usize)
    requires
        pool.len() > 0,
    ensures
        best < pool.len(),
        forall|j: int| 0 <= j < pool.len() ==> !outranks(#[trigger] pool[j], pool[best as int]),
{
    let mut best: usize = 0;
    let mut j: usize = 1;
    while j < pool.len()
        invariant
            best < pool.len(),
            1 <= j <= pool.len(),
            forall|k: int| 0 <= k < j ==> !outranks(#[trigger] pool[k], pool[best as int]),
        decreases pool.len() - j,
    {
        if comes_before(&pool[j], &pool[best]) {
            best = j;
        }
        j += 1;
    }
    best
}

/// Orders the candidates by score, highest first, and among equal scores by
/// identifier, largest first, and keeps the first `limit` of them.
pub fn rank_matches(candidates: Vec<SearchResult>, limit: usize) -> (top: Vec<SearchResult>)
    ensures
        top.len() == if candidates.len() < limit { candidates.len() } else { limit },
        ranked(top@),
        exists|origin: Seq<int>| selects(candidates@, top@, origin, limit),
{
    let ghost all = candidates@;
    let mut pool = candidates;
    let mut top: Vec<SearchResult> = Vec::new();
    let ghost mut from_top: Seq<int> = Seq::empty();
    let ghost mut from_pool: Seq<int> = Seq::new(all.len(), |k: int| k);
    proof {
        assert forall|k: int| 0 <= k < all.len() implies #[trigger] from_pool.contains(k) by {
            assert(from_pool[k] == k);
        }
    }
    while top.len() < limit && pool.len() > 0
        invariant
            top.len() <= limit,
            top.len() + pool.len() == all.len(),
            from_top.len() == top.len(),
            from_pool.len() == pool.len(),
            ranked(top@),
            forall|i: int, j: int| 0 <= i < top.len() && 0 <= j < pool.len() ==> !outranks(#[trigger] pool[j], #[trigger] top[i]),
            forall|i: int| 0 <= i < top.len() ==> 0 <= #[trigger] from_top[i] < all.len() && top[i] == all[from_top[i]],
            forall|j: int| 0 <= j < pool.len() ==> 0 <= #[trigger] from_pool[j] < all.len() && pool[j] == all[from_pool[j]],
            forall|i: int, j: int| 0 <= i < j < top.len() ==> #[trigger] from_top[i] != #[trigger] from_top[j],
            forall|i: int, j: int| 0 <= i < j < pool.len() ==> #[trigger] from_pool[i] != #[trigger] from_pool[j],
            forall|i: int, j: int| 0 <= i < top.len() && 0 <= j < pool.len() ==> #[trigger] from_top[i] != #[trigger] from_pool[j],
            forall|k: int| 0 <= k < all.len() ==> from_top.contains(k) || #[trigger] from_pool.contains(k),
        decreases pool.len(),
    {
        let best = best_index(&pool);
        let ghost old_pool = pool@;
        let ghost old_from_pool = from_pool;
        let ghost old_from_top = from_top;
        let ghost old_top = top@;
        let picked = pool.remove(best);
        top.push(picked);
        proof {
            from_top = old_from_top.push(old_from_pool[best as int]);
            from_pool = old_from_pool.remove(best as int);
            assert forall|k: int| 0 <= k < all.len() implies from_top.contains(k) || #[trigger] from_pool.contains(k) by {
                if old_from_top.contains(k) {
                    let i = choose|i: int| 0 <= i < old_from_top.len() && old_from_top[i] == k;
                    assert(from_top[i] == k);
                } else {
                    assert(old_from_pool.contains(k));
                    let j = choose|j: int| 0 <= j < old_from_pool.len() && old_from_pool[j] == k;
                    if j < best {
                        assert(from_pool[j] == k);
                    } else if j == best {
                        assert(from_top[old_top.len() as int] == k);
                    } else {
                        assert(from_pool[j - 1] == k);
                    }
                }
            }
        }
    }
    proof {
        assert forall|k: int| 0 <= k < all.len() && !from_top.contains(k) implies #[trigger] left_out(all[k], top@, limit) by {
            assert(from_pool.contains(k));
            let j = choose|j: int| 0 <= j < from_pool.len() && from_pool[j] == k;
            assert(pool[j] == all[k]);
        }
        assert(selects(all, top@, from_top, limit));
    }
    top
}

} // verus!
