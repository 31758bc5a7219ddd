//! The searchable snapshot of all tracked objects.

use vstd::prelude::*;
use std::collections::HashMap;
use crate::error::GatewayError;
use crate::fuzzy::{best_match_score, fuzzy_score, is_real_match};
use crate::object::{ObjectType, Satellite};
use crate::ranking::{
    left_out, outranks, rank_matches, ranked, selects, SearchResult, SEARCH_LIMIT,
};
use crate::text::{decimal_id, parse_id};

verus! {

broadcast use vstd::std_specs::hash::group_hash_axioms;

/// The query path of the full catalog, ordered by identifier ascending.
pub const QUERY_URL: &'static str =
    "https://www.space-track.org/basicspacedata/query/class/satcat/orderby/NORAD_CAT_ID%20asc/emptyresult/show";

/// The fewest characters that a query must have to be searched for.
pub const MIN_QUERY_LEN: usize = 4;

/// The snapshot that a list of objects makes: each identifier stands for
/// the last object of the list that carries it.
pub open spec fn snapshot_of(list: Seq<Satellite>) -> Map<usize, Satellite>
    decreases list.len(),
{
    if list.len() == 0 {
        Map::empty()
    } else {
        snapshot_of(list.drop_last()).insert(list.last().id, list.last())
    }
}

/// Whether the object `id` of snapshot `db` takes part in the fuzzy search
/// for `query`: its classification is allowed and its name matches with a
/// score that is not negative.
pub open spec fn is_candidate(
    db: Map<usize, Satellite>,
    query: Seq<char>,
    allowed: Seq<ObjectType>,
    id: usize,
) -> bool {
    &&& db.contains_key(id)
    &&& allowed.contains(db[id].object_type)
    &&& is_real_match(fuzzy_score(query, db[id].object_name@))
}

/// An object together with the score of `query` against its name.
pub open spec fn scored(query: Seq<char>, satellite: Satellite) -> SearchResult {
    SearchResult { score: fuzzy_score(query, satellite.object_name@).unwrap(), satellite }
}

/// Whether `list` holds exactly the candidates of the fuzzy search, each
/// once, with its score.
pub open spec fn is_match_list(
    db: Map<usize, Satellite>,
    query: Seq<char>,
    allowed: Seq<ObjectType>,
    list: Seq<SearchResult>,
) -> bool {
    &&& forall|k: int|
        0 <= k < list.len() ==> is_candidate(db, query, allowed, (#[trigger] list[k]).satellite.id)
            && list[k] == scored(query, db[list[k].satellite.id])
    &&& forall|k: int, l: int|
        0 <= k < l < list.len() ==> (#[trigger] list[k]).satellite.id != (#[trigger] list[l]).satellite.id
    &&& forall|id: usize| #[trigger]
        is_candidate(db, query, allowed, id) ==> exists|k: int|
            0 <= k < list.len() && (#[trigger] list[k]).satellite.id == id
}

/// Whether some element of `list` has the identifier `id`.
pub open spec fn lists(list: Seq<Satellite>, id: usize) -> bool {
    exists|i: int| 0 <= i < list.len() && (#[trigger] list[i]).id == id
}

/// Whether `r` is the answer of the fuzzy search: candidates of the
/// snapshot only, at most `limit` of them, strictly in rank order,
/// and every candidate that is missing ranks below all of a full list.
pub open spec fn is_fuzzy_result(
    db: Map<usize, Satellite>,
    query: Seq<char>,
    allowed: Seq<ObjectType>,
    r: Seq<Satellite>,
    limit: usize,
) -> bool {
    &&& r.len() <= limit
    &&& forall|i: int|
        0 <= i < r.len() ==> is_candidate(db, query, allowed, (#[trigger] r[i]).id) && db[r[i].id]
            == r[i]
    &&& forall|i: int, j: int|
        0 <= i < j < r.len() ==> outranks(scored(query, #[trigger] r[i]), scored(query, #[trigger] r[j]))
    &&& forall|id: usize| #[trigger]
        is_candidate(db, query, allowed, id) ==> lists(r, id) || (r.len() == limit
            && forall|i: int|
            0 <= i < r.len() ==> outranks(scored(query, #[trigger] r[i]), scored(query, db[id])))
}

/// Whether `r` is the answer to `query` on snapshot `db`: nothing for a
/// query of fewer than `min_len` characters; the one object whose
/// identifier the query spells, whatever its classification; else the
/// answer of the fuzzy search.
pub open spec fn is_search_result(
    db: Map<usize, Satellite>,
    query: Seq<char>,
    allowed: Seq<ObjectType>,
    r: Seq<Satellite>,
    min_len: usize,
    limit: usize,
) -> bool {
    if query.len() < min_len {
        r.len() == 0
    } else if decimal_id(query) is Some && db.contains_key(decimal_id(query).unwrap()) {
        r == seq![db[decimal_id(query).unwrap()]]
    } else {
        is_fuzzy_result(db, query, allowed, r, limit)
    }
}

/// Whether `wanted` is among the allowed classifications.
pub fn type_allowed(allowed: &[ObjectType], wanted: ObjectType) -> (r: bool)
    ensures
        r == allowed@.contains(wanted),
{
    let mut i: usize = 0;
    while i < allowed.len()
        invariant
            i <= allowed.len(),
            forall|k: int| 0 <= k < i ==> allowed@[k] != wanted,
        decreases allowed.len() - i,
    {
        if allowed[i] == wanted {
            return true;
        }
        i += 1;
    }
    false
}

/// Whether an object with this fuzzy score is kept among the matches.
pub fn keeps_match(score: Option<isize>) -> (r: bool)
    ensures
        r == is_real_match(score),
{
    match score {
        Some(s) => s >= 0,
        None => false,
    }
}

/// The objects of a ranked list, in order, without their scores.
pub fn strip_scores(top: &Vec<SearchResult>) -> (r: Vec<Satellite>)
    ensures
        r.len() == top.len(),
        forall|i: int| 0 <= i < r.len() ==> #[trigger] r[i] == top[i].satellite,
{
    let mut out: Vec<Satellite> = Vec::new();
    let mut i: usize = 0;
    while i < top.len()
        invariant
            i <= top.len(),
            out.len() == i,
            forall|k: int| 0 <= k < i ==> #[trigger] out[k] == top[k].satellite,
        decreases top.len() - i,
    {
        out.push(top[i].satellite.clone());
        i += 1;
    }
    out
}

/// The best of a list of all candidates is the answer of the fuzzy search.
proof fn lemma_best_of_matches(
    db: Map<usize, Satellite>,
    query: Seq<char>,
    allowed: Seq<ObjectType>,
    list: Seq<SearchResult>,
    top: Seq<SearchResult>,
    r: Seq<Satellite>,
    limit: usize,
)
    requires
        is_match_list(db, query, allowed, list),
        top.len() <= limit,
        ranked(top),
        exists|origin: Seq<int>| selects(list, top, origin, limit),
        r.len() == top.len(),
        forall|i: int| 0 <= i < r.len() ==> #[trigger] r[i] == top[i].satellite,
    ensures
        is_fuzzy_result(db, query, allowed, r, limit),
{
    let origin = choose|origin: Seq<int>| selects(list, top, origin, limit);
    assert forall|i: int| 0 <= i < r.len() implies is_candidate(db, query, allowed, (#[trigger] r[i]).id)
        && db[r[i].id] == r[i] && scored(query, r[i]) == top[i] by {
        let k = origin[i];
        assert(top[i] == list[k]);
    }
    assert forall|i: int, j: int| 0 <= i < j < r.len() implies outranks(
        scored(query, #[trigger] r[i]),
        scored(query, #[trigger] r[j]),
    ) by {
        assert(!outranks(top[j], top[i]));
        assert(origin[i] != origin[j]);
        assert(top[i] == list[origin[i]]);
        assert(top[j] == list[origin[j]]);
        if origin[i] < origin[j] {
            assert(list[origin[i]].satellite.id != list[origin[j]].satellite.id);
        } else {
            assert(list[origin[j]].satellite.id != list[origin[i]].satellite.id);
        }
    }
    assert forall|id: usize| #[trigger] is_candidate(db, query, allowed, id) implies lists(r, id) || (
    r.len() == limit && forall|i: int|
        0 <= i < r.len() ==> outranks(scored(query, #[trigger] r[i]), scored(query, db[id]))) by {
        let k = choose|k: int| 0 <= k < list.len() && (#[trigger] list[k]).satellite.id == id;
        assert(list[k] == scored(query, db[id]));
        if origin.contains(k) {
            let i = choose|i: int| 0 <= i < origin.len() && origin[i] == k;
            assert(top[i] == list[origin[i]]);
            assert(r[i].id == id);
            assert(lists(r, id));
        } else {
            assert(left_out(list[k], top, limit));
            assert forall|i: int| 0 <= i < r.len() implies outranks(
                scored(query, #[trigger] r[i]),
                scored(query, db[id]),
            ) by {
                assert(!outranks(list[k], top[i]));
                assert(top[i] == list[origin[i]]);
                assert(origin[i] != k);
                if origin[i] < k {
                    assert(list[origin[i]].satellite.id != list[k].satellite.id);
                } else {
                    assert(list[k].satellite.id != list[origin[i]].satellite.id);
                }
            }
        }
    }
}

/// A query that spells the identifier of an object of the snapshot is
/// answered by that object alone, whatever classifications are allowed.
pub proof fn lemma_exact_identifier_wins(
    db: Map<usize, Satellite>,
    query: Seq<char>,
    allowed: Seq<ObjectType>,
    r: Seq<Satellite>,
    id: usize,
    min_len: usize,
    limit: usize,
)
    requires
        query.len() >= min_len,
        decimal_id(query) == Some(id),
        db.contains_key(id),
        is_search_result(db, query, allowed, r, min_len, limit),
    ensures
        r == seq![db[id]],
{
}

/// Of two objects in a fuzzy answer whose names score alike, the one with
/// the larger identifier comes first.
pub proof fn lemma_ties_by_identifier(
    db: Map<usize, Satellite>,
    query: Seq<char>,
    allowed: Seq<ObjectType>,
    r: Seq<Satellite>,
    i: int,
    j: int,
    limit: usize,
)
    requires
        is_fuzzy_result(db, query, allowed, r, limit),
        0 <= i < r.len(),
        0 <= j < r.len(),
        scored(query, r[i]).score == scored(query, r[j]).score,
        r[i].id > r[j].id,
    ensures
        i < j,
{
    if j < i {
        assert(outranks(scored(query, r[j]), scored(query, r[i])));
    }
}

/// In a fuzzy answer an object with a higher score comes before one with a
/// lower score.
pub proof fn lemma_higher_score_first(
    db: Map<usize, Satellite>,
    query: Seq<char>,
    allowed: Seq<ObjectType>,
    r: Seq<Satellite>,
    i: int,
    j: int,
    limit: usize,
)
    requires
        is_fuzzy_result(db, query, allowed, r, limit),
        0 <= i < r.len(),
        0 <= j < r.len(),
        scored(query, r[i]).score > scored(query, r[j]).score,
    ensures
        i < j,
{
    if j < i {
        assert(outranks(scored(query, r[j]), scored(query, r[i])));
    }
}

/// A query of fewer than `min_len` characters has the empty answer, and no
/// answer is longer than `limit`, whatever the snapshot holds. (With a limit
/// of zero the one object of an exact identifier is still returned.)
pub proof fn lemma_answer_bounds(
    db: Map<usize, Satellite>,
    query: Seq<char>,
    allowed: Seq<ObjectType>,
    r: Seq<Satellite>,
    min_len: usize,
    limit: usize,
)
    requires
        is_search_result(db, query, allowed, r, min_len, limit),
    ensures
        limit >= 1 ==> r.len() <= limit,
        query.len() < min_len ==> r.len() == 0,
{
}

/// Whether no element of `list` after place `i` has the identifier of the
/// element at `i`.
pub open spec fn is_last_with_id(list: Seq<Satellite>, i: int) -> bool {
    forall|j: int| i < j < list.len() ==> (#[trigger] list[j]).id != list[i].id
}

/// The snapshot that a list makes holds exactly the identifiers of the
/// list; under each it holds the last object of the list that carries it;
/// and every object is filed under its own identifier.
pub proof fn lemma_snapshot_holds_last_records(list: Seq<Satellite>)
    ensures
        forall|k: usize| #[trigger] snapshot_of(list).contains_key(k) <==> lists(list, k),
        forall|i: int|
            0 <= i < list.len() && #[trigger] is_last_with_id(list, i) ==> snapshot_of(
                list,
            ).contains_key(list[i].id) && snapshot_of(list)[list[i].id] == list[i],
        forall|k: usize| #[trigger]
            snapshot_of(list).contains_key(k) ==> snapshot_of(list)[k].id == k,
    decreases list.len(),
{
    if list.len() > 0 {
        let init = list.drop_last();
        let last = list.last();
        let n = list.len() - 1;
        lemma_snapshot_holds_last_records(init);
        assert forall|k: usize| #[trigger] snapshot_of(list).contains_key(k) <==> lists(list, k) by {
            if lists(list, k) {
                let i = choose|i: int| 0 <= i < list.len() && (#[trigger] list[i]).id == k;
                if i < n {
                    assert(init[i].id == k);
                    assert(lists(init, k));
                }
            }
            if snapshot_of(list).contains_key(k) {
                if k == last.id {
                    assert(list[n].id == k);
                } else {
                    assert(lists(init, k));
                    let i = choose|i: int| 0 <= i < init.len() && (#[trigger] init[i]).id == k;
                    assert(list[i].id == k);
                }
            }
        }
        assert forall|i: int| 0 <= i < list.len() && #[trigger] is_last_with_id(list, i) implies snapshot_of(
            list,
        ).contains_key(list[i].id) && snapshot_of(list)[list[i].id] == list[i] by {
            if i < n {
                assert(list[n].id != list[i].id);
                assert(init[i] == list[i]);
                assert forall|j: int| i < j < init.len() implies (#[trigger] init[j]).id != init[i].id by {
                    assert(list[j].id != list[i].id);
                }
                assert(is_last_with_id(init, i));
            }
        }
    } else {
        assert forall|k: usize| !lists(list, k) by {}
    }
}

/// One of two fuzzy answers to the same query on the same snapshot has, at
/// a place up to which the two agree, the same object as the other or one
/// that the other's outranks.
proof fn lemma_place_not_better(
    db: Map<usize, Satellite>,
    query: Seq<char>,
    allowed: Seq<ObjectType>,
    r1: Seq<Satellite>,
    r2: Seq<Satellite>,
    i: int,
    limit: usize,
)
    requires
        is_fuzzy_result(db, query, allowed, r1, limit),
        is_fuzzy_result(db, query, allowed, r2, limit),
        0 <= i < r1.len(),
        i < r2.len(),
        forall|k: int| 0 <= k < i ==> r1[k] == r2[k],
    ensures
        r1[i] == r2[i] || outranks(scored(query, r2[i]), scored(query, r1[i])),
{
    let a = r1[i].id;
    assert(is_candidate(db, query, allowed, a));
    assert(db[a] == r1[i]);
    if lists(r2, a) {
        let j = choose|j: int| 0 <= j < r2.len() && (#[trigger] r2[j]).id == a;
        assert(r2[j] == db[a]);
        if j < i {
            assert(r1[j] == r2[j]);
            assert(outranks(scored(query, r1[j]), scored(query, r1[i])));
        } else if j > i {
            assert(outranks(scored(query, r2[i]), scored(query, r2[j])));
        }
    } else {
        assert(outranks(scored(query, r2[i]), scored(query, db[a])));
    }
}

/// Two fuzzy answers to the same query on the same snapshot agree on their
/// first `n` places.
proof fn lemma_common_prefix(
    db: Map<usize, Satellite>,
    query: Seq<char>,
    allowed: Seq<ObjectType>,
    r1: Seq<Satellite>,
    r2: Seq<Satellite>,
    n: int,
    limit: usize,
)
    requires
        is_fuzzy_result(db, query, allowed, r1, limit),
        is_fuzzy_result(db, query, allowed, r2, limit),
        0 <= n <= r1.len(),
        n <= r2.len(),
    ensures
        forall|k: int| 0 <= k < n ==> r1[k] == r2[k],
    decreases n,
{
    if n > 0 {
        lemma_common_prefix(db, query, allowed, r1, r2, n - 1, limit);
        lemma_place_not_better(db, query, allowed, r1, r2, n - 1, limit);
        lemma_place_not_better(db, query, allowed, r2, r1, n - 1, limit);
    }
}

/// Of two fuzzy answers to the same query on the same snapshot, the second
/// is no longer than the first.
proof fn lemma_no_longer(
    db: Map<usize, Satellite>,
    query: Seq<char>,
    allowed: Seq<ObjectType>,
    r1: Seq<Satellite>,
    r2: Seq<Satellite>,
    limit: usize,
)
    requires
        is_fuzzy_result(db, query, allowed, r1, limit),
        is_fuzzy_result(db, query, allowed, r2, limit),
    ensures
        r2.len() <= r1.len(),
{
    if r1.len() < r2.len() {
        let n = r1.len() as int;
        lemma_common_prefix(db, query, allowed, r1, r2, n, limit);
        let c = r2[n].id;
        assert(is_candidate(db, query, allowed, c));
        assert(db[c] == r2[n]);
        if lists(r1, c) {
            let j = choose|j: int| 0 <= j < r1.len() && (#[trigger] r1[j]).id == c;
            assert(r1[j] == db[c]);
            assert(r1[j] == r2[j]);
            assert(outranks(scored(query, r2[j]), scored(query, r2[n])));
        }
    }
}

/// The answer to a query on a snapshot is determined: any two sequences
/// that are answers to it are the same sequence.
pub proof fn lemma_search_result_unique(
    db: Map<usize, Satellite>,
    query: Seq<char>,
    allowed: Seq<ObjectType>,
    r1: Seq<Satellite>,
    r2: Seq<Satellite>,
    min_len: usize,
    limit: usize,
)
    requires
        is_search_result(db, query, allowed, r1, min_len, limit),
        is_search_result(db, query, allowed, r2, min_len, limit),
    ensures
        r1 == r2,
{
    if query.len() < min_len {
        assert(r1 =~= r2);
    } else if decimal_id(query) is Some && db.contains_key(decimal_id(query).unwrap()) {
    } else {
        lemma_no_longer(db, query, allowed, r1, r2, limit);
        lemma_no_longer(db, query, allowed, r2, r1, limit);
        lemma_common_prefix(db, query, allowed, r1, r2, r1.len() as int, limit);
        assert(r1 =~= r2);
    }
}

/// Snapshot of the catalog: every tracked object, found by its identifier.
pub struct SatelliteDatabase {
    entries: HashMap<usize, Satellite>,
    /// The identifiers of `entries`, each once, in the order of arrival.
    ids: Vec<usize>,
    min_query_len: usize,
    limit: usize,
}

impl SatelliteDatabase {
    /// The snapshot as a map from identifier to object.
    pub closed spec fn view(&self) -> Map<usize, Satellite> {
        self.entries@
    }

    /// The fewest characters that a query must have to be searched for.
    pub closed spec fn min_query_len(&self) -> usize {
        self.min_query_len
    }

    /// The most results that a search returns.
    pub closed spec fn limit(&self) -> usize {
        self.limit
    }

    /// The invariant of the snapshot: every object is filed under its own
    /// identifier, and the list of identifiers names each entry once.
    pub closed spec fn wf(&self) -> bool {
        &&& forall|k: usize| #[trigger] self.entries@.contains_key(k) <==> self.ids@.contains(k)
        &&& forall|i: int, j: int|
            0 <= i < j < self.ids.len() ==> #[trigger] self.ids[i] != #[trigger] self.ids[j]
        &&& forall|k: usize| #[trigger]
            self.entries@.contains_key(k) ==> self.entries@[k].id == k
    }

    /// In a snapshot every object is filed under its own identifier, so no
    /// two objects of it share one.
    pub proof fn lemma_identifiers_unique(&self)
        requires
            self.wf(),
        ensures
            forall|k: usize| #[trigger] self@.contains_key(k) ==> self@[k].id == k,
    {
    }

    /// An empty catalog with the usual limits: queries of at least
    /// `MIN_QUERY_LEN` characters, answers of at most `SEARCH_LIMIT` objects.
    pub fn new() -> (db: Self)
        ensures
            db.wf(),
            db@ == Map::<usize, Satellite>::empty(),
            db.min_query_len() == MIN_QUERY_LEN,
            db.limit() == SEARCH_LIMIT,
    {
        Self::with_limits(MIN_QUERY_LEN, SEARCH_LIMIT)
    }

    /// An empty catalog with limits of the caller's choice.
    pub fn with_limits(min_query_len: usize, limit: usize) -> (db: Self)
        ensures
            db.wf(),
            db@ == Map::<usize, Satellite>::empty(),
            db.min_query_len() == min_query_len,
            db.limit() == limit,
    {
        let db = SatelliteDatabase { entries: HashMap::new(), ids: Vec::new(), min_query_len, limit };
        assert(forall|k: usize| !db.ids@.contains(k));
        db
    }

    /// The number of objects in the snapshot.
    pub fn len(&self) -> (n: usize)
        ensures
            n == self@.dom().len(),
    {
        self.entries.len()
    }

    /// The object with this identifier, if the snapshot holds one.
    pub fn get(&self, id: usize) -> (r: Option<Satellite>)
        ensures
            r == if self@.contains_key(id) {
                Some(self@[id])
            } else {
                None::<Satellite>
            },
    {
        match self.entries.get(&id) {
            Some(s) => Some(s.clone()),
            None => None,
        }
    }

    /// Takes the outcome of fetching and reading the full catalog. A list
    /// of objects replaces the whole snapshot; a failure is returned as it
    /// is and leaves the snapshot untouched.
    pub fn update(&mut self, fetched: Result<Vec<Satellite>, GatewayError>) -> (r: Result<
        (),
        GatewayError,
    >)
        requires
            old(self).wf(),
        ensures
            final(self).wf(),
            final(self).min_query_len() == old(self).min_query_len(),
            final(self).limit() == old(self).limit(),
            match fetched {
                Ok(list) => r == Ok::<(), GatewayError>(()) && final(self)@ == snapshot_of(list@),
                Err(e) => r == Err::<(), GatewayError>(e) && final(self)@ == old(self)@,
            },
    {
        match fetched {
            Ok(list) => {
                self.replace(&list);
                Ok(())
            },
            Err(e) => Err(e),
        }
    }

    /// Replaces the whole snapshot by the one that `satellites` makes.
    /// Nothing of the old snapshot stays.
    pub fn replace(&mut self, satellites: &Vec<Satellite>)
        ensures
            final(self).wf(),
            final(self).min_query_len() == old(self).min_query_len(),
            final(self).limit() == old(self).limit(),
            final(self)@ == snapshot_of(satellites@),
    {
        let mut entries: HashMap<usize, Satellite> = HashMap::new();
        let mut ids: Vec<usize> = Vec::new();
        let mut i: usize = 0;
        assert(forall|k: usize| !ids@.contains(k));
        while i < satellites.len()
            invariant
                i <= satellites.len(),
                entries@ == snapshot_of(satellites@.take(i as int)),
                forall|k: usize| #[trigger] entries@.contains_key(k) <==> ids@.contains(k),
                forall|a: int, b: int| 0 <= a < b < ids.len() ==> #[trigger] ids[a] != #[trigger] ids[b],
                forall|k: usize| #[trigger] entries@.contains_key(k) ==> entries@[k].id == k,
            decreases satellites.len() - i,
        {
            let s = satellites[i].clone();
            let id = s.id;
            let ghost before = ids@;
            let ghost before_map = entries@;
            if !entries.contains_key(&id) {
                ids.push(id);
            }
            entries.insert(id, s);
            proof {
                assert(satellites@.take(i + 1).drop_last() =~= satellites@.take(i as int));
                assert(satellites@.take(i + 1).last() == satellites@[i as int]);
                assert forall|k: usize| #[trigger] entries@.contains_key(k) <==> ids@.contains(k) by {
                    if before_map.contains_key(id) {
                        assert(ids@ == before);
                    } else {
                        assert(ids@ == before.push(id));
                        assert(ids@[before.len() as int] == id);
                        if before.contains(k) {
                            let a = choose|a: int| 0 <= a < before.len() && before[a] == k;
                            assert(ids@[a] == k);
                        }
                    }
                }
            }
            i += 1;
        }
        assert(satellites@.take(i as int) =~= satellites@);
        self.entries = entries;
        self.ids = ids;
    }

    /// The object `id` with the score of `query` against its name, if it
    /// takes part in the fuzzy search: it is in the snapshot, its
    /// classification is allowed, and the match is a real one.
    pub fn match_entry(&self, id: usize, query: &str, allowed_types: &[ObjectType]) -> (r: Option<
        SearchResult,
    >)
        requires
            self.wf(),
        ensures
            r == if is_candidate(self@, query@, allowed_types@, id) {
                Some(scored(query@, self@[id]))
            } else {
                None::<SearchResult>
            },
    {
        match self.entries.get(&id) {
            Some(s) => {
                if !type_allowed(allowed_types, s.object_type) {
                    return None;
                }
                let score = best_match_score(query, s.object_name.as_str());
                if !keeps_match(score) {
                    return None;
                }
                match score {
                    Some(points) => Some(SearchResult { score: points, satellite: s.clone() }),
                    None => None,
                }
            },
            None => None,
        }
    }

    /// Every candidate of the fuzzy search for `query`, with its score, in
    /// no particular order.
    pub fn collect_matches(&self, query: &str, allowed_types: &[ObjectType]) -> (list: Vec<SearchResult>)
        requires
            self.wf(),
        ensures
            is_match_list(self@, query@, allowed_types@, list@),
    {
        let mut list: Vec<SearchResult> = Vec::new();
        let mut i: usize = 0;
        while i < self.ids.len()
            invariant
                self.wf(),
                i <= self.ids.len(),
                forall|k: int|
                    0 <= k < list.len() ==> is_candidate(
                        self@,
                        query@,
                        allowed_types@,
                        (#[trigger] list[k]).satellite.id,
                    ) && list[k] == scored(query@, self@[list[k].satellite.id]),
                forall|k: int|
                    0 <= k < list.len() ==> exists|a: int|
                        0 <= a < i && #[trigger] self.ids[a] == (#[trigger] list[k]).satellite.id,
                forall|k: int, l: int|
                    0 <= k < l < list.len() ==> (#[trigger] list[k]).satellite.id != (
                    #[trigger] list[l]).satellite.id,
                forall|a: int|
                    0 <= a < i && is_candidate(self@, query@, allowed_types@, #[trigger] self.ids[a])
                        ==> exists|k: int|
                        0 <= k < list.len() && (#[trigger] list[k]).satellite.id == self.ids[a],
            decreases self.ids.len() - i,
        {
            let id = self.ids[i];
            let ghost before = list@;
            match self.match_entry(id, query, allowed_types) {
                Some(found) => {
                    list.push(found);
                    proof {
                        let n = before.len() as int;
                        assert(list@[n].satellite.id == id);
                        assert forall|k: int, l: int| 0 <= k < l < list.len() implies (
                        #[trigger] list[k]).satellite.id != (#[trigger] list[l]).satellite.id by {
                            assert(list[k] == before[k]);
                            if l == n {
                                let a = choose|a: int|
                                    0 <= a < i && #[trigger] self.ids[a] == before[k].satellite.id;
                                assert(self.ids[a] != self.ids[i as int]);
                            } else {
                                assert(list[l] == before[l]);
                            }
                        }
                    }
                },
                None => {},
            }
            proof {
                assert forall|a: int|
                    0 <= a < i + 1 && is_candidate(
                        self@,
                        query@,
                        allowed_types@,
                        #[trigger] self.ids[a],
                    ) implies exists|k: int|
                    0 <= k < list.len() && (#[trigger] list[k]).satellite.id == self.ids[a] by {
                    if a < i {
                        let k = choose|k: int|
                            0 <= k < before.len() && (#[trigger] before[k]).satellite.id == self.ids[a];
                        assert(list[k] == before[k]);
                    } else {
                        assert(list.len() == before.len() + 1);
                        assert(list[before.len() as int].satellite.id == id);
                    }
                }
                assert forall|k: int| 0 <= k < list.len() implies exists|a: int|
                    0 <= a < i + 1 && #[trigger] self.ids[a] == (#[trigger] list[k]).satellite.id by {
                    if k < before.len() {
                        assert(list[k] == before[k]);
                        let a = choose|a: int|
                            0 <= a < i && #[trigger] self.ids[a] == before[k].satellite.id;
                        assert(self.ids[a] == list[k].satellite.id);
                    } else {
                        assert(self.ids[i as int] == list[k].satellite.id);
                    }
                }
            }
            i += 1;
        }
        proof {
            assert forall|id: usize| #[trigger]
                is_candidate(self@, query@, allowed_types@, id) implies exists|k: int|
                0 <= k < list.len() && (#[trigger] list[k]).satellite.id == id by {
                assert(self.ids@.contains(id));
                let a = choose|a: int| 0 <= a < self.ids.len() && self.ids[a] == id;
                assert(is_candidate(self@, query@, allowed_types@, self.ids[a]));
            }
        }
        list
    }

    /// Answers a query on the snapshot. A query of fewer than
    /// `min_query_len` characters finds nothing. A query that spells the
    /// identifier of an object finds that object alone, whatever its
    /// classification. Any other query is matched against the names of the
    /// objects of the allowed classifications: the matches come highest
    /// score first, among equal scores largest identifier first, and at
    /// most `limit` of them.
    pub fn search(&self, query: &str, allowed_types: &[ObjectType]) -> (r: Vec<Satellite>)
        requires
            self.wf(),
        ensures
            is_search_result(
                self@,
                query@,
                allowed_types@,
                r@,
                self.min_query_len(),
                self.limit(),
            ),
            self.limit() >= 1 ==> r.len() <= self.limit(),
            query@.len() < self.min_query_len() ==> r.len() == 0,
    {
        if query.unicode_len() < self.min_query_len {
            return Vec::new();
        }
        match parse_id(query) {
            Some(id) => {
                match self.entries.get(&id) {
                    Some(s) => {
                        let mut one: Vec<Satellite> = Vec::new();
                        one.push(s.clone());
                        assert(one@ =~= seq![self@[id]]);
                        return one;
                    },
                    None => {},
                }
            },
            None => {},
        }
        let list = self.collect_matches(query, allowed_types);
        let top = rank_matches(list, self.limit);
        let r = strip_scores(&top);
        proof {
            lemma_best_of_matches(self@, query@, allowed_types@, list@, top@, r@, self.limit);
        }
        r
    }
}

} // verus!
