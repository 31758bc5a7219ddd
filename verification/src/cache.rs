//! Time-bounded cache of the per-object payloads.

use vstd::prelude::*;
use vstd::string::StringExecFns;
use std::collections::{HashMap, HashSet};
use crate::error::GatewayError;
use crate::text::{decimal_digits, push_decimal};
use crate::NoradId;

verus! {

broadcast use vstd::std_specs::hash::group_hash_axioms;

/// The age, in nanoseconds, from which a stored payload is no longer served,
/// unless the cache is set up with another: four hours.
pub const MAX_AGE: u64 = 14_400_000_000_000;

/// The query path of the current orbital elements of one object; the
/// object's identifier is appended to it.
pub const QUERY_URL: &'static str =
    "https://www.space-track.org/basicspacedata/query/class/gp/NORAD_CAT_ID";

/// A payload and the instant at which it was fetched, in nanoseconds of a
/// monotonic clock.
#[derive(Debug)]
pub struct CacheEntry {
    pub fetched_at: u64,
    pub payload: String,
}

/// What the cache decides on a request.
#[derive(Debug)]
pub enum CacheStep {
    /// The stored payload is fresh: it is the answer, with no remote call.
    Hit(String),
    /// One remote call is due, to this address; its outcome goes to
    /// `complete_fetch`.
    Fetch(String),
    /// A fetch for this object is under way: ask again once it has ended.
    Wait,
}

/// The age of an entry at `now`. A clock reading before the fetch counts as
/// no age at all.
pub open spec fn age(now: u64, fetched_at: u64) -> nat {
    if now >= fetched_at {
        (now - fetched_at) as nat
    } else {
        0
    }
}

/// The payload that the cache serves for `id` at `now` without a remote
/// call, if there is one: that of a stored entry younger than `max_age`.
pub open spec fn fresh_payload(
    cache: Map<usize, CacheEntry>,
    id: usize,
    now: u64,
    max_age: u64,
) -> Option<Seq<char>> {
    if cache.contains_key(id) && age(now, cache[id].fetched_at) < max_age {
        Some(cache[id].payload@)
    } else {
        None
    }
}

/// Whether a request for `id` at `now` takes a remote call: nothing fresh is
/// stored for it, and no fetch for it is under way.
pub open spec fn fetch_is_due(
    cache: Map<usize, CacheEntry>,
    pending: Set<usize>,
    id: usize,
    now: u64,
    max_age: u64,
) -> bool {
    fresh_payload(cache, id, now, max_age) is None && !pending.contains(id)
}

/// The address from which the payload of object `id` is fetched.
pub open spec fn object_url(id: usize) -> Seq<char> {
    QUERY_URL@ + seq!['/'] + decimal_digits(id as nat)
}

/// The cache after a fetch for `id` ended at `now` with `outcome`: a payload
/// is stored with that instant, a failure changes nothing.
pub open spec fn after_fetch(
    cache: Map<usize, CacheEntry>,
    id: usize,
    now: u64,
    outcome: Result<String, GatewayError>,
) -> Map<usize, CacheEntry> {
    match outcome {
        Ok(payload) => cache.insert(id, CacheEntry { fetched_at: now, payload }),
        Err(_) => cache,
    }
}

/// Cache of per-object payloads, keyed by object identifier.
pub struct PerturbationCache {
    entries: HashMap<NoradId, CacheEntry>,
    /// The objects for which a fetch is under way.
    in_flight: HashSet<NoradId>,
    max_age: u64,
}

impl PerturbationCache {
    /// The stored entries.
    pub closed spec fn view(&self) -> Map<usize, CacheEntry> {
        self.entries@
    }

    /// The objects for which a fetch is under way.
    pub closed spec fn pending(&self) -> Set<usize> {
        self.in_flight@
    }

    /// The age from which a stored payload is no longer served.
    pub closed spec fn max_age(&self) -> u64 {
        self.max_age
    }

    /// An empty cache that serves payloads younger than `MAX_AGE`.
    pub fn new() -> (cache: Self)
        ensures
            cache@ == Map::<usize, CacheEntry>::empty(),
            cache.pending() == Set::<usize>::empty(),
            cache.max_age() == MAX_AGE,
    {
        Self::with_max_age(MAX_AGE)
    }

    /// An empty cache that serves payloads younger than `max_age`
    /// nanoseconds.
    pub fn with_max_age(max_age: u64) -> (cache: Self)
        ensures
            cache@ == Map::<usize, CacheEntry>::empty(),
            cache.pending() == Set::<usize>::empty(),
            cache.max_age() == max_age,
    {
        PerturbationCache { entries: HashMap::new(), in_flight: HashSet::new(), max_age }
    }

    /// The address from which the payload of object `id` is fetched: the
    /// query path, a slash and the identifier in decimal.
    pub fn fetch(&self, id: &NoradId) -> (url: String)
        ensures
            url@ == object_url(*id),
    {
        let mut url = String::from_str(QUERY_URL);
        url.append("/");
        proof {
            reveal_strlit("/");
            assert("/"@ =~= seq!['/']);
        }
        push_decimal(&mut url, *id);
        url
    }

    /// Decides a request for object `id` at `now`. A stored payload younger
    /// than the maximum age is served as it is. Otherwise one fetch is due:
    /// the first to ask is told to make it, and whoever asks while it is
    /// under way is told to wait, so that no object is fetched twice at a
    /// time.
    pub fn get_or_fetch(&mut self, id: NoradId, now: u64) -> (step: CacheStep)
        ensures
            final(self)@ == old(self)@,
            final(self).max_age() == old(self).max_age(),
            match fresh_payload(old(self)@, id, now, old(self).max_age()) {
                Some(payload) => step matches CacheStep::Hit(p) && p@ == payload
                    && final(self).pending() == old(self).pending(),
                None => if old(self).pending().contains(id) {
                    step is Wait && final(self).pending() == old(self).pending()
                } else {
                    step matches CacheStep::Fetch(url) && url@ == object_url(id)
                        && final(self).pending() == old(self).pending().insert(id)
                },
            },
    {
        match self.entries.get(&id) {
            Some(entry) => {
                let age: u64 = if now >= entry.fetched_at {
                    now - entry.fetched_at
                } else {
                    0
                };
                if age < self.max_age {
                    return CacheStep::Hit(entry.payload.clone());
                }
            },
            None => {},
        }
        if self.in_flight.contains(&id) {
            return CacheStep::Wait;
        }
        self.in_flight.insert(id);
        CacheStep::Fetch(self.fetch(&id))
    }

    /// Takes the outcome of the fetch for object `id`, which ended at `now`.
    /// A payload is stored with that instant and returned. A failure is
    /// returned as it is and leaves every entry as it was. Either way the
    /// fetch is no longer under way.
    pub fn complete_fetch(&mut self, id: NoradId, now: u64, outcome: Result<String, GatewayError>) -> (r:
        Result<String, GatewayError>)
        ensures
            final(self)@ == after_fetch(old(self)@, id, now, outcome),
            final(self).pending() == old(self).pending().remove(id),
            final(self).max_age() == old(self).max_age(),
            r == outcome,
    {
        self.in_flight.remove(&id);
        match outcome {
            Ok(payload) => {
                let answer = payload.clone();
                self.entries.insert(id, CacheEntry { fetched_at: now, payload });
                Ok(answer)
            },
            Err(e) => Err(e),
        }
    }
}

/// An object that was never fetched is not served from the cache: the
/// request takes one fetch, and once that fetch has brought a payload the
/// cache serves that payload.
pub proof fn lemma_first_request_fetches(
    cache: Map<usize, CacheEntry>,
    id: usize,
    pending: Set<usize>,
    now: u64,
    payload: String,
    max_age: u64,
)
    requires
        !cache.contains_key(id),
        !pending.contains(id),
    ensures
        fetch_is_due(cache, pending, id, now, max_age),
        max_age > 0 ==> fresh_payload(after_fetch(cache, id, now, Ok(payload)), id, now, max_age)
            == Some(payload@),
{
}

/// A payload that was fetched less than the maximum age ago is served
/// unchanged, without a fetch.
pub proof fn lemma_fresh_entry_is_served(
    cache: Map<usize, CacheEntry>,
    id: usize,
    fetched_at: u64,
    payload: String,
    now: u64,
    max_age: u64,
)
    requires
        fetched_at <= now,
        now - fetched_at < max_age,
    ensures
        fresh_payload(after_fetch(cache, id, fetched_at, Ok(payload)), id, now, max_age) == Some(
            payload@,
        ),
        forall|pending: Set<usize>|
            !fetch_is_due(
                after_fetch(cache, id, fetched_at, Ok(payload)),
                pending,
                id,
                now,
                max_age,
            ),
{
}

/// Once the maximum age has passed since the fetch, the payload is no
/// longer served: the next request takes a fetch, whatever the payload was.
pub proof fn lemma_stale_entry_is_fetched(
    cache: Map<usize, CacheEntry>,
    id: usize,
    fetched_at: u64,
    pending: Set<usize>,
    payload: String,
    now: u64,
    max_age: u64,
)
    requires
        fetched_at <= now,
        now - fetched_at >= max_age,
        !pending.contains(id),
    ensures
        fetch_is_due(after_fetch(cache, id, fetched_at, Ok(payload)), pending, id, now, max_age),
{
}

/// A failed fetch neither creates nor replaces an entry, so the request
/// that follows it is decided as the one before it was.
pub proof fn lemma_failure_keeps_cache(
    cache: Map<usize, CacheEntry>,
    id: usize,
    now: u64,
    error: GatewayError,
    other: usize,
    later: u64,
    max_age: u64,
)
    ensures
        after_fetch(cache, id, now, Err(error)) == cache,
        fresh_payload(after_fetch(cache, id, now, Err(error)), other, later, max_age)
            == fresh_payload(cache, other, later, max_age),
{
}

/// While the fetch for an object is under way, no request for that object
/// takes another.
pub proof fn lemma_one_fetch_at_a_time(
    cache: Map<usize, CacheEntry>,
    pending: Set<usize>,
    id: usize,
    later: u64,
    max_age: u64,
)
    ensures
        !fetch_is_due(cache, pending.insert(id), id, later, max_age),
{
}

/// A request that took a fetch which then failed is followed by a request
/// that takes a fetch again.
pub proof fn lemma_failure_is_retried(
    cache: Map<usize, CacheEntry>,
    pending: Set<usize>,
    id: usize,
    now: u64,
    error: GatewayError,
    later: u64,
    max_age: u64,
)
    requires
        fetch_is_due(cache, pending, id, now, max_age),
        now <= later,
    ensures
        fetch_is_due(
            after_fetch(cache, id, now, Err(error)),
            pending.insert(id).remove(id),
            id,
            later,
            max_age,
        ),
{
}

/// A fetch for one object changes what is served for no other.
pub proof fn lemma_fetch_keeps_others(
    cache: Map<usize, CacheEntry>,
    id: usize,
    now: u64,
    outcome: Result<String, GatewayError>,
    other: usize,
    later: u64,
    max_age: u64,
)
    requires
        other != id,
    ensures
        fresh_payload(after_fetch(cache, id, now, outcome), other, later, max_age)
            == fresh_payload(cache, other, later, max_age),
{
}

} // verus!
