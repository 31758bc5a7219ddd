use spacetrack_gateway::cache::{CacheStep, PerturbationCache, MAX_AGE, QUERY_URL};
use spacetrack_gateway::error::GatewayError;

const HOUR: u64 = 3_600_000_000_000;

fn expect_hit(step: CacheStep) -> String {
    match step {
        CacheStep::Hit(p) => p,
        CacheStep::Fetch(url) => panic!("a fetch of {} where a hit was due", url),
        CacheStep::Wait => panic!("a wait where a hit was due"),
    }
}

fn expect_fetch(step: CacheStep) -> String {
    match step {
        CacheStep::Fetch(url) => url,
        CacheStep::Hit(p) => panic!("a hit with {} where a fetch was due", p),
        CacheStep::Wait => panic!("a wait where a fetch was due"),
    }
}

fn expect_wait(step: CacheStep) {
    assert!(matches!(step, CacheStep::Wait));
}

/// Makes the fetch that is due for `id` at `now` and stores `payload`.
fn fetch_now(cache: &mut PerturbationCache, id: usize, now: u64, payload: &str) {
    expect_fetch(cache.get_or_fetch(id, now));
    assert_eq!(cache.complete_fetch(id, now, Ok(payload.to_string())), Ok(payload.to_string()));
}

#[test]
fn max_age_is_four_hours() {
    assert_eq!(MAX_AGE, 4 * HOUR);
}

#[test]
fn fetch_address_appends_the_identifier() {
    let cache = PerturbationCache::new();
    assert_eq!(
        cache.fetch(&25544),
        "https://www.space-track.org/basicspacedata/query/class/gp/NORAD_CAT_ID/25544"
    );
    assert_eq!(cache.fetch(&0), format!("{}/0", QUERY_URL));
}

#[test]
fn first_request_takes_one_fetch() {
    let mut cache = PerturbationCache::new();
    let url = expect_fetch(cache.get_or_fetch(25544, 10));
    assert_eq!(url, format!("{}/25544", QUERY_URL));
    let r = cache.complete_fetch(25544, 20, Ok("payload".to_string()));
    assert_eq!(r, Ok("payload".to_string()));
    assert_eq!(expect_hit(cache.get_or_fetch(25544, 20)), "payload");
}

#[test]
fn fresh_entry_is_served_without_fetch() {
    let mut cache = PerturbationCache::new();
    fetch_now(&mut cache, 1, 1000, "one");
    assert_eq!(expect_hit(cache.get_or_fetch(1, 1000)), "one");
    assert_eq!(expect_hit(cache.get_or_fetch(1, 1000 + HOUR)), "one");
    assert_eq!(expect_hit(cache.get_or_fetch(1, 1000 + MAX_AGE - 1)), "one");
    assert_eq!(expect_hit(cache.get_or_fetch(1, 0)), "one");
    let url = expect_fetch(cache.get_or_fetch(2, 1000));
    assert_eq!(url, format!("{}/2", QUERY_URL));
}

#[test]
fn stale_entry_is_fetched_again() {
    let mut cache = PerturbationCache::new();
    fetch_now(&mut cache, 1, 1000, "same");
    expect_fetch(cache.get_or_fetch(1, 1000 + MAX_AGE));
    assert!(cache.complete_fetch(1, 1000 + 5 * HOUR, Ok("same".to_string())).is_ok());
    assert_eq!(expect_hit(cache.get_or_fetch(1, 1000 + 6 * HOUR)), "same");
    expect_fetch(cache.get_or_fetch(1, 1000 + 9 * HOUR));
}

#[test]
fn failed_fetch_creates_no_entry() {
    let mut cache = PerturbationCache::new();
    expect_fetch(cache.get_or_fetch(7, 5));
    let r = cache.complete_fetch(7, 6, Err(GatewayError::Transport));
    assert_eq!(r, Err(GatewayError::Transport));
    expect_fetch(cache.get_or_fetch(7, 7));
}

#[test]
fn failed_fetch_replaces_no_entry() {
    let mut cache = PerturbationCache::new();
    fetch_now(&mut cache, 7, 100, "old");
    let r = cache.complete_fetch(7, 200, Err(GatewayError::Upstream(500)));
    assert_eq!(r, Err(GatewayError::Upstream(500)));
    assert_eq!(expect_hit(cache.get_or_fetch(7, 100 + MAX_AGE - 1)), "old");
    expect_fetch(cache.get_or_fetch(7, 100 + MAX_AGE));
    assert_eq!(
        cache.complete_fetch(7, 100 + MAX_AGE, Err(GatewayError::Auth)),
        Err(GatewayError::Auth)
    );
    expect_fetch(cache.get_or_fetch(7, 100 + MAX_AGE));
    assert!(cache.complete_fetch(7, 100 + MAX_AGE, Ok("new".to_string())).is_ok());
    assert_eq!(expect_hit(cache.get_or_fetch(7, 100 + MAX_AGE)), "new");
}

#[test]
fn requests_during_a_fetch_wait_for_it() {
    let mut cache = PerturbationCache::new();
    expect_fetch(cache.get_or_fetch(5, 10));
    expect_wait(cache.get_or_fetch(5, 11));
    expect_wait(cache.get_or_fetch(5, 12));
    let url = expect_fetch(cache.get_or_fetch(6, 12));
    assert_eq!(url, format!("{}/6", QUERY_URL));
    assert!(cache.complete_fetch(5, 13, Ok("five".to_string())).is_ok());
    assert_eq!(expect_hit(cache.get_or_fetch(5, 14)), "five");
    expect_wait(cache.get_or_fetch(6, 14));
    assert!(cache.complete_fetch(6, 15, Err(GatewayError::Transport)).is_err());
    expect_fetch(cache.get_or_fetch(6, 16));
}

#[test]
fn stale_entry_is_not_served_while_its_fetch_is_under_way() {
    let mut cache = PerturbationCache::new();
    fetch_now(&mut cache, 1, 0, "old");
    expect_fetch(cache.get_or_fetch(1, MAX_AGE));
    expect_wait(cache.get_or_fetch(1, MAX_AGE + 1));
}

#[test]
fn max_age_can_be_chosen() {
    let mut cache = PerturbationCache::with_max_age(10);
    fetch_now(&mut cache, 3, 100, "p");
    assert_eq!(expect_hit(cache.get_or_fetch(3, 109)), "p");
    expect_fetch(cache.get_or_fetch(3, 110));
    let mut never = PerturbationCache::with_max_age(0);
    fetch_now(&mut never, 3, 100, "p");
    expect_fetch(never.get_or_fetch(3, 100));
    assert!(never.complete_fetch(3, 100, Ok("p".to_string())).is_ok());
    expect_fetch(never.get_or_fetch(3, 50));
}
