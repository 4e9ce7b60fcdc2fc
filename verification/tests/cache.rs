use azidentity::cache::{AccessToken, CachedCredential, Lookup, REFRESH_OFFSET_SECONDS};
use azure_core::time::{Duration, OffsetDateTime};
use std::cell::Cell;

const SECOND: i128 = 1_000_000_000;

struct MockCredential {
    name: &'static str,
    calls: Cell<usize>,
    token_lifetime: Duration,
}

impl MockCredential {
    fn new(name: &'static str) -> MockCredential {
        MockCredential { name, calls: Cell::new(0), token_lifetime: Duration::hours(1) }
    }

    fn expiring(name: &'static str) -> MockCredential {
        MockCredential {
            name,
            calls: Cell::new(0),
            token_lifetime: Duration::seconds(REFRESH_OFFSET_SECONDS),
        }
    }

    fn get_token(&self) -> Result<AccessToken, String> {
        self.calls.set(self.calls.get() + 1);
        let expires_on = OffsetDateTime::now_utc() + self.token_lifetime;
        Ok(AccessToken {
            token: self.name.to_string(),
            expires_on: expires_on.unix_timestamp_nanos(),
        })
    }
}

fn strings(texts: &[&str]) -> Vec<String> {
    texts.iter().map(|text| text.to_string()).collect()
}

fn get_token(
    cache: &mut CachedCredential<&MockCredential>,
    scopes: &[&str],
) -> Result<AccessToken, String> {
    match cache.get_token(strings(scopes)) {
        Lookup::Hit(token) => Ok(token),
        Lookup::Fetch(request) => {
            let reply = cache.credential().get_token();
            cache.resume(request, reply)
        }
    }
}

fn token(text: &str, expires_on: i128) -> AccessToken {
    AccessToken { token: text.to_string(), expires_on }
}

fn fetch(cache: &mut CachedCredential<()>, scopes: &[&str], now: i128, token: AccessToken) {
    match cache.get_token_at(strings(scopes), now) {
        Lookup::Hit(_) => panic!("expected a fetch"),
        Lookup::Fetch(request) => {
            let result: Result<AccessToken, String> = cache.resume(request, Ok(token));
            assert!(result.is_ok());
        }
    }
}

fn hit(cache: &CachedCredential<()>, scopes: &[&str], now: i128) -> Option<String> {
    match cache.get_token_at(strings(scopes), now) {
        Lookup::Hit(token) => Some(token.token),
        Lookup::Fetch(_) => None,
    }
}

#[test]
fn caches_tokens_across_scope_orderings() {
    let credential = MockCredential::new("token");
    let mut cache = CachedCredential::new(&credential);

    let first = get_token(&mut cache, &["scope-b", "scope-a"]).unwrap();
    let second = get_token(&mut cache, &["scope-a", "scope-b"]).unwrap();

    assert_eq!(first.token, second.token);
    assert_eq!(credential.calls.get(), 1);
}

#[test]
fn refreshes_tokens_with_five_minutes_remaining() {
    let credential = MockCredential::expiring("token");
    let mut cache = CachedCredential::new(&credential);

    get_token(&mut cache, &["scope"]).unwrap();
    get_token(&mut cache, &["scope"]).unwrap();

    assert_eq!(credential.calls.get(), 2);
}

#[test]
fn freshness_ends_exactly_five_minutes_before_expiry() {
    let token = token("t", 1000 * SECOND);
    assert!(token.is_fresh(700 * SECOND - 1));
    assert!(!token.is_fresh(700 * SECOND));
    assert!(!token.is_fresh(700 * SECOND + 1));
    assert!(!token.is_fresh(2000 * SECOND));
    assert!(!token.is_fresh(i128::MAX));
    assert!(token.is_fresh(i128::MIN));
    assert_eq!(REFRESH_OFFSET_SECONDS, 300);
}

#[test]
fn a_fetched_token_is_reused_whatever_the_order_and_repetition() {
    let mut cache = CachedCredential::new(());
    fetch(&mut cache, &["b", "a", "b"], 0, token("ab", 1000 * SECOND));
    assert_eq!(hit(&cache, &["a", "b"], 0), Some("ab".to_string()));
    assert_eq!(hit(&cache, &["a", "a", "b"], 0), Some("ab".to_string()));
    assert_eq!(hit(&cache, &["a"], 0), None);
    assert_eq!(hit(&cache, &["a", "b", "c"], 0), None);
    assert_eq!(hit(&cache, &[], 0), None);
}

#[test]
fn a_later_token_takes_the_place_of_an_earlier_one_of_the_same_scopes_only() {
    let mut cache = CachedCredential::new(());
    fetch(&mut cache, &["a"], 0, token("a1", 1000 * SECOND));
    fetch(&mut cache, &["b"], 0, token("b1", 5000 * SECOND));
    assert_eq!(hit(&cache, &["a"], 800 * SECOND), None);
    fetch(&mut cache, &["a"], 800 * SECOND, token("a2", 5000 * SECOND));
    assert_eq!(hit(&cache, &["a"], 800 * SECOND), Some("a2".to_string()));
    assert_eq!(hit(&cache, &["b"], 800 * SECOND), Some("b1".to_string()));
}

#[test]
fn a_fetch_asks_for_sorted_scopes_without_repetition() {
    let cache = CachedCredential::new(());
    match cache.get_token_at(strings(&["c", "a", "b", "a"]), 0) {
        Lookup::Hit(_) => panic!("expected a fetch"),
        Lookup::Fetch(request) => assert_eq!(request.scopes(), &strings(&["a", "b", "c"])),
    }
}

#[test]
fn a_failed_fetch_is_handed_on_and_keeps_the_cache() {
    let mut cache = CachedCredential::new(());
    fetch(&mut cache, &["a"], 0, token("a1", 1000 * SECOND));
    match cache.get_token_at(strings(&["a"]), 900 * SECOND) {
        Lookup::Hit(_) => panic!("expected a fetch"),
        Lookup::Fetch(request) => {
            let result: Result<AccessToken, String> =
                cache.resume(request, Err("no token".to_string()));
            assert_eq!(result.err(), Some("no token".to_string()));
        }
    }
    assert_eq!(hit(&cache, &["a"], 0), Some("a1".to_string()));
}

#[test]
fn the_clock_decides_whether_a_token_is_fresh() {
    let now = OffsetDateTime::now_utc().unix_timestamp_nanos();
    let mut cache = CachedCredential::new(());
    fetch(&mut cache, &["late"], 0, token("late", now + 3600 * SECOND));
    fetch(&mut cache, &["early"], 0, token("early", now - 3600 * SECOND));
    assert!(matches!(cache.get_token(strings(&["late"])), Lookup::Hit(_)));
    assert!(matches!(cache.get_token(strings(&["early"])), Lookup::Fetch(_)));
}
