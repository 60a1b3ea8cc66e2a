use secret_wrapper::cachestore::CacheStore;
use secret_wrapper::errors::{CacheReadError, ResolveError};
use secret_wrapper::keystore::EncryptionKey;
use secret_wrapper::resolver::store_fetched;
use secret_wrapper::secret_cache::SecretCache;

fn fresh_cache() -> SecretCache {
    let key = EncryptionKey::from_bytes(vec![17u8; 32]).expect("32 bytes make a key");
    SecretCache::new(key, CacheStore::empty())
}

#[test]
fn fetched_secret_is_returned_and_cached() {
    let mut cache = fresh_cache();
    let payload = "{\"user\":\"a\",\"pass\":\"b\"}";
    let got = store_fetched(&mut cache, "db-creds", payload).expect("a JSON object is accepted");
    assert_eq!(got.raw, payload);
    let cached = cache.get("db-creds").expect("the fetched secret was cached");
    assert_eq!(cached.raw, payload);
}

#[test]
fn unparseable_fetch_is_fatal_and_not_cached() {
    let mut cache = fresh_cache();
    assert_eq!(
        store_fetched(&mut cache, "db-creds", "not a json").unwrap_err(),
        ResolveError::SourceInvalidPayload
    );
    assert_eq!(cache.get("db-creds").unwrap_err(), CacheReadError::CacheMiss);
}

#[test]
fn cache_write_refusal_still_returns_the_secret() {
    let mut cache = fresh_cache();
    let payload = "{\"user\":\"a\"}";
    let got = store_fetched(&mut cache, "../escape", payload)
        .expect("a bad identifier must not discard the secret");
    assert_eq!(got.raw, payload);
    assert!(cache.is_empty());
}
