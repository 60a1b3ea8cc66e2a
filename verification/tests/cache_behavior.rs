use secret_wrapper::cachestore::CacheStore;
use secret_wrapper::errors::{CacheReadError, CacheWriteError, KeyError};
use secret_wrapper::keystore::{EncryptionKey, KeyStore};
use secret_wrapper::secret_cache::{put_then_get, SecretCache};

fn test_key(seed: u8) -> EncryptionKey {
    let bytes: Vec<u8> = (0u8..32u8).map(|i| i.wrapping_add(seed)).collect();
    EncryptionKey::from_bytes(bytes).expect("32 bytes make a key")
}

fn fresh_cache(seed: u8) -> SecretCache {
    SecretCache::new(test_key(seed), CacheStore::empty())
}

#[test]
fn round_trip() {
    let mut cache = fresh_cache(0);
    let payload = "{\"user\":\"a\",\"pass\":\"b\"}";
    cache.put("db-creds", payload).expect("write accepted");
    let got = cache.get("db-creds").expect("entry decrypts");
    assert_eq!(got.raw, payload);
    assert_eq!(got.entries.len(), 2);
    for entry in &got.entries {
        match entry.name.as_str() {
            "user" => assert_eq!(entry.text.as_deref(), Some("a")),
            "pass" => assert_eq!(entry.text.as_deref(), Some("b")),
            other => panic!("unexpected entry {}", other),
        }
    }
}

#[test]
fn round_trip_helper_returns_payload() {
    let mut cache = fresh_cache(7);
    let payload = "{\"token\":\"xyz\"}";
    let got = put_then_get(&mut cache, "api-token", payload).expect("round trip succeeds");
    assert_eq!(got.raw, payload);
}

#[test]
fn miss_then_populate() {
    let mut cache = fresh_cache(1);
    assert_eq!(cache.get("db-creds").unwrap_err(), CacheReadError::CacheMiss);
    cache.put("db-creds", "{\"user\":\"a\"}").expect("write accepted");
    let got = cache.get("db-creds").expect("entry decrypts");
    assert_eq!(got.raw, "{\"user\":\"a\"}");
}

#[test]
fn tamper_detection_every_byte() {
    let mut cache = fresh_cache(2);
    cache.put("db-creds", "{\"user\":\"a\",\"pass\":\"b\"}").expect("write accepted");
    let (key, store) = cache.into_parts();
    let blob = store.read("db-creds").expect("entry stored");
    let mut key = key;
    let mut store = store;
    for i in 0..blob.len() {
        let mut bytes = blob.clone().into_bytes();
        bytes[i] = if bytes[i] == b'A' { b'B' } else { b'A' };
        let tampered = String::from_utf8(bytes).expect("still ascii");
        assert_ne!(tampered, blob);
        store.write("db-creds", tampered).expect("write accepted");
        let cache = SecretCache::new(key, store);
        assert_eq!(
            cache.get("db-creds").unwrap_err(),
            CacheReadError::CacheInvalid,
            "flipping byte {} must invalidate the entry",
            i
        );
        let parts = cache.into_parts();
        key = parts.0;
        store = parts.1;
    }
}

#[test]
fn tamper_detection_truncation() {
    let mut cache = fresh_cache(3);
    cache.put("db-creds", "{\"user\":\"a\",\"pass\":\"b\"}").expect("write accepted");
    let (key, mut store) = cache.into_parts();
    let blob = store.read("db-creds").expect("entry stored");
    let truncated = blob[..blob.len() / 2].to_string();
    store.write("db-creds", truncated).expect("write accepted");
    let cache = SecretCache::new(key, store);
    assert_eq!(cache.get("db-creds").unwrap_err(), CacheReadError::CacheInvalid);
}

#[test]
fn key_loss_invalidation() {
    let mut cache = fresh_cache(4);
    cache.put("db-creds", "{\"user\":\"a\"}").expect("write accepted");
    let (_old_key, store) = cache.into_parts();
    let cache = SecretCache::new(test_key(99), store);
    assert_eq!(cache.get("db-creds").unwrap_err(), CacheReadError::CacheInvalid);
}

#[test]
fn purge_completeness() {
    let mut keys = KeyStore::new(None);
    let first = keys.load_or_create().expect("fresh key generated");
    assert_eq!(first.as_bytes().len(), 32);
    assert!(keys.key_file().is_some());

    let mut cache = SecretCache::new(first, CacheStore::empty());
    cache.put("db-creds", "{\"user\":\"a\"}").expect("write accepted");
    cache.put("api-token", "{\"token\":\"t\"}").expect("write accepted");
    assert!(!cache.is_empty());

    cache.purge(&mut keys);
    assert!(cache.is_empty());
    assert!(keys.key_file().is_none());
    assert_eq!(cache.get("db-creds").unwrap_err(), CacheReadError::CacheMiss);

    let (first, _) = cache.into_parts();
    let second = keys.load_or_create().expect("fresh key generated");
    assert_eq!(second.as_bytes().len(), 32);
    assert_ne!(second.as_bytes(), first.as_bytes());
}

#[test]
fn idempotent_clear() {
    let mut keys = KeyStore::new(None);
    let mut cache = fresh_cache(5);
    cache.purge(&mut keys);
    cache.purge(&mut keys);
    assert!(cache.is_empty());
    assert!(keys.key_file().is_none());

    let mut store = CacheStore::empty();
    store.clear_all();
    store.clear_all();
    assert!(store.is_empty());
    keys.wipe();
    keys.wipe();
    assert!(keys.key_file().is_none());
}

#[test]
fn key_file_loaded_verbatim() {
    let bytes: Vec<u8> = vec![9u8; 32];
    let mut keys = KeyStore::new(Some(bytes.clone()));
    let key = keys.load_or_create().expect("32 bytes load");
    assert_eq!(key.as_bytes(), &bytes);
    assert_eq!(keys.key_file().as_deref(), Some(bytes.as_slice()));
}

#[test]
fn short_key_file_is_invalid() {
    let mut keys = KeyStore::new(Some(vec![1u8; 16]));
    assert_eq!(keys.load_or_create().unwrap_err(), KeyError::InvalidKeyFormat);
    assert_eq!(keys.key_file().as_deref(), Some(vec![1u8; 16].as_slice()));
    assert_eq!(EncryptionKey::from_bytes(vec![1u8; 33]).unwrap_err(), KeyError::InvalidKeyFormat);
}

#[test]
fn invalid_identifiers_are_refused() {
    let mut store = CacheStore::empty();
    for bad in ["", ".", "..", ".hidden", "a/b", "a\\b", "a\0b"] {
        assert_eq!(
            store.write(bad, String::from("blob")).unwrap_err(),
            CacheWriteError::InvalidIdentifier,
            "identifier {:?} must be refused",
            bad
        );
    }
    let long = "x".repeat(256);
    assert_eq!(
        store.write(&long, String::from("blob")).unwrap_err(),
        CacheWriteError::InvalidIdentifier
    );
    let just_fits = "x".repeat(255);
    assert!(store.write(&just_fits, String::from("blob")).is_ok());

    let mut cache = fresh_cache(6);
    assert_eq!(
        cache.put("../escape", "{}").unwrap_err(),
        CacheWriteError::InvalidIdentifier
    );
}

#[test]
fn store_overwrites_and_reads_verbatim() {
    let mut store = CacheStore::empty();
    store.write("id-1", String::from("first")).expect("write accepted");
    store.write("id-2", String::from("other")).expect("write accepted");
    store.write("id-1", String::from("second")).expect("write accepted");
    assert_eq!(store.read("id-1").unwrap(), "second");
    assert_eq!(store.read("id-2").unwrap(), "other");
    assert_eq!(store.read("id-3").unwrap_err(), CacheReadError::CacheMiss);
}

#[test]
fn error_descriptions() {
    assert_eq!(CacheReadError::CacheMiss.describe(), "cache miss");
    assert_eq!(CacheReadError::CacheInvalid.describe(), "cache entry invalid");
}
