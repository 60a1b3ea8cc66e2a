use base64::engine::general_purpose::STANDARD;
use base64::Engine;
use secret_wrapper::cachestore::CacheStore;
use secret_wrapper::keystore::EncryptionKey;
use secret_wrapper::payload::PlaintextSecret;
use secret_wrapper::secret_cache::SecretCache;

fn fresh_cache() -> SecretCache {
    let key = EncryptionKey::from_bytes(vec![42u8; 32]).expect("32 bytes make a key");
    SecretCache::new(key, CacheStore::empty())
}

#[test]
fn test_secret_parsing() {
    let secret_string =
        "{\"DB_HOST\":\"localhost\",\"DB_PORT\":\"5432\",\"API_KEY\":\"test-key\"}";
    let secrets = PlaintextSecret::parse(secret_string).expect("a JSON object parses");
    assert_eq!(secrets.entries.len(), 3);
    let text_of = |name: &str| {
        secrets
            .entries
            .iter()
            .find(|e| e.name == name)
            .and_then(|e| e.text.clone())
            .expect("entry present with string content")
    };
    assert_eq!(text_of("DB_HOST"), "localhost");
    assert_eq!(text_of("DB_PORT"), "5432");
    assert_eq!(text_of("API_KEY"), "test-key");
}

#[test]
fn test_invalid_secret_format() {
    let invalid_secret = "not a json";
    assert!(PlaintextSecret::parse(invalid_secret).is_none());
}

#[test]
fn non_object_json_is_rejected() {
    assert!(PlaintextSecret::parse("[1, 2, 3]").is_none());
    assert!(PlaintextSecret::parse("\"just a string\"").is_none());
    assert!(PlaintextSecret::parse("{}").map(|p| p.entries.len()) == Some(0));
}

#[test]
fn non_string_members_carry_no_text() {
    let secrets = PlaintextSecret::parse("{\"port\":5432,\"host\":\"db\"}")
        .expect("a JSON object parses");
    for entry in &secrets.entries {
        match entry.name.as_str() {
            "port" => assert_eq!(entry.text, None),
            "host" => assert_eq!(entry.text.as_deref(), Some("db")),
            other => panic!("unexpected entry {}", other),
        }
    }
}

#[test]
fn stored_blob_is_really_encrypted() {
    let cache = fresh_cache();
    let payload = "{\"user\":\"a\",\"pass\":\"b\"}";
    let blob = cache.encrypt_content(payload).expect("payload fits");
    assert_ne!(blob, payload, "the stored text must not be the plaintext");
    let combined = STANDARD.decode(&blob).expect("the blob is canonical base64");
    assert_eq!(
        combined.len(),
        12 + payload.len() + 16,
        "nonce, ciphertext and tag are all present"
    );
    assert_ne!(
        &combined[12..12 + payload.len()],
        payload.as_bytes(),
        "the ciphertext must differ from the plaintext"
    );
    let recovered = cache.decrypt_content(&blob).expect("own blob decrypts");
    assert_eq!(recovered, payload);
}

#[test]
fn fresh_nonce_every_encryption() {
    let cache = fresh_cache();
    let payload = "{\"user\":\"a\"}";
    let first = cache.encrypt_content(payload).expect("payload fits");
    let second = cache.encrypt_content(payload).expect("payload fits");
    assert_ne!(first, second, "each encryption must draw a fresh nonce");
    assert_eq!(cache.decrypt_content(&first).expect("decrypts"), payload);
    assert_eq!(cache.decrypt_content(&second).expect("decrypts"), payload);
}

#[test]
fn crypto_layer_round_trip() {
    let cache = fresh_cache();
    let not_json = "any text at all, not just JSON objects";
    let got = secret_wrapper::secret_cache::encrypt_then_decrypt(&cache, not_json)
        .expect("round trip succeeds");
    assert_eq!(got, not_json);
}

#[test]
fn garbage_blob_does_not_decrypt() {
    let cache = fresh_cache();
    assert!(cache.decrypt_content("not base64 at all!").is_err());
    let short = STANDARD.encode([1u8, 2, 3]);
    assert!(cache.decrypt_content(&short).is_err());
}
