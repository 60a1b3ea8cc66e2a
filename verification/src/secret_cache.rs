use vstd::prelude::*;

use vstd::slice::slice_subrange;
use vstd::utf8::{encode_utf8, encode_utf8_decode_utf8, encode_utf8_valid_utf8};

use crate::cachestore::CacheStore;
use crate::crypto::{
    aead_open, aead_seal, aes_seal, concat_bytes, os_random_bytes, AEAD_PLAINTEXT_LIMIT,
    MAX_PLAINTEXT_BYTES, NONCE_BYTES,
};
use crate::encoding::{b64_decode, b64_encode, b64_of, bytes_to_string};
use crate::errors::{CacheReadError, CacheWriteError};
use crate::ids::{check_identifier, id_valid};
use crate::keystore::{EncryptionKey, KeyStore};
use crate::payload::{json_object_entries, PlaintextSecret};

verus! {

/// True when `blob` is the stored form of the payload text `s` under `key`:
/// the canonical base64 text of `nonce || ciphertext`, where the ciphertext
/// (tag included) is what AES-256-GCM makes of the payload's UTF-8 bytes
/// under `key` and that nonce.
pub open spec fn blob_decodes_to(key: Seq<u8>, blob: Seq<char>, s: Seq<char>) -> bool {
    exists|n: Seq<u8>|
        {
            &&& n.len() == NONCE_BYTES as int
            &&& encode_utf8(s).len() <= MAX_PLAINTEXT_BYTES as int
            &&& blob == b64_of(n + #[trigger] aes_seal(key, n, encode_utf8(s)))
        }
}

/// Authenticated, confidential storage of secret payloads keyed by
/// identifier: every entry in the backing [`CacheStore`] is encrypted under
/// the single [`EncryptionKey`], which is immutable for the process's
/// lifetime once loaded.
pub struct SecretCache {
    key: EncryptionKey,
    store: CacheStore,
}

impl SecretCache {
    /// The bytes of the key every entry is encrypted under.
    pub closed spec fn key_bytes(&self) -> Seq<u8> {
        self.key@
    }

    /// The stored entries: identifier to blob text.
    pub closed spec fn entries(&self) -> Map<Seq<char>, Seq<char>> {
        self.store@
    }

    /// The key has 32 bytes and the backing store is well formed.
    pub closed spec fn wf(&self) -> bool {
        self.key.wf() && self.store.wf()
    }

    /// Composes a loaded key with a loaded store.
    pub fn new(key: EncryptionKey, store: CacheStore) -> (r: SecretCache)
        requires
            key.wf(),
            store.wf(),
        ensures
            r.wf(),
            r.key_bytes() == key@,
            r.entries() == store@,
    {
        SecretCache { key, store }
    }

    /// Takes the cache apart again, returning the key and the store.
    pub fn into_parts(self) -> (r: (EncryptionKey, CacheStore))
        requires
            self.wf(),
        ensures
            r.0.wf(),
            r.1.wf(),
            r.0@ == self.key_bytes(),
            r.1@ == self.entries(),
    {
        (self.key, self.store)
    }

    /// Encrypts a payload text for storage: a fresh random 12-byte nonce, the
    /// AEAD ciphertext of the payload's UTF-8 bytes, and the base64 text of
    /// `nonce || ciphertext`.  Refused exactly when the payload is too large.
    pub fn encrypt_content(&self, content: &str) -> (r: Result<String, CacheWriteError>)
        requires
            self.wf(),
        ensures
            r matches Ok(b) ==> blob_decodes_to(self.key_bytes(), b@, content@),
            r is Ok <==> encode_utf8(content@).len() <= MAX_PLAINTEXT_BYTES as int,
            r matches Err(e) ==> e == CacheWriteError::PayloadTooLarge,
    {
        let pt: Vec<u8> = content.as_bytes_vec();
        if pt.len() > MAX_PLAINTEXT_BYTES {
            return Err(CacheWriteError::PayloadTooLarge);
        }
        let nonce = os_random_bytes(NONCE_BYTES);
        let sealed = aead_seal(self.key.as_bytes().as_slice(), nonce.as_slice(), pt.as_slice());
        let ct = sealed.unwrap();
        let combined = concat_bytes(nonce.as_slice(), ct.as_slice());
        let blob = b64_encode(combined.as_slice());
        proof {
            assert(blob@ == b64_of(nonce@ + aes_seal(self.key_bytes(), nonce@, encode_utf8(
                content@,
            ))));
        }
        Ok(blob)
    }

    /// Decrypts a stored blob back to the payload text.  Succeeds exactly on
    /// blobs that are the stored form of some payload under this cache's key
    /// — and then returns that payload, which is unique; everything else
    /// (bad base64, too short, failed authentication, invalid UTF-8) is
    /// `CacheInvalid`.
    pub fn decrypt_content(&self, blob: &str) -> (r: Result<String, CacheReadError>)
        requires
            self.wf(),
        ensures
            r matches Ok(s) ==> blob_decodes_to(self.key_bytes(), blob@, s@),
            r matches Ok(s) ==> forall|t: Seq<char>|
                blob_decodes_to(self.key_bytes(), blob@, t) ==> t == s@,
            r is Err ==> !exists|t: Seq<char>| blob_decodes_to(self.key_bytes(), blob@, t),
            r matches Err(e) ==> e == CacheReadError::CacheInvalid,
    {
        let ghost k = self.key_bytes();
        let decoded = match b64_decode(blob) {
            Some(d) => d,
            None => {
                proof {
                    assert(!exists|t: Seq<char>| blob_decodes_to(k, blob@, t)) by {
                        if exists|t: Seq<char>| blob_decodes_to(k, blob@, t) {
                            let t = choose|t: Seq<char>| blob_decodes_to(k, blob@, t);
                            let n = choose|n: Seq<u8>|
                                {
                                    &&& n.len() == NONCE_BYTES as int
                                    &&& encode_utf8(t).len() <= MAX_PLAINTEXT_BYTES as int
                                    &&& blob@ == b64_of(n + #[trigger] aes_seal(k, n, encode_utf8(
                                        t,
                                    )))
                                };
                            assert(blob@ != b64_of(n + aes_seal(k, n, encode_utf8(t))));
                        }
                    }
                }
                return Err(CacheReadError::CacheInvalid);
            },
        };
        if decoded.len() < NONCE_BYTES {
            proof {
                assert(!exists|t: Seq<char>| blob_decodes_to(k, blob@, t)) by {
                    if exists|t: Seq<char>| blob_decodes_to(k, blob@, t) {
                        let t = choose|t: Seq<char>| blob_decodes_to(k, blob@, t);
                        let n = choose|n: Seq<u8>|
                            {
                                &&& n.len() == NONCE_BYTES as int
                                &&& encode_utf8(t).len() <= MAX_PLAINTEXT_BYTES as int
                                &&& blob@ == b64_of(n + #[trigger] aes_seal(k, n, encode_utf8(t)))
                            };
                        assert(decoded@ == n + aes_seal(k, n, encode_utf8(t)));
                        assert(decoded@.len() >= NONCE_BYTES as int);
                    }
                }
            }
            return Err(CacheReadError::CacheInvalid);
        }
        let nonce = slice_subrange(decoded.as_slice(), 0, NONCE_BYTES);
        let ct = slice_subrange(decoded.as_slice(), NONCE_BYTES, decoded.len());
        proof {
            assert(decoded@ == nonce@ + ct@) by {
                assert(decoded@ =~= decoded@.subrange(0, NONCE_BYTES as int) + decoded@.subrange(
                    NONCE_BYTES as int,
                    decoded@.len() as int,
                ));
            }
            assert forall|t: Seq<char>| blob_decodes_to(k, blob@, t) implies ct@ == aes_seal(
                k,
                nonce@,
                encode_utf8(t),
            ) by {
                let n = choose|n: Seq<u8>|
                    {
                        &&& n.len() == NONCE_BYTES as int
                        &&& encode_utf8(t).len() <= MAX_PLAINTEXT_BYTES as int
                        &&& blob@ == b64_of(n + #[trigger] aes_seal(k, n, encode_utf8(t)))
                    };
                let body = aes_seal(k, n, encode_utf8(t));
                assert(decoded@ == n + body);
                assert(n =~= (n + body).subrange(0, NONCE_BYTES as int));
                assert(body =~= (n + body).subrange(NONCE_BYTES as int, (n + body).len() as int));
            }
        }
        let opened = match aead_open(self.key.as_bytes().as_slice(), nonce, ct) {
            Some(p) => p,
            None => {
                proof {
                    assert(!exists|t: Seq<char>| blob_decodes_to(k, blob@, t)) by {
                        if exists|t: Seq<char>| blob_decodes_to(k, blob@, t) {
                            let t = choose|t: Seq<char>| blob_decodes_to(k, blob@, t);
                            assert(encode_utf8(t).len() <= AEAD_PLAINTEXT_LIMIT as int);
                            assert(ct@ != aes_seal(k, nonce@, encode_utf8(t)));
                        }
                    }
                }
                return Err(CacheReadError::CacheInvalid);
            },
        };
        proof {
            assert forall|t: Seq<char>| blob_decodes_to(k, blob@, t) implies opened@ == encode_utf8(
                t,
            ) by {
                assert(encode_utf8(t).len() <= AEAD_PLAINTEXT_LIMIT as int);
            }
        }
        if opened.len() > MAX_PLAINTEXT_BYTES {
            proof {
                assert(!exists|t: Seq<char>| blob_decodes_to(k, blob@, t)) by {
                    if exists|t: Seq<char>| blob_decodes_to(k, blob@, t) {
                        let t = choose|t: Seq<char>| blob_decodes_to(k, blob@, t);
                        assert(opened@ == encode_utf8(t));
                    }
                }
            }
            return Err(CacheReadError::CacheInvalid);
        }
        let ghost opened_bytes = opened@;
        let s = match bytes_to_string(opened) {
            Some(s) => s,
            None => {
                proof {
                    assert(!exists|t: Seq<char>| blob_decodes_to(k, blob@, t)) by {
                        if exists|t: Seq<char>| blob_decodes_to(k, blob@, t) {
                            let t = choose|t: Seq<char>| blob_decodes_to(k, blob@, t);
                            assert(opened_bytes == encode_utf8(t));
                            encode_utf8_valid_utf8(t);
                        }
                    }
                }
                return Err(CacheReadError::CacheInvalid);
            },
        };
        proof {
            assert(blob_decodes_to(k, blob@, s@)) by {
                assert(encode_utf8(s@) == opened_bytes);
                assert(decoded@ == nonce@ + ct@);
                assert(ct@ == aes_seal(k, nonce@, opened_bytes));
                assert(blob@ == b64_of(decoded@));
                assert(blob@ == b64_of(nonce@ + aes_seal(k, nonce@, encode_utf8(s@))));
            }
            assert forall|t: Seq<char>| blob_decodes_to(k, blob@, t) implies t == s@ by {
                assert(opened_bytes == encode_utf8(t));
                assert(encode_utf8(t) == encode_utf8(s@));
                encode_utf8_decode_utf8(t);
                encode_utf8_decode_utf8(s@);
            }
        }
        Ok(s)
    }

    /// Encrypts `content` and stores it under `id`, replacing any existing
    /// entry.  Refused exactly when the identifier may not name a cache
    /// entry, or the payload is too large; a refusal leaves the cache
    /// unchanged.
    pub fn put(&mut self, id: &str, content: &str) -> (r: Result<(), CacheWriteError>)
        requires
            old(self).wf(),
        ensures
            final(self).wf(),
            final(self).key_bytes() == old(self).key_bytes(),
            match r {
                Ok(_) => id_valid(id@) && encode_utf8(content@).len()
                    <= MAX_PLAINTEXT_BYTES as int,
                Err(CacheWriteError::InvalidIdentifier) => !id_valid(id@),
                Err(CacheWriteError::PayloadTooLarge) => id_valid(id@) && encode_utf8(content@).len()
                    > MAX_PLAINTEXT_BYTES as int,
            },
            r is Ok ==> final(self).entries() == old(self).entries().insert(
                id@,
                final(self).entries()[id@],
            ) && blob_decodes_to(old(self).key_bytes(), final(self).entries()[id@], content@),
            r is Err ==> final(self).entries() == old(self).entries(),
    {
        if !check_identifier(id) {
            return Err(CacheWriteError::InvalidIdentifier);
        }
        let blob = match self.encrypt_content(content) {
            Ok(b) => b,
            Err(e) => {
                return Err(e);
            },
        };
        match self.store.write(id, blob) {
            Ok(_) => Ok(()),
            Err(e) => {
                // unreachable: the store never refuses an identifier that
                // passed the check above
                proof {
                    assert(false);
                }
                Err(e)
            },
        }
    }

    /// Reads and decrypts the entry stored under `id`.  `CacheMiss` exactly
    /// when no entry exists; a payload exactly when the stored blob is the
    /// stored form of a JSON-object payload under this cache's key — and
    /// then it is that payload; everything else is `CacheInvalid`.
    pub fn get(&self, id: &str) -> (r: Result<PlaintextSecret, CacheReadError>)
        requires
            self.wf(),
        ensures
            r matches Err(CacheReadError::CacheMiss) <==> !self.entries().dom().contains(id@),
            r matches Ok(p) ==> p.wf() && self.entries().dom().contains(id@) && blob_decodes_to(
                self.key_bytes(),
                self.entries()[id@],
                p.raw@,
            ),
            forall|s: Seq<char>|
                (self.entries().dom().contains(id@) && blob_decodes_to(
                    self.key_bytes(),
                    self.entries()[id@],
                    s,
                ) && json_object_entries(s) is Some) ==> (r matches Ok(p) && p.raw@ == s),
    {
        let blob = match self.store.read(id) {
            Ok(b) => b,
            Err(_) => {
                return Err(CacheReadError::CacheMiss);
            },
        };
        let text = match self.decrypt_content(blob.as_str()) {
            Ok(t) => t,
            Err(e) => {
                return Err(e);
            },
        };
        match PlaintextSecret::parse(text.as_str()) {
            Some(p) => Ok(p),
            None => Err(CacheReadError::CacheInvalid),
        }
    }

    /// Deletes every cache entry and wipes the encryption key file, as one
    /// logical clean-slate operation; succeeds also when the cache is
    /// already empty or the key file already absent.
    pub fn purge(&mut self, keys: &mut KeyStore)
        requires
            old(self).wf(),
        ensures
            final(self).wf(),
            final(self).key_bytes() == old(self).key_bytes(),
            final(self).entries() == Map::<Seq<char>, Seq<char>>::empty(),
            final(keys)@ is None,
    {
        self.store.clear_all();
        keys.wipe();
    }

    /// The backing store, for mirroring entries to disk.
    pub fn backing(&self) -> (r: &CacheStore)
        requires
            self.wf(),
        ensures
            r.wf(),
            r@ == self.entries(),
    {
        &self.store
    }

    /// True when no entry is stored.
    pub fn is_empty(&self) -> (r: bool)
        ensures
            r <==> self.entries() =~= Map::<Seq<char>, Seq<char>>::empty(),
    {
        self.store.is_empty()
    }
}

/// Round trip at the crypto layer: decrypting what `encrypt_content`
/// produced recovers the payload text byte-identically, for every payload
/// within the size bound — no JSON structure required.
pub fn encrypt_then_decrypt(cache: &SecretCache, content: &str) -> (r: Option<String>)
    requires
        cache.wf(),
    ensures
        encode_utf8(content@).len() <= MAX_PLAINTEXT_BYTES as int ==> (r matches Some(s) && s@
            == content@),
{
    let blob = match cache.encrypt_content(content) {
        Ok(b) => b,
        Err(_) => {
            return None;
        },
    };
    match cache.decrypt_content(blob.as_str()) {
        Ok(s) => Some(s),
        Err(_) => None,
    }
}

/// Round trip, and the populate half of miss-then-populate: storing a
/// JSON-object payload of acceptable size under a valid identifier and
/// immediately reading it back yields exactly the stored payload.
pub fn put_then_get(cache: &mut SecretCache, id: &str, content: &str) -> (r: Option<
    PlaintextSecret,
>)
    requires
        old(cache).wf(),
    ensures
        final(cache).wf(),
        final(cache).key_bytes() == old(cache).key_bytes(),
        (id_valid(id@) && encode_utf8(content@).len() <= MAX_PLAINTEXT_BYTES as int
            && json_object_entries(content@) is Some) ==> (r matches Some(p) && p.raw@ == content@
            && p.wf()),
        r matches Some(p) ==> p.wf(),
{
    match cache.put(id, content) {
        Ok(_) => {},
        Err(_) => {
            return None;
        },
    }
    match cache.get(id) {
        Ok(p) => Some(p),
        Err(_) => None,
    }
}

} // verus!
