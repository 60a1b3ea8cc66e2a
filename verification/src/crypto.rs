use vstd::prelude::*;

use aes_gcm::aead::Aead;
use aes_gcm::{Aes256Gcm, Key, KeyInit, Nonce};
use rand::rngs::OsRng;
use rand::RngCore;

verus! {

/// Length of the symmetric encryption key in bytes (AES-256).
pub const KEY_BYTES: usize = 32;

/// Length of the AEAD nonce in bytes (AES-GCM standard nonce).
pub const NONCE_BYTES: usize = 12;

/// Length of the authentication tag the AEAD appends to the ciphertext.
pub const TAG_BYTES: usize = 16;

/// Largest plaintext this cache will encrypt, in bytes.  Far below the
/// AEAD's own limit, and small enough that every derived length fits
/// comfortably in `usize`.
pub const MAX_PLAINTEXT_BYTES: usize = 0x1000_0000;

/// Largest plaintext AES-GCM itself accepts, in bytes.
pub const AEAD_PLAINTEXT_LIMIT: u64 = 0x10_0000_0000;

/// What AES-256-GCM returns for a given key, nonce and plaintext: the
/// ciphertext with the 16-byte authentication tag appended.  The result is a
/// deterministic function of the three arguments; it is meaningful whenever
/// the key has 32 bytes, the nonce 12, and the plaintext is within
/// [`AEAD_PLAINTEXT_LIMIT`].
pub uninterp spec fn aes_seal(key: Seq<u8>, nonce: Seq<u8>, pt: Seq<u8>) -> Seq<u8>;

/// Relies on `rand::rngs::OsRng::fill_bytes`, a CSPRNG: nothing is assumed of
/// the drawn values beyond the length, so every contract downstream holds
/// whatever bytes come back.
#[verifier::external_body]
pub(crate) fn os_random_bytes(n: usize) -> (r: Vec<u8>)
    ensures
        r@.len() == n,
{
    let mut buf = vec![0u8; n];
    OsRng.fill_bytes(&mut buf);
    buf
}

/// Relies on `Aes256Gcm::encrypt` (AES-256-GCM): encryption is a deterministic
/// function of key, nonce and plaintext; the result is the ciphertext with the
/// 16-byte tag appended, and the only failure is an over-long plaintext.
#[verifier::external_body]
pub(crate) fn aead_seal(key: &[u8], nonce: &[u8], pt: &[u8]) -> (r: Option<Vec<u8>>)
    requires
        key@.len() == KEY_BYTES,
        nonce@.len() == NONCE_BYTES,
    ensures
        r matches Some(c) ==> c@ == aes_seal(key@, nonce@, pt@) && c@.len() == pt@.len()
            + TAG_BYTES,
        pt@.len() <= AEAD_PLAINTEXT_LIMIT as int ==> r is Some,
{
    let cipher = Aes256Gcm::new(Key::<Aes256Gcm>::from_slice(key));
    match cipher.encrypt(Nonce::from_slice(nonce), pt) {
        Ok(c) => Some(c),
        Err(_) => None,
    }
}

/// Relies on `Aes256Gcm::decrypt` (AES-256-GCM): decryption returns a
/// plaintext exactly when the ciphertext is what encryption of that plaintext
/// under the same key and nonce produces; anything else fails authentication.
#[verifier::external_body]
pub(crate) fn aead_open(key: &[u8], nonce: &[u8], ct: &[u8]) -> (r: Option<Vec<u8>>)
    requires
        key@.len() == KEY_BYTES,
        nonce@.len() == NONCE_BYTES,
    ensures
        r matches Some(p) ==> p@.len() + TAG_BYTES == ct@.len() && ct@ == aes_seal(
            key@,
            nonce@,
            p@,
        ),
        r is None ==> forall|p: Seq<u8>|
            p.len() <= AEAD_PLAINTEXT_LIMIT as int ==> ct@ != aes_seal(key@, nonce@, p),
        r matches Some(q) ==> forall|p: Seq<u8>|
            p.len() <= AEAD_PLAINTEXT_LIMIT as int && ct@ == aes_seal(key@, nonce@, p) ==> q@
                == p,
{
    let cipher = Aes256Gcm::new(Key::<Aes256Gcm>::from_slice(key));
    match cipher.decrypt(Nonce::from_slice(nonce), ct) {
        Ok(p) => Some(p),
        Err(_) => None,
    }
}

/// Joins two byte strings, as `nonce || ciphertext` is laid out on disk.
pub fn concat_bytes(a: &[u8], b: &[u8]) -> (r: Vec<u8>)
    ensures
        r@ == a@ + b@,
{
    let mut out: Vec<u8> = Vec::new();
    let mut i: usize = 0;
    while i < a.len()
        invariant
            i <= a@.len(),
            out@ == a@.subrange(0, i as int),
        decreases a@.len() - i,
    {
        out.push(a[i]);
        i += 1;
    }
    assert(out@ == a@);
    let mut j: usize = 0;
    while j < b.len()
        invariant
            j <= b@.len(),
            out@ == a@ + b@.subrange(0, j as int),
        decreases b@.len() - j,
    {
        out.push(b[j]);
        j += 1;
    }
    assert(a@ + b@.subrange(0, b@.len() as int) == a@ + b@);
    out
}

} // verus!
