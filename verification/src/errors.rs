use vstd::prelude::*;

verus! {

/// Why a read of a cached secret produced no payload.
#[derive(Clone, Copy, Debug, PartialEq, Eq, Structural)]
pub enum CacheReadError {
    /// No entry is stored under the identifier.
    CacheMiss,
    /// An entry exists but failed base64 decoding, authentication,
    /// UTF-8 recovery, or JSON parsing.
    CacheInvalid,
}

/// Why a write of a cache entry was refused.
#[derive(Clone, Copy, Debug, PartialEq, Eq, Structural)]
pub enum CacheWriteError {
    /// The identifier is empty, overlong, starts with a dot, or holds a
    /// path separator or NUL, so it may not name a cache entry.
    InvalidIdentifier,
    /// The plaintext is too large to encrypt and encode safely.
    PayloadTooLarge,
}

/// Why the encryption key could not be loaded.
#[derive(Clone, Copy, Debug, PartialEq, Eq, Structural)]
pub enum KeyError {
    /// A key file exists but does not hold exactly 32 bytes.
    InvalidKeyFormat,
}

/// Why a secret fetched from the remote source was rejected.
#[derive(Clone, Copy, Debug, PartialEq, Eq, Structural)]
pub enum ResolveError {
    /// The fetched payload is not a JSON object, so the secret cannot be
    /// used; fatal for this identifier.
    SourceInvalidPayload,
}

impl CacheReadError {
    /// A short description, for reporting at the integration layer.
    pub fn describe(&self) -> (r: &'static str)
        ensures
            *self is CacheMiss ==> r@ == "cache miss"@,
            *self is CacheInvalid ==> r@ == "cache entry invalid"@,
    {
        match self {
            CacheReadError::CacheMiss => "cache miss",
            CacheReadError::CacheInvalid => "cache entry invalid",
        }
    }
}

} // verus!
