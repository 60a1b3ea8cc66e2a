//! An encrypted local cache for secrets.
//!
//! Secrets fetched from a remote store are kept on disk under authenticated
//! encryption: a single 256-bit key (managed by [`keystore::KeyStore`])
//! protects every cache entry (held by [`cachestore::CacheStore`]), and
//! [`secret_cache::SecretCache`] composes the two into encrypt-on-write /
//! decrypt-on-read storage with a full-wipe operation.

pub mod cachestore;
pub mod crypto;
pub mod encoding;
pub mod errors;
pub mod ids;
pub mod keystore;
pub mod payload;
pub mod resolver;
pub mod secret_cache;
pub mod settings;
