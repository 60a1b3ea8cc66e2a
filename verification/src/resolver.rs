use vstd::prelude::*;

use vstd::utf8::encode_utf8;

use crate::crypto::MAX_PLAINTEXT_BYTES;
use crate::errors::ResolveError;
use crate::ids::id_valid;
use crate::payload::{json_object_entries, PlaintextSecret};
use crate::secret_cache::{blob_decodes_to, SecretCache};

verus! {

/// Accepts a payload fetched from the remote source after a cache miss or an
/// invalid entry: parses it — fatal for this identifier when it is not a
/// JSON object — and then caches it best-effort.  A cache-write refusal
/// (bad identifier, oversize payload) never discards the payload: the
/// secret is still returned for use in-process.
pub fn store_fetched(cache: &mut SecretCache, id: &str, content: &str) -> (r: Result<
    PlaintextSecret,
    ResolveError,
>)
    requires
        old(cache).wf(),
    ensures
        final(cache).wf(),
        final(cache).key_bytes() == old(cache).key_bytes(),
        r is Ok <==> json_object_entries(content@) is Some,
        r matches Ok(p) ==> p.wf() && p.raw@ == content@,
        r matches Err(e) ==> e == ResolveError::SourceInvalidPayload && final(cache).entries()
            == old(cache).entries(),
        (r is Ok && id_valid(id@) && encode_utf8(content@).len() <= MAX_PLAINTEXT_BYTES as int)
            ==> (final(cache).entries() == old(cache).entries().insert(
            id@,
            final(cache).entries()[id@],
        ) && blob_decodes_to(old(cache).key_bytes(), final(cache).entries()[id@], content@)),
        !(id_valid(id@) && encode_utf8(content@).len() <= MAX_PLAINTEXT_BYTES as int)
            ==> final(cache).entries() == old(cache).entries(),
    {
        let payload = match PlaintextSecret::parse(content) {
            Some(p) => p,
            None => {
                return Err(ResolveError::SourceInvalidPayload);
            },
        };
        match cache.put(id, content) {
            Ok(_) => {},
            Err(_) => {},
        }
        Ok(payload)
    }

} // verus!
