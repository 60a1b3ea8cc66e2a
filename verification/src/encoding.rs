use vstd::prelude::*;

use base64::engine::general_purpose::STANDARD;
use base64::Engine;

verus! {

/// What `base64::engine::general_purpose::STANDARD` encodes a byte string to:
/// the canonical padded base64 text, a deterministic function of the bytes.
pub uninterp spec fn b64_of(b: Seq<u8>) -> Seq<char>;

/// Relies on `STANDARD.encode`: the canonical base64 text of the bytes.
/// The length bound keeps the encoded length from overflowing `usize`.
#[verifier::external_body]
pub(crate) fn b64_encode(b: &[u8]) -> (r: String)
    requires
        b@.len() <= 0x1000_0000_0000,
    ensures
        r@ == b64_of(b@),
{
    STANDARD.encode(b)
}

/// Relies on `STANDARD.decode`: with canonical padding required and trailing
/// bits rejected (the `STANDARD` engine's configuration), decoding succeeds
/// exactly on canonical encodings, and inverts `STANDARD.encode`.
#[verifier::external_body]
pub(crate) fn b64_decode(s: &str) -> (r: Option<Vec<u8>>)
    ensures
        r matches Some(v) ==> s@ == b64_of(v@),
        r is None ==> forall|b: Seq<u8>| s@ != b64_of(b),
        r matches Some(v) ==> forall|b: Seq<u8>| s@ == b64_of(b) ==> v@ == b,
{
    STANDARD.decode(s).ok()
}

/// Relies on `String::from_utf8`: it succeeds exactly on valid UTF-8 and the
/// returned string's bytes are the input bytes.
#[verifier::external_body]
pub(crate) fn bytes_to_string(v: Vec<u8>) -> (r: Option<String>)
    ensures
        r is Some <==> vstd::utf8::valid_utf8(v@),
        r matches Some(s) ==> vstd::utf8::encode_utf8(s@) == v@,
{
    String::from_utf8(v).ok()
}

} // verus!
