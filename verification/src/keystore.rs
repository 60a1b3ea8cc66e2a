use vstd::prelude::*;

use crate::crypto::{os_random_bytes, KEY_BYTES};
use crate::errors::KeyError;

verus! {

/// The single 256-bit symmetric key every cache entry is encrypted under.
/// Immutable once loaded; held only here and inside a `SecretCache`.
#[derive(Debug)]
pub struct EncryptionKey {
    bytes: Vec<u8>,
}

impl View for EncryptionKey {
    type V = Seq<u8>;

    closed spec fn view(&self) -> Seq<u8> {
        self.bytes@
    }
}

impl EncryptionKey {
    /// A key is exactly 32 bytes.
    pub open spec fn wf(&self) -> bool {
        self@.len() == KEY_BYTES
    }

    /// Validates raw bytes (say, the contents of the key file) as a key:
    /// accepted exactly when there are 32 of them, and kept verbatim.
    pub fn from_bytes(bytes: Vec<u8>) -> (r: Result<EncryptionKey, KeyError>)
        ensures
            r is Ok <==> bytes@.len() == KEY_BYTES,
            r matches Ok(k) ==> k@ == bytes@ && k.wf(),
            r matches Err(e) ==> e == KeyError::InvalidKeyFormat,
    {
        if bytes.len() == KEY_BYTES {
            Ok(EncryptionKey { bytes })
        } else {
            Err(KeyError::InvalidKeyFormat)
        }
    }

    /// The raw key bytes, for persisting the key file.
    pub fn as_bytes(&self) -> (r: &Vec<u8>)
        ensures
            r@ == self@,
    {
        &self.bytes
    }
}

/// The key file on disk, modelled as its contents: `None` when the file is
/// absent, `Some(bytes)` when it holds `bytes`.  The integration layer loads
/// the real file into a `KeyStore` and mirrors every change back to disk.
#[derive(Debug)]
pub struct KeyStore {
    stored: Option<Vec<u8>>,
}

impl View for KeyStore {
    type V = Option<Seq<u8>>;

    closed spec fn view(&self) -> Option<Seq<u8>> {
        match self.stored {
            Some(b) => Some(b@),
            None => None,
        }
    }
}

impl KeyStore {
    /// Wraps the key file's contents as read from disk (`None` if absent).
    pub fn new(stored: Option<Vec<u8>>) -> (r: KeyStore)
        ensures
            r@ == stored.deep_view(),
    {
        KeyStore { stored }
    }

    /// Loads the persisted key, or creates one.  An existing file must hold
    /// exactly 32 bytes, otherwise the key is invalid and nothing proceeds
    /// with a guessed key.  When no file exists, 32 bytes are drawn from a
    /// CSPRNG and persisted.
    pub fn load_or_create(&mut self) -> (r: Result<EncryptionKey, KeyError>)
        ensures
            r matches Ok(k) ==> k.wf() && final(self)@ == Some(k@),
            r is Ok <==> (old(self)@ is None || (old(self)@ matches Some(b) && b.len()
                == KEY_BYTES)),
            old(self)@ matches Some(b) ==> final(self)@ == old(self)@ && (r matches Ok(k) ==> k@
                == b),
            r matches Err(e) ==> e == KeyError::InvalidKeyFormat && final(self)@ == old(self)@,
    {
        match &self.stored {
            Some(b) => {
                if b.len() == KEY_BYTES {
                    Ok(EncryptionKey { bytes: vstd::slice::slice_to_vec(b.as_slice()) })
                } else {
                    Err(KeyError::InvalidKeyFormat)
                }
            },
            None => {
                let k = os_random_bytes(KEY_BYTES);
                let copy = vstd::slice::slice_to_vec(k.as_slice());
                self.stored = Some(copy);
                Ok(EncryptionKey { bytes: k })
            },
        }
    }

    /// Deletes the key file; a no-op when it is already absent.
    pub fn wipe(&mut self)
        ensures
            final(self)@ is None,
    {
        self.stored = None;
    }

    /// The key file's contents, for mirroring to disk and for inspection.
    pub fn key_file(&self) -> (r: &Option<Vec<u8>>)
        ensures
            r.deep_view() == self@,
    {
        &self.stored
    }
}

} // verus!
