//! Keys and their derivation from a password.

use vstd::prelude::*;
use vstd::utf8::encode_utf8;
use crate::primitives::{sha256, sha256_digest};

verus! {

/// Length of a key in bytes.
pub const KEY_LEN: usize = 16;

/// A 128-bit symmetric key.
#[derive(Clone, Copy, Debug, PartialEq, Eq)]
pub struct Key {
    pub bytes: [u8; 16],
}

impl View for Key {
    type V = Seq<u8>;

    open spec fn view(&self) -> Seq<u8> {
        self.bytes@
    }
}

/// The first 128 bits of the SHA-256 digest of `secret`.
pub open spec fn digest_prefix(secret: Seq<u8>) -> Seq<u8> {
    sha256(secret).subrange(0, 16)
}

/// The key that belongs to `password`: the digest prefix of its UTF-8 bytes.
/// No salt and no iteration count enter into it.
pub open spec fn derived_key(password: Seq<char>) -> Seq<u8> {
    digest_prefix(encode_utf8(password))
}

/// Hashes `secret` and keeps the first sixteen bytes of the digest.
pub fn hash_prefix(secret: &[u8]) -> (out: [u8; 16])
    ensures
        out@ == digest_prefix(secret@),
{
    let digest = sha256_digest(secret);
    let mut out = [0u8; 16];
    let mut i: usize = 0;
    while i < 16
        invariant
            i <= 16,
            digest@ == sha256(secret@),
            forall|j: int| 0 <= j < i ==> out@[j] == digest@[j],
        decreases 16 - i,
    {
        out[i] = digest[i];
        i += 1;
    }
    assert(out@ =~= digest_prefix(secret@));
    out
}

impl Key {
    /// The key made of exactly these bytes.
    pub fn from_bytes(bytes: [u8; 16]) -> (key: Key)
        ensures
            key@ == bytes@,
    {
        Key { bytes }
    }

    /// The sixteen bytes of the key.
    pub fn as_bytes(&self) -> (bytes: &[u8; 16])
        ensures
            bytes@ == self@,
    {
        &self.bytes
    }
}

/// Derives the key for `password`.
///
/// The same password always gives the same key.
pub fn derive_key(password: &str) -> (key: Key)
    ensures
        key@ == derived_key(password@),
        key@.len() == KEY_LEN,
{
    Key { bytes: hash_prefix(password.as_bytes()) }
}

} // verus!
