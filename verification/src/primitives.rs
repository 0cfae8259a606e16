//! The trusted layer: what this crate takes from the cipher, hash and random
//! number crates, and what it assumes of them.
//!
//! Nothing here is proved. Each function states, over the names declared
//! below, what the call it makes returns; the rest of the crate is verified
//! against these statements.

use vstd::prelude::*;
use crate::block::{block_at, padded_len, xor_bytes, zero_padded};
use aes::Aes128;
use block_modes::block_padding::ZeroPadding;
use block_modes::{BlockMode, Cbc, Cfb, Ecb};
use ctr::cipher::stream::{NewStreamCipher, SyncStreamCipher};
use ctr::Ctr128;
use rand::Rng;
use sha2::{Digest, Sha256};

verus! {

/// The AES-128 encryption of the 16-byte `block` under the 16-byte `key`:
/// what `Aes128::encrypt_block` leaves in the block.
pub uninterp spec fn aes128_block(key: Seq<u8>, block: Seq<u8>) -> Seq<u8>;

/// Byte number `pos` of the keystream that `Ctr128<Aes128>` produces when it
/// is set up with `key` and `nonce`.
pub uninterp spec fn aes128_ctr_keystream(key: Seq<u8>, nonce: Seq<u8>, pos: int) -> u8;

/// The SHA-256 digest of `message`.
pub uninterp spec fn sha256(message: Seq<u8>) -> Seq<u8>;

/// Runs `block_modes::Ecb<Aes128, ZeroPadding>` over `data`.
///
/// Trusted: `encrypt_vec` zero-pads the message to whole blocks and replaces
/// each block by its AES-128 encryption under `key`. The mode takes no
/// initialization vector.
#[verifier::external_body]
pub(crate) fn aes128_ecb(key: &[u8; 16], data: &[u8]) -> (out: Vec<u8>)
    ensures
        out@.len() == padded_len(data@.len()),
        forall|b: int|
            0 <= b < out@.len() / 16 ==> #[trigger] block_at(out@, b) == aes128_block(
                key@,
                block_at(zero_padded(data@), b),
            ),
{
    let cipher: Ecb<Aes128, ZeroPadding> = Ecb::new_var(key, &[]).unwrap();
    cipher.encrypt_vec(data)
}

/// Runs `block_modes::Cbc<Aes128, ZeroPadding>` over `data`.
///
/// Trusted: `encrypt_vec` zero-pads the message to whole blocks, xors each
/// block with the ciphertext block before it (the first with `iv`) and
/// replaces it by the AES-128 encryption of the outcome.
#[verifier::external_body]
pub(crate) fn aes128_cbc(key: &[u8; 16], iv: &[u8; 16], data: &[u8]) -> (out: Vec<u8>)
    ensures
        out@.len() == padded_len(data@.len()),
        forall|b: int|
            0 <= b < out@.len() / 16 ==> #[trigger] block_at(out@, b) == aes128_block(
                key@,
                xor_bytes(
                    block_at(zero_padded(data@), b),
                    if b == 0 { iv@ } else { block_at(out@, b - 1) },
                ),
            ),
{
    let cipher: Cbc<Aes128, ZeroPadding> = Cbc::new_var(key, iv).unwrap();
    cipher.encrypt_vec(data)
}

/// Runs `block_modes::Cfb<Aes128, ZeroPadding>` over `data`.
///
/// Trusted: `encrypt_vec` zero-pads the message to whole blocks and xors onto
/// each block the AES-128 encryption of the ciphertext block before it (for
/// the first block, of `iv`).
#[verifier::external_body]
pub(crate) fn aes128_cfb(key: &[u8; 16], iv: &[u8; 16], data: &[u8]) -> (out: Vec<u8>)
    ensures
        out@.len() == padded_len(data@.len()),
        forall|b: int|
            0 <= b < out@.len() / 16 ==> #[trigger] block_at(out@, b) == xor_bytes(
                block_at(zero_padded(data@), b),
                aes128_block(key@, if b == 0 { iv@ } else { block_at(out@, b - 1) }),
            ),
{
    let cipher: Cfb<Aes128, ZeroPadding> = Cfb::new_var(key, iv).unwrap();
    cipher.encrypt_vec(data)
}

/// Runs `ctr::Ctr128<Aes128>` over a copy of `data`.
///
/// Trusted: `apply_keystream` xors the keystream onto the data byte by byte,
/// from the start of the keystream, and the keystream depends on the key and
/// the nonce alone.
#[verifier::external_body]
pub(crate) fn aes128_ctr(key: &[u8; 16], nonce: &[u8; 16], data: &[u8]) -> (out: Vec<u8>)
    ensures
        out@.len() == data@.len(),
        forall|i: int|
            0 <= i < out@.len() ==> #[trigger] out@[i] == data@[i] ^ aes128_ctr_keystream(
                key@,
                nonce@,
                i,
            ),
{
    let mut cipher: Ctr128<Aes128> = Ctr128::new(key.into(), nonce.into());
    let mut out = data.to_vec();
    cipher.apply_keystream(&mut out);
    out
}

/// Hashes `message` with `sha2::Sha256`.
///
/// Trusted: the 32 bytes returned are the SHA-256 digest of the message.
#[verifier::external_body]
pub(crate) fn sha256_digest(message: &[u8]) -> (digest: [u8; 32])
    ensures
        digest@ == sha256(message@),
{
    let mut hasher = Sha256::default();
    hasher.update(message);
    hasher.finalize().into()
}

/// Draws sixteen bytes from `rand::thread_rng`.
///
/// Nothing is assumed of the bytes.
#[verifier::external_body]
pub(crate) fn random_block() -> (bytes: [u8; 16])
{
    rand::thread_rng().gen::<[u8; 16]>()
}

} // verus!
