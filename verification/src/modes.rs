//! The four modes of operation over AES-128, each as a mathematical
//! description of its ciphertext and as a function that produces it.

use vstd::prelude::*;
use crate::block::{block_at, lemma_padded_len, lemma_zero_padded, padded_len, xor_bytes, zero_padded};
use crate::key::{digest_prefix, hash_prefix, Key};
use crate::primitives::{
    aes128_block, aes128_cbc, aes128_cfb, aes128_ctr, aes128_ctr_keystream, aes128_ecb,
    random_block,
};

verus! {

/// Ciphertext of `data` in electronic-codebook mode: the zero-padded message
/// is cut into blocks and each block is encrypted on its own.
pub open spec fn ecb_ciphertext(key: Seq<u8>, data: Seq<u8>) -> Seq<u8> {
    let padded = zero_padded(data);
    Seq::new(padded.len(), |i: int| aes128_block(key, block_at(padded, i / 16))[i % 16])
}

/// Ciphertext block number `b` in cipher-block-chaining mode: the plaintext
/// block is xored with the previous ciphertext block (with `iv` for the first
/// one) and the outcome is encrypted.
pub open spec fn cbc_block(key: Seq<u8>, iv: Seq<u8>, padded: Seq<u8>, b: nat) -> Seq<u8>
    decreases b,
{
    let chain = if b == 0 {
        iv
    } else {
        cbc_block(key, iv, padded, (b - 1) as nat)
    };
    aes128_block(key, xor_bytes(block_at(padded, b as int), chain))
}

/// Ciphertext of `data` in cipher-block-chaining mode with zero padding.
pub open spec fn cbc_ciphertext(key: Seq<u8>, iv: Seq<u8>, data: Seq<u8>) -> Seq<u8> {
    let padded = zero_padded(data);
    Seq::new(padded.len(), |i: int| cbc_block(key, iv, padded, (i / 16) as nat)[i % 16])
}

/// Ciphertext block number `b` in full-block cipher-feedback mode: the
/// previous ciphertext block (`iv` for the first one) is encrypted and the
/// outcome is xored onto the plaintext block.
pub open spec fn cfb_block(key: Seq<u8>, iv: Seq<u8>, padded: Seq<u8>, b: nat) -> Seq<u8>
    decreases b,
{
    let chain = if b == 0 {
        iv
    } else {
        cfb_block(key, iv, padded, (b - 1) as nat)
    };
    xor_bytes(block_at(padded, b as int), aes128_block(key, chain))
}

/// Ciphertext of `data` in full-block cipher-feedback mode with zero padding.
pub open spec fn cfb_ciphertext(key: Seq<u8>, iv: Seq<u8>, data: Seq<u8>) -> Seq<u8> {
    let padded = zero_padded(data);
    Seq::new(padded.len(), |i: int| cfb_block(key, iv, padded, (i / 16) as nat)[i % 16])
}

/// Ciphertext of `data` in counter mode: every byte is xored with the
/// keystream byte at its position. Nothing is padded.
pub open spec fn ctr_ciphertext(key: Seq<u8>, nonce: Seq<u8>, data: Seq<u8>) -> Seq<u8> {
    Seq::new(data.len(), |i: int| data[i] ^ aes128_ctr_keystream(key, nonce, i))
}

/// The nonce that counter mode runs with: the digest prefix of the key
/// itself. It is the same for every message encrypted under one key.
pub open spec fn ctr_nonce_of(key: Seq<u8>) -> Seq<u8> {
    digest_prefix(key)
}

/// Byte `i` of a whole-block sequence is byte `i % 16` of its block `i / 16`.
proof fn lemma_byte_in_block(s: Seq<u8>, i: int)
    requires
        s.len() % 16 == 0,
        0 <= i < s.len(),
    ensures
        0 <= i / 16 < s.len() / 16,
        block_at(s, i / 16)[i % 16] == s[i],
{
}

/// A sequence whose blocks are chained as cipher-block chaining prescribes
/// has, block for block, the ciphertext blocks of that mode.
proof fn lemma_cbc_chain(out: Seq<u8>, key: Seq<u8>, iv: Seq<u8>, padded: Seq<u8>, b: nat)
    requires
        out.len() == padded.len(),
        forall|c: int|
            0 <= c < out.len() / 16 ==> #[trigger] block_at(out, c) == aes128_block(
                key,
                xor_bytes(block_at(padded, c), if c == 0 { iv } else { block_at(out, c - 1) }),
            ),
        b < out.len() / 16,
    ensures
        block_at(out, b as int) == cbc_block(key, iv, padded, b),
    decreases b,
{
    if b > 0 {
        lemma_cbc_chain(out, key, iv, padded, (b - 1) as nat);
    }
}

/// A sequence whose blocks are chained as cipher feedback prescribes has,
/// block for block, the ciphertext blocks of that mode.
proof fn lemma_cfb_chain(out: Seq<u8>, key: Seq<u8>, iv: Seq<u8>, padded: Seq<u8>, b: nat)
    requires
        out.len() == padded.len(),
        forall|c: int|
            0 <= c < out.len() / 16 ==> #[trigger] block_at(out, c) == xor_bytes(
                block_at(padded, c),
                aes128_block(key, if c == 0 { iv } else { block_at(out, c - 1) }),
            ),
        b < out.len() / 16,
    ensures
        block_at(out, b as int) == cfb_block(key, iv, padded, b),
    decreases b,
{
    if b > 0 {
        lemma_cfb_chain(out, key, iv, padded, (b - 1) as nat);
    }
}

/// Encrypts `data` in electronic-codebook mode. No initialization vector is
/// drawn: the mode has no use for one.
pub fn encrypt_ecb(data: &[u8], key: &Key) -> (out: Vec<u8>)
    ensures
        out@ == ecb_ciphertext(key@, data@),
        out@.len() == padded_len(data@.len()),
{
    let out = aes128_ecb(&key.bytes, data);
    proof {
        let padded = zero_padded(data@);
        lemma_zero_padded(data@);
        lemma_padded_len(data@.len());
        assert forall|i: int| 0 <= i < out@.len() implies out@[i] == aes128_block(
            key@,
            block_at(padded, i / 16),
        )[i % 16] by {
            lemma_byte_in_block(out@, i);
        }
        assert(out@ =~= ecb_ciphertext(key@, data@));
    }
    out
}

/// Encrypts `data` in cipher-block-chaining mode, starting the chain at `iv`.
pub fn encrypt_cbc_with_iv(data: &[u8], key: &Key, iv: &[u8; 16]) -> (out: Vec<u8>)
    ensures
        out@ == cbc_ciphertext(key@, iv@, data@),
        out@.len() == padded_len(data@.len()),
{
    let out = aes128_cbc(&key.bytes, iv, data);
    proof {
        let padded = zero_padded(data@);
        lemma_zero_padded(data@);
        lemma_padded_len(data@.len());
        assert forall|i: int| 0 <= i < out@.len() implies out@[i] == cbc_block(
            key@,
            iv@,
            padded,
            (i / 16) as nat,
        )[i % 16] by {
            lemma_byte_in_block(out@, i);
            lemma_cbc_chain(out@, key@, iv@, padded, (i / 16) as nat);
        }
        assert(out@ =~= cbc_ciphertext(key@, iv@, data@));
    }
    out
}

/// Encrypts `data` in cipher-block-chaining mode under a freshly drawn
/// initialization vector. The vector is not returned.
pub fn encrypt_cbc(data: &[u8], key: &Key) -> (out: Vec<u8>)
    ensures
        exists|iv: Seq<u8>| iv.len() == 16 && out@ == #[trigger] cbc_ciphertext(key@, iv, data@),
        out@.len() == padded_len(data@.len()),
{
    let iv = random_block();
    let out = encrypt_cbc_with_iv(data, key, &iv);
    assert(iv@.len() == 16 && out@ == cbc_ciphertext(key@, iv@, data@));
    out
}

/// Encrypts `data` in full-block cipher-feedback mode, starting the feedback
/// at `iv`.
pub fn encrypt_cfb_with_iv(data: &[u8], key: &Key, iv: &[u8; 16]) -> (out: Vec<u8>)
    ensures
        out@ == cfb_ciphertext(key@, iv@, data@),
        out@.len() == padded_len(data@.len()),
{
    let out = aes128_cfb(&key.bytes, iv, data);
    proof {
        let padded = zero_padded(data@);
        lemma_zero_padded(data@);
        lemma_padded_len(data@.len());
        assert forall|i: int| 0 <= i < out@.len() implies out@[i] == cfb_block(
            key@,
            iv@,
            padded,
            (i / 16) as nat,
        )[i % 16] by {
            lemma_byte_in_block(out@, i);
            lemma_cfb_chain(out@, key@, iv@, padded, (i / 16) as nat);
        }
        assert(out@ =~= cfb_ciphertext(key@, iv@, data@));
    }
    out
}

/// Encrypts `data` in full-block cipher-feedback mode under a freshly drawn
/// initialization vector. The vector is not returned.
pub fn encrypt_cfb(data: &[u8], key: &Key) -> (out: Vec<u8>)
    ensures
        exists|iv: Seq<u8>| iv.len() == 16 && out@ == #[trigger] cfb_ciphertext(key@, iv, data@),
        out@.len() == padded_len(data@.len()),
{
    let iv = random_block();
    let out = encrypt_cfb_with_iv(data, key, &iv);
    assert(iv@.len() == 16 && out@ == cfb_ciphertext(key@, iv@, data@));
    out
}

/// Computes the nonce that counter mode runs with under `key`.
pub fn ctr_nonce(key: &Key) -> (nonce: [u8; 16])
    ensures
        nonce@ == ctr_nonce_of(key@),
{
    hash_prefix(key.bytes.as_slice())
}

/// Encrypts `data` in counter mode with the keystream of `key` and `nonce`.
pub fn encrypt_ctr_with_nonce(data: &[u8], key: &Key, nonce: &[u8; 16]) -> (out: Vec<u8>)
    ensures
        out@ == ctr_ciphertext(key@, nonce@, data@),
        out@.len() == data@.len(),
{
    let out = aes128_ctr(&key.bytes, nonce, data);
    assert(out@ =~= ctr_ciphertext(key@, nonce@, data@));
    out
}

/// Encrypts `data` in counter mode. The nonce is derived from the key, so
/// two messages under one key meet the same keystream.
pub fn encrypt_ctr(data: &[u8], key: &Key) -> (out: Vec<u8>)
    ensures
        out@ == ctr_ciphertext(key@, ctr_nonce_of(key@), data@),
        out@.len() == data@.len(),
{
    let nonce = ctr_nonce(key);
    encrypt_ctr_with_nonce(data, key, &nonce)
}

} // verus!
