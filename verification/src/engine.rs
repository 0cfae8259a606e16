//! The mode engine: one entry point over the four constructions.

use vstd::prelude::*;
use crate::block::{lemma_padded_len, lemma_zero_padded};
use crate::failure::Failure;
use crate::key::Key;
use crate::modes::{
    cbc_ciphertext, cfb_ciphertext, ctr_ciphertext, ctr_nonce_of, ecb_ciphertext, encrypt_cbc,
    encrypt_cbc_with_iv, encrypt_cfb, encrypt_cfb_with_iv, encrypt_ctr, encrypt_ecb,
};
use crate::selector::{mode_named, Mode};

verus! {

/// The ciphertext of `data` under `key` in `mode`. The initialization vector
/// `iv` enters in CBC and CFB only: ECB has none, and CTR runs with the
/// nonce derived from the key.
pub open spec fn ciphertext(mode: Mode, key: Seq<u8>, iv: Seq<u8>, data: Seq<u8>) -> Seq<u8> {
    match mode {
        Mode::Ecb => ecb_ciphertext(key, data),
        Mode::Cbc => cbc_ciphertext(key, iv, data),
        Mode::Cfb => cfb_ciphertext(key, iv, data),
        Mode::Ctr => ctr_ciphertext(key, ctr_nonce_of(key), data),
    }
}

/// `out` is a ciphertext of `data` under `key` in `mode`: the one that some
/// 16-byte initialization vector gives and, where the mode draws none, the
/// only one there is.
pub open spec fn is_ciphertext(out: Seq<u8>, mode: Mode, key: Seq<u8>, data: Seq<u8>) -> bool {
    &&& exists|iv: Seq<u8>| iv.len() == 16 && out == #[trigger] ciphertext(mode, key, iv, data)
    &&& !mode.draws_iv() ==> forall|iv: Seq<u8>| out == #[trigger] ciphertext(mode, key, iv, data)
}

/// The ciphertext is as long as the mode says: the padded length in ECB, CBC
/// and CFB, the length of the message in CTR.
pub proof fn lemma_ciphertext_len(mode: Mode, key: Seq<u8>, iv: Seq<u8>, data: Seq<u8>)
    ensures
        ciphertext(mode, key, iv, data).len() == mode.output_len(data.len()),
        data.len() <= ciphertext(mode, key, iv, data).len() < data.len() + 16,
{
    lemma_zero_padded(data);
    lemma_padded_len(data.len());
}

/// Encrypts `data` under `key` in `mode`, with `iv` as the initialization
/// vector where the mode takes one.
pub fn encrypt_with_iv(data: &[u8], key: &Key, mode: Mode, iv: &[u8; 16]) -> (out: Vec<u8>)
    ensures
        out@ == ciphertext(mode, key@, iv@, data@),
        out@.len() == mode.output_len(data@.len()),
{
    match mode {
        Mode::Ecb => encrypt_ecb(data, key),
        Mode::Cbc => encrypt_cbc_with_iv(data, key, iv),
        Mode::Cfb => encrypt_cfb_with_iv(data, key, iv),
        Mode::Ctr => encrypt_ctr(data, key),
    }
}

/// Encrypts `data` under `key` in `mode`. CBC and CFB draw a fresh
/// initialization vector, which is not kept; ECB and CTR draw nothing.
pub fn encrypt_with_mode(data: &[u8], key: &Key, mode: Mode) -> (out: Vec<u8>)
    ensures
        is_ciphertext(out@, mode, key@, data@),
        out@.len() == mode.output_len(data@.len()),
{
    let out = match mode {
        Mode::Ecb => encrypt_ecb(data, key),
        Mode::Cbc => encrypt_cbc(data, key),
        Mode::Cfb => encrypt_cfb(data, key),
        Mode::Ctr => encrypt_ctr(data, key),
    };
    proof {
        if !mode.draws_iv() {
            let zeros = Seq::new(16, |i: int| 0u8);
            assert(zeros.len() == 16 && out@ == ciphertext(mode, key@, zeros, data@));
        } else if mode == Mode::Cbc {
            let iv = choose|iv: Seq<u8>|
                iv.len() == 16 && out@ == #[trigger] cbc_ciphertext(key@, iv, data@);
            assert(iv.len() == 16 && out@ == ciphertext(mode, key@, iv, data@));
        } else {
            let iv = choose|iv: Seq<u8>|
                iv.len() == 16 && out@ == #[trigger] cfb_ciphertext(key@, iv, data@);
            assert(iv.len() == 16 && out@ == ciphertext(mode, key@, iv, data@));
        }
    }
    out
}

/// Encrypts `data` under `key` in the mode that the token `mode` selects.
///
/// An unknown token is refused before anything is encrypted.
pub fn encrypt(data: &[u8], key: &Key, mode: &str) -> (r: Result<Vec<u8>, Failure>)
    ensures
        match mode_named(mode@) {
            Some(m) => {
                &&& r is Ok
                &&& is_ciphertext(r->Ok_0@, m, key@, data@)
                &&& r->Ok_0@.len() == m.output_len(data@.len())
            },
            None => r is Err && r->Err_0 == Failure::Config,
        },
{
    match Mode::from_token(mode) {
        Ok(m) => Ok(encrypt_with_mode(data, key, m)),
        Err(failure) => Err(failure),
    }
}

} // verus!
