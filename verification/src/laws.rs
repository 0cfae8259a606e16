//! What the four modes reveal and conceal, stated over their ciphertexts.

use vstd::prelude::*;
use crate::block::{block_at, lemma_zero_padded, xor_bytes, zero_padded};
use crate::modes::{
    cbc_block, cbc_ciphertext, cfb_block, cfb_ciphertext, ctr_ciphertext, ctr_nonce_of,
    ecb_ciphertext,
};
use crate::primitives::{aes128_block, aes128_ctr_keystream};

verus! {

proof fn lemma_xor_cancels(a: u8, b: u8, k: u8)
    ensures
        (a ^ k) ^ (b ^ k) == a ^ b,
{
    assert((a ^ k) ^ (b ^ k) == a ^ b) by (bit_vector);
}

proof fn lemma_xor_injective(a: u8, x: u8, y: u8)
    ensures
        (a ^ x == a ^ y) <==> x == y,
{
    assert((a ^ x == a ^ y) <==> x == y) by (bit_vector);
}

/// A message of two blocks is its own zero padding, and its blocks are the
/// two it was made of.
proof fn lemma_two_blocks(first: Seq<u8>, second: Seq<u8>)
    requires
        first.len() == 16,
        second.len() == 16,
    ensures
        zero_padded(first + second) == first + second,
        block_at(first + second, 0) == first,
        block_at(first + second, 1) == second,
{
    lemma_zero_padded(first + second);
    assert(block_at(first + second, 0) =~= first);
    assert(block_at(first + second, 1) =~= second);
}

/// Electronic codebook leaks repetition: wherever two blocks of the padded
/// message are equal, the two ciphertext blocks in their places are equal.
pub proof fn law_ecb_equal_blocks(key: Seq<u8>, data: Seq<u8>, a: int, b: int)
    requires
        0 <= a < zero_padded(data).len() / 16,
        0 <= b < zero_padded(data).len() / 16,
        block_at(zero_padded(data), a) == block_at(zero_padded(data), b),
    ensures
        block_at(ecb_ciphertext(key, data), a) == block_at(ecb_ciphertext(key, data), b),
{
    let padded = zero_padded(data);
    let out = ecb_ciphertext(key, data);
    lemma_zero_padded(data);
    assert forall|k: int| 0 <= k < 16 implies block_at(out, a)[k] == block_at(out, b)[k] by {
        assert((16 * a + k) / 16 == a && (16 * a + k) % 16 == k);
        assert((16 * b + k) / 16 == b && (16 * b + k) % 16 == k);
    }
    assert(block_at(out, a) =~= block_at(out, b));
}

/// A message made of one 16-byte block written twice has, in electronic
/// codebook, a ciphertext made of one 16-byte block written twice.
pub proof fn law_ecb_repeated_block(key: Seq<u8>, block: Seq<u8>)
    requires
        block.len() == 16,
    ensures
        ecb_ciphertext(key, block + block).len() == 32,
        block_at(ecb_ciphertext(key, block + block), 0) == block_at(
            ecb_ciphertext(key, block + block),
            1,
        ),
{
    lemma_two_blocks(block, block);
    law_ecb_equal_blocks(key, block + block, 0, 1);
}

/// In cipher-block chaining a repeated plaintext block shows in the
/// ciphertext if the chain repeats: if the first ciphertext block equals the
/// initialization vector, the second equals the first. (That it shows in no
/// other case rests on AES being one-to-one, which this crate does not
/// assume.)
pub proof fn law_cbc_repeated_block(key: Seq<u8>, iv: Seq<u8>, block: Seq<u8>)
    requires
        block.len() == 16,
        cbc_block(key, iv, block + block, 0) == iv,
    ensures
        block_at(cbc_ciphertext(key, iv, block + block), 0) == block_at(
            cbc_ciphertext(key, iv, block + block),
            1,
        ),
{
    let data = block + block;
    let out = cbc_ciphertext(key, iv, data);
    lemma_two_blocks(block, block);
    assert(cbc_block(key, iv, data, 1) == cbc_block(key, iv, data, 0)) by {
        reveal_with_fuel(cbc_block, 2);
    }
    assert forall|k: int| 0 <= k < 16 implies block_at(out, 0)[k] == block_at(out, 1)[k] by {
        assert((16 + k) / 16 == 1 && (16 + k) % 16 == k);
        assert(k / 16 == 0 && k % 16 == k);
    }
    assert(block_at(out, 0) =~= block_at(out, 1));
}

/// In cipher feedback a repeated plaintext block shows in the ciphertext
/// exactly when the feedback repeats: the two ciphertext blocks are equal if
/// and only if the encryption of the initialization vector and the
/// encryption of the first ciphertext block agree in their sixteen bytes.
pub proof fn law_cfb_repeated_block(key: Seq<u8>, iv: Seq<u8>, block: Seq<u8>)
    requires
        block.len() == 16,
    ensures
        block_at(cfb_ciphertext(key, iv, block + block), 0) == block_at(
            cfb_ciphertext(key, iv, block + block),
            1,
        ) <==> forall|k: int|
            0 <= k < 16 ==> aes128_block(key, iv)[k] == #[trigger] aes128_block(
                key,
                block_at(cfb_ciphertext(key, iv, block + block), 0),
            )[k],
{
    let data = block + block;
    let out = cfb_ciphertext(key, iv, data);
    let first = cfb_block(key, iv, data, 0);
    let second = cfb_block(key, iv, data, 1);
    lemma_two_blocks(block, block);
    assert(first == xor_bytes(block, aes128_block(key, iv)));
    assert(second == xor_bytes(block, aes128_block(key, first))) by {
        reveal_with_fuel(cfb_block, 2);
    }
    assert forall|k: int| 0 <= k < 16 implies block_at(out, 0)[k] == first[k] && block_at(
        out,
        1,
    )[k] == second[k] by {
        assert((16 + k) / 16 == 1 && (16 + k) % 16 == k);
        assert(k / 16 == 0 && k % 16 == k);
    }
    assert(block_at(out, 0) =~= first);
    assert(block_at(out, 1) =~= second);
    assert forall|k: int| 0 <= k < 16 implies (first[k] == second[k] <==> aes128_block(
        key,
        iv,
    )[k] == aes128_block(key, first)[k]) by {
        lemma_xor_injective(block[k], aes128_block(key, iv)[k], aes128_block(key, first)[k]);
    }
    if first == second {
        assert forall|k: int| 0 <= k < 16 implies aes128_block(key, iv)[k] == aes128_block(
            key,
            first,
        )[k] by {
            assert(first[k] == second[k]);
        }
    } else {
        if forall|k: int|
            0 <= k < 16 ==> aes128_block(key, iv)[k] == #[trigger] aes128_block(key, first)[k] {
            assert(first =~= second);
        }
    }
}

/// In counter mode a repeated plaintext block shows in the ciphertext
/// exactly when the keystream repeats: the two ciphertext blocks are equal
/// if and only if the first sixteen keystream bytes equal the next sixteen.
pub proof fn law_ctr_repeated_block(key: Seq<u8>, nonce: Seq<u8>, block: Seq<u8>)
    requires
        block.len() == 16,
    ensures
        block_at(ctr_ciphertext(key, nonce, block + block), 0) == block_at(
            ctr_ciphertext(key, nonce, block + block),
            1,
        ) <==> forall|k: int|
            0 <= k < 16 ==> #[trigger] aes128_ctr_keystream(key, nonce, k) == aes128_ctr_keystream(
                key,
                nonce,
                16 + k,
            ),
{
    let out = ctr_ciphertext(key, nonce, block + block);
    let first = block_at(out, 0);
    let second = block_at(out, 1);
    assert forall|k: int| 0 <= k < 16 implies (first[k] == second[k] <==> aes128_ctr_keystream(
        key,
        nonce,
        k,
    ) == aes128_ctr_keystream(key, nonce, 16 + k)) by {
        lemma_xor_injective(
            block[k],
            aes128_ctr_keystream(key, nonce, k),
            aes128_ctr_keystream(key, nonce, 16 + k),
        );
    }
    if first == second {
        assert forall|k: int| 0 <= k < 16 implies #[trigger] aes128_ctr_keystream(key, nonce, k)
            == aes128_ctr_keystream(key, nonce, 16 + k) by {
            assert(first[k] == second[k]);
        }
    } else {
        if forall|k: int|
            0 <= k < 16 ==> #[trigger] aes128_ctr_keystream(key, nonce, k) == aes128_ctr_keystream(
                key,
                nonce,
                16 + k,
            ) {
            assert(first =~= second);
        }
    }
}

/// Counter mode reuses its keystream: under one key, the ciphertexts of two
/// messages of equal length differ exactly where the messages differ. Their
/// exclusive-or is the exclusive-or of the messages, and the key has
/// dropped out of it.
pub proof fn law_ctr_keystream_reuse(key: Seq<u8>, first: Seq<u8>, second: Seq<u8>)
    requires
        first.len() == second.len(),
    ensures
        xor_bytes(
            ctr_ciphertext(key, ctr_nonce_of(key), first),
            ctr_ciphertext(key, ctr_nonce_of(key), second),
        ) == xor_bytes(first, second),
{
    let nonce = ctr_nonce_of(key);
    let left = xor_bytes(ctr_ciphertext(key, nonce, first), ctr_ciphertext(key, nonce, second));
    let right = xor_bytes(first, second);
    assert forall|i: int| 0 <= i < first.len() implies left[i] == right[i] by {
        lemma_xor_cancels(first[i], second[i], aes128_ctr_keystream(key, nonce, i));
    }
    assert(left =~= right);
}

} // verus!
