//! Vocabulary for byte strings cut into 16-byte cipher blocks.

use vstd::prelude::*;

verus! {

/// The length of `n` bytes once they are zero-padded to whole blocks:
/// `n` rounded up to the next multiple of sixteen.
pub open spec fn padded_len(n: nat) -> nat {
    (((n + 15) / 16) * 16) as nat
}

/// `data` followed by as many zero bytes as it takes to fill the last block.
/// A message that already ends on a block boundary is left as it is.
pub open spec fn zero_padded(data: Seq<u8>) -> Seq<u8> {
    data + Seq::new((padded_len(data.len()) - data.len()) as nat, |i: int| 0u8)
}

/// The sixteen bytes of `s` that form its block number `b`, counting from zero.
pub open spec fn block_at(s: Seq<u8>, b: int) -> Seq<u8> {
    s.subrange(16 * b, 16 * b + 16)
}

/// Bytewise exclusive-or of `a` with `b`, as long as `a`.
pub open spec fn xor_bytes(a: Seq<u8>, b: Seq<u8>) -> Seq<u8> {
    Seq::new(a.len(), |i: int| a[i] ^ b[i])
}

/// Rounding up to whole blocks never shrinks a length, adds fewer than
/// sixteen bytes, and leaves whole blocks untouched.
pub proof fn lemma_padded_len(n: nat)
    ensures
        n <= padded_len(n) < n + 16,
        padded_len(n) % 16 == 0,
        n % 16 == 0 ==> padded_len(n) == n,
        padded_len(n) / 16 == (n + 15) / 16,
{
}

/// Zero padding keeps the message as a prefix and fills up with zeros.
pub proof fn lemma_zero_padded(data: Seq<u8>)
    ensures
        zero_padded(data).len() == padded_len(data.len()),
        forall|i: int| 0 <= i < data.len() ==> zero_padded(data)[i] == data[i],
        forall|i: int| data.len() <= i < padded_len(data.len()) ==> zero_padded(data)[i] == 0,
        data.len() % 16 == 0 ==> zero_padded(data) == data,
{
    lemma_padded_len(data.len());
    if data.len() % 16 == 0 {
        assert(zero_padded(data) =~= data);
    }
}

} // verus!
