//! The bytes from which the host derives the identifier of a new kitty.

use vstd::prelude::*;
use vstd::bytes::{lemma_auto_spec_u64_to_from_le_bytes, spec_u64_to_le_bytes};
use parity_codec::Encode;
use crate::types::AccountId;

verus! {

/// The encoding of a seed, a sender and a counter, one after the other: the
/// seed's bytes as they are, then each number as eight bytes, lowest first.
pub open spec fn id_preimage(seed: Seq<u8>, sender: AccountId, nonce: u64) -> Seq<u8> {
    seed + spec_u64_to_le_bytes(sender) + spec_u64_to_le_bytes(nonce)
}

/// Calls `parity_codec::Encode::encode` on the triple of `seed`, `sender`
/// and `nonce`.
///
/// Not proved: that the codec writes the members of a tuple in order, a
/// 32-byte array as its bytes, and a `u64` as its eight bytes in
/// little-endian order.
#[verifier::external_body]
fn encode_triple(seed: &[u8; 32], sender: AccountId, nonce: u64) -> (bytes: Vec<u8>)
    ensures
        bytes@ == id_preimage(seed@, sender, nonce),
{
    (*seed, sender, nonce).encode()
}

/// The bytes that the host hashes into the identifier of a kitty created by
/// `sender`: 48 bytes that hold `seed`, `sender` and `nonce`.
pub fn kitty_id_preimage(seed: &[u8; 32], sender: AccountId, nonce: u64) -> (bytes: Vec<u8>)
    ensures
        bytes@ == id_preimage(seed@, sender, nonce),
        bytes@.len() == 48,
{
    proof {
        lemma_auto_spec_u64_to_from_le_bytes();
    }
    encode_triple(seed, sender, nonce)
}

/// Preimages tell their inputs apart: two of them are equal only if the
/// seeds, the senders and the counters are.
pub proof fn lemma_id_preimage_injective(
    seed1: Seq<u8>,
    sender1: AccountId,
    nonce1: u64,
    seed2: Seq<u8>,
    sender2: AccountId,
    nonce2: u64,
)
    requires
        seed1.len() == seed2.len(),
        id_preimage(seed1, sender1, nonce1) == id_preimage(seed2, sender2, nonce2),
    ensures
        seed1 == seed2,
        sender1 == sender2,
        nonce1 == nonce2,
{
    lemma_auto_spec_u64_to_from_le_bytes();
    let first = id_preimage(seed1, sender1, nonce1);
    let second = id_preimage(seed2, sender2, nonce2);
    let n = seed1.len() as int;
    assert(first.subrange(0, n) =~= seed1);
    assert(second.subrange(0, n) =~= seed2);
    assert(first.subrange(n, n + 8) =~= spec_u64_to_le_bytes(sender1));
    assert(second.subrange(n, n + 8) =~= spec_u64_to_le_bytes(sender2));
    assert(first.subrange(n + 8, n + 16) =~= spec_u64_to_le_bytes(nonce1));
    assert(second.subrange(n + 8, n + 16) =~= spec_u64_to_le_bytes(nonce2));
}

} // verus!
