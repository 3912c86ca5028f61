use vstd::prelude::*;

use crate::algebra::{
    le_nat, scalar_from_le_bytes_mod_order, scalar_modulus, sha256, sha256_of, Scalar,
};
use crate::encoding::{
    le_seq, lemma_le_seq_injective, lemma_le_seq_len, lemma_le_seq_of_le_nat, lemma_modulus_fits_32_bytes,
    lemma_pow256_bounds, push_bytes,
    u32_le_bytes, u64_le_bytes,
};

verus! {

/// The bytes hashed into a nullifier: the canonical 32-byte encoding of the
/// credential's secret identifier, the verifier's identity, the epoch and the
/// message index, all integers little-endian.
pub open spec fn nullifier_input(id: nat, server_id: Seq<u8>, epoch: u64, message_index: u32) -> Seq<u8> {
    le_seq(id, 32) + server_id + le_seq(epoch as nat, 8) + le_seq(message_index as nat, 4)
}

pub open spec fn nullifier_of(id: Scalar, server_id: Seq<u8>, epoch: u64, message_index: u32) -> Seq<u8> {
    sha256_of(nullifier_input(id.value(), server_id, epoch, message_index))
}

fn nullifier_preimage(credential_id: &Scalar, server_id: &[u8], epoch: u64, message_index: u32) -> (r: Vec<u8>)
    ensures
        r@ == nullifier_input(credential_id.value(), server_id@, epoch, message_index),
{
    let id = scalar_from_le_bytes_mod_order(&credential_id.bytes);
    proof {
        lemma_le_seq_of_le_nat(id.bytes@);
        vstd::arithmetic::div_mod::lemma_small_mod(le_nat(id.bytes@), scalar_modulus());
    }
    let mut data: Vec<u8> = Vec::new();
    push_bytes(&mut data, &id.bytes);
    push_bytes(&mut data, server_id);
    let e = u64_le_bytes(epoch);
    push_bytes(&mut data, e.as_slice());
    let m = u32_le_bytes(message_index);
    push_bytes(&mut data, m.as_slice());
    assert(data@ =~= nullifier_input(credential_id.value(), server_id@, epoch, message_index));
    data
}

/// The 32-byte nullifier of a credential for a verifier, an epoch and a
/// message index: the SHA-256 digest of their concatenation.
pub fn generate_nullifier(credential_id: &Scalar, server_id: &[u8], epoch: u64, message_index: u32) -> (r: [u8; 32])
    ensures
        r@ == nullifier_of(*credential_id, server_id@, epoch, message_index),
{
    let data = nullifier_preimage(credential_id, server_id, epoch, message_index);
    sha256(&data)
}

/// The same digest as `generate_nullifier`, read as a scalar (little-endian,
/// reduced modulo the field order).
pub fn compute_nullifier_coefficient(credential_id: &Scalar, server_id: &[u8], epoch: u64, message_index: u32) -> (r: Scalar)
    ensures
        r.canonical(),
        r.value() == le_nat(nullifier_of(*credential_id, server_id@, epoch, message_index)) % scalar_modulus(),
{
    let data = nullifier_preimage(credential_id, server_id, epoch, message_index);
    let digest = sha256(&data);
    scalar_from_le_bytes_mod_order(&digest)
}

/// Nullifiers are scoped: two derivations hash the same bytes only when the
/// credential identifier (as a field element), the verifier, the epoch and
/// the message index are all the same. So changing any one of them changes
/// the hashed input, and the nullifier differs unless SHA-256 collides.
pub proof fn lemma_nullifier_input_injective(
    id1: Scalar,
    server1: Seq<u8>,
    epoch1: u64,
    index1: u32,
    id2: Scalar,
    server2: Seq<u8>,
    epoch2: u64,
    index2: u32,
)
    requires
        nullifier_input(id1.value(), server1, epoch1, index1) == nullifier_input(id2.value(), server2, epoch2, index2),
    ensures
        id1.value() == id2.value(),
        server1 == server2,
        epoch1 == epoch2,
        index1 == index2,
{
    let v1 = id1.value();
    let v2 = id2.value();
    lemma_le_seq_len(v1, 32);
    lemma_le_seq_len(v2, 32);
    lemma_le_seq_len(epoch1 as nat, 8);
    lemma_le_seq_len(epoch2 as nat, 8);
    lemma_le_seq_len(index1 as nat, 4);
    lemma_le_seq_len(index2 as nat, 4);
    lemma_pow256_bounds();
    lemma_modulus_fits_32_bytes();
    let s = nullifier_input(v1, server1, epoch1, index1);
    let t = nullifier_input(v2, server2, epoch2, index2);
    assert(s.len() == 32 + server1.len() + 12);
    assert(t.len() == 32 + server2.len() + 12);
    assert(server1.len() == server2.len());
    let n = s.len() as int;
    let m: int = 32 + server1.len() as int;
    assert(s.subrange(0, 32) =~= le_seq(v1, 32));
    assert(t.subrange(0, 32) =~= le_seq(v2, 32));
    lemma_le_seq_injective(v1, v2, 32);
    assert(s.subrange(32, m) =~= server1);
    assert(t.subrange(32, m) =~= server2);
    assert(s.subrange(m, m + 8) =~= le_seq(epoch1 as nat, 8));
    assert(t.subrange(m, m + 8) =~= le_seq(epoch2 as nat, 8));
    lemma_le_seq_injective(epoch1 as nat, epoch2 as nat, 8);
    assert(s.subrange(m + 8, n) =~= le_seq(index1 as nat, 4));
    assert(t.subrange(m + 8, n) =~= le_seq(index2 as nat, 4));
    lemma_le_seq_injective(index1 as nat, index2 as nat, 4);
}

} // verus!
