use vstd::prelude::*;

pub mod algebra;
pub mod bbs_plus;
pub mod codec;
pub mod encoding;
pub mod nullifier;
pub mod replay;
pub mod zkp;

use crate::algebra::{g1_check, g1_valid, scalar_values, Scalar};
use crate::bbs_plus::{
    has_infinity_flag, randomized_from, signed_with, BBSPlusKeypair, BBSPlusPublicKey, BBSPlusSignature,
};
use crate::encoding::{le_seq, push_bytes, u64_le_bytes};
use crate::nullifier::{generate_nullifier, nullifier_of};
use crate::replay::ReplayCache;
use crate::zkp::{
    check_in_range, disclosed_pairs, disclosed_upto, generate_zkp, indices_in_range, normalize_disclosed,
    proof_made_from, select_disclosed,
    verify_zkp, zkp_accepts, VerifiablePresentation,
};
use ark_std::rand::rngs::StdRng;

verus! {

/// Why an operation on credentials did not succeed.
#[derive(Clone, Copy, PartialEq, Eq, Debug, Structural)]
pub enum CredentialError {
    /// An attribute vector of the wrong length, a disclosed index out of
    /// range or out of order, or a malformed signature.
    InvalidInput,
    /// A degenerate scalar where an inverse is needed.
    KeyError,
    /// The presentation's proof did not verify.
    ProofInvalid,
    /// The presentation's nullifier was accepted before.
    ReplayDetected,
}

/// The number of attribute slots of a credential: slot 0 holds the holder's
/// secret identifier, the others application attributes.
pub const ATTRIBUTE_COUNT: usize = 5;

/// The context a presentation's proof is bound to: its nullifier, the epoch
/// (8 bytes, little-endian) and the verifier's identity.
pub open spec fn presentation_context(nullifier: Seq<u8>, epoch: u64, server_id: Seq<u8>) -> Seq<u8> {
    nullifier + le_seq(epoch as nat, 8) + server_id
}

fn build_context(nullifier: &[u8; 32], epoch: u64, server_id: &[u8]) -> (r: Vec<u8>)
    ensures
        r@ == presentation_context(nullifier@, epoch, server_id@),
{
    let mut out: Vec<u8> = Vec::new();
    push_bytes(&mut out, nullifier);
    let eb = u64_le_bytes(epoch);
    push_bytes(&mut out, eb.as_slice());
    push_bytes(&mut out, server_id);
    assert(out@ =~= presentation_context(nullifier@, epoch, server_id@));
    out
}

/// `vp` is an honest presentation of `signature` on `attributes`.
pub open spec fn presented_from(
    vp: VerifiablePresentation,
    pk: BBSPlusPublicKey,
    signature: BBSPlusSignature,
    attributes: Seq<Scalar>,
    disclosed_indices: Seq<usize>,
    epoch: u64,
    server_id: Seq<u8>,
) -> bool {
    &&& vp.nullifier@ == nullifier_of(attributes[0], server_id, epoch, 0)
    &&& vp.disclosed_attributes@ == disclosed_pairs(attributes, disclosed_indices)
    &&& exists|r1: nat, r2: nat, sec: crate::bbs_plus::RandomizationSecrets, bn: Seq<nat>, nv: Seq<nat>|
        r1 != 0 && #[trigger] randomized_from(signature, &pk, scalar_values(attributes), r1, r2, vp.randomized_signature, sec)
            && #[trigger] proof_made_from(vp.proof, vp.randomized_signature, sec, pk, attributes, disclosed_indices,
            presentation_context(vp.nullifier@, epoch, server_id), bn, nv)
}

/// Gas for checking a proof of `proof_size_bytes` bytes on chain: a base
/// cost of 21000, 16 per byte of calldata and 500000 for the pairings.
pub fn estimate_gas(proof_size_bytes: usize) -> (r: u64)
    requires
        proof_size_bytes <= (u64::MAX - 521000) / 16,
    ensures
        r == 21000 + 16 * proof_size_bytes + 500000,
{
    let base_cost: u64 = 21000;
    let calldata_cost: u64 = (proof_size_bytes as u64) * 16;
    let verification_cost: u64 = 500000;
    base_cost + calldata_cost + verification_cost
}

/// An issuer together with the verifier that trusts it.
pub struct FuaMcpSystem {
    pub issuer_keypair: BBSPlusKeypair,
}

impl FuaMcpSystem {
    pub open spec fn wf(&self) -> bool {
        self.issuer_keypair.wf()
    }

    /// A system whose issuer signs vectors of `ATTRIBUTE_COUNT` attributes.
    pub fn new(rng: &mut StdRng) -> (r: Self)
        ensures
            r.wf(),
            r.issuer_keypair.public_key.num_attributes() == ATTRIBUTE_COUNT,
    {
        FuaMcpSystem { issuer_keypair: BBSPlusKeypair::generate(rng, ATTRIBUTE_COUNT) }
    }

    /// Signs `attributes` under the issuer's key.
    pub fn issue_credential(&self, rng: &mut StdRng, attributes: &[Scalar]) -> (r: Result<BBSPlusSignature, CredentialError>)
        requires
            self.wf(),
        ensures
            attributes.len() != self.issuer_keypair.public_key.num_attributes() ==> r == Err::<BBSPlusSignature, CredentialError>(CredentialError::InvalidInput),
            attributes.len() == self.issuer_keypair.public_key.num_attributes() ==> r != Err::<BBSPlusSignature, CredentialError>(CredentialError::InvalidInput),
            r matches Ok(sig) ==> signed_with(self.issuer_keypair.public_key, self.issuer_keypair.secret_key.value(), sig, scalar_values(attributes@)),
            r matches Err(k) ==> k == CredentialError::InvalidInput || (k == CredentialError::KeyError
                && attributes.len() == self.issuer_keypair.public_key.num_attributes()),
    {
        self.issuer_keypair.sign(rng, attributes)
    }

    /// Randomizes `signature`, derives the nullifier of `attributes[0]` for
    /// `server_id` at `epoch` (message index 0) and proves knowledge of the
    /// attributes that `disclosed_indices` leaves hidden. The disclosed set is
    /// taken sorted and without repeats.
    pub fn generate_presentation(
        &self,
        rng: &mut StdRng,
        signature: &BBSPlusSignature,
        attributes: &[Scalar],
        disclosed_indices: &[usize],
        epoch: u64,
        server_id: &[u8],
    ) -> (r: Result<VerifiablePresentation, CredentialError>)
        requires
            self.wf(),
        ensures
            ({
                let pk = self.issuer_keypair.public_key;
                let well_formed = attributes.len() == pk.num_attributes() && attributes.len() > 0
                    && indices_in_range(disclosed_indices@, pk.num_attributes()) && g1_valid(signature.a.bytes@)
                    && !has_infinity_flag(signature.a.bytes@);
                &&& !well_formed ==> r == Err::<VerifiablePresentation, CredentialError>(CredentialError::InvalidInput)
                &&& well_formed ==> r != Err::<VerifiablePresentation, CredentialError>(CredentialError::InvalidInput)
                &&& r matches Ok(vp) ==> presented_from(vp, pk, *signature, attributes@,
                    disclosed_upto(disclosed_indices@, pk.num_attributes()), epoch, server_id@)
                &&& r matches Err(k) ==> k == CredentialError::InvalidInput || k == CredentialError::KeyError
            }),
    {
        let pk = &self.issuer_keypair.public_key;
        let n = pk.h.len() - 1;
        if attributes.len() != n || attributes.len() == 0 || !check_in_range(disclosed_indices, n)
            || !g1_check(&signature.a.bytes) || signature.a.bytes[0] & 0x40u8 != 0u8 {
            return Err(CredentialError::InvalidInput);
        }
        let (rs, sec) = match signature.randomize(rng, pk, attributes) {
            Ok(x) => x,
            Err(k) => {
                return Err(k);
            },
        };
        let nullifier = generate_nullifier(&attributes[0], server_id, epoch, 0);
        let context = build_context(&nullifier, epoch, server_id);
        let proof = match generate_zkp(rng, &rs, &sec, attributes, disclosed_indices, pk, context.as_slice()) {
            Ok(p) => p,
            Err(k) => {
                return Err(k);
            },
        };
        let disclosed = normalize_disclosed(disclosed_indices, n);
        let disclosed_attributes = select_disclosed(attributes, disclosed.as_slice());
        let vp = VerifiablePresentation { randomized_signature: rs, nullifier, proof, disclosed_attributes };
        proof {
            let ghost idx = disclosed_upto(disclosed_indices@, n as nat);
            let ghost ctx = presentation_context(vp.nullifier@, epoch, server_id@);
            assert(ctx == context@);
            let (r1, r2) = choose|r1: nat, r2: nat| r1 != 0 && #[trigger] randomized_from(*signature, pk, scalar_values(attributes@), r1, r2, rs, sec);
            let (bn, nv) = choose|bn: Seq<nat>, nv: Seq<nat>| #[trigger] proof_made_from(vp.proof, rs, sec, *pk, attributes@, idx, context@, bn, nv);
            assert(r1 != 0 && randomized_from(*signature, pk, scalar_values(attributes@), r1, r2, vp.randomized_signature, sec)
                && proof_made_from(vp.proof, vp.randomized_signature, sec, *pk, attributes@, idx, ctx, bn, nv));
        }
        Ok(vp)
    }

    /// Checks a presentation for `server_id` at `epoch`. A nullifier already
    /// in `seen_nullifiers` is rejected before any proof work; otherwise the
    /// proof is checked, and only an accepted presentation's nullifier is
    /// recorded.
    pub fn verify_presentation(
        &self,
        vp: &VerifiablePresentation,
        epoch: u64,
        server_id: &[u8],
        seen_nullifiers: &mut ReplayCache,
    ) -> (r: Result<(), CredentialError>)
        requires
            self.wf(),
            old(seen_nullifiers).wf(),
        ensures
            final(seen_nullifiers).wf(),
            old(seen_nullifiers)@.contains(vp.nullifier@) ==> r == Err::<(), CredentialError>(CredentialError::ReplayDetected)
                && final(seen_nullifiers).seen@ == old(seen_nullifiers).seen@,
            ({
                let accepts = zkp_accepts(vp.proof, vp.randomized_signature, vp.disclosed_attributes@,
                    self.issuer_keypair.public_key, presentation_context(vp.nullifier@, epoch, server_id@));
                &&& !old(seen_nullifiers)@.contains(vp.nullifier@) && !accepts
                    ==> r == Err::<(), CredentialError>(CredentialError::ProofInvalid)
                        && final(seen_nullifiers).seen@ == old(seen_nullifiers).seen@
                &&& !old(seen_nullifiers)@.contains(vp.nullifier@) && accepts
                    ==> r == Ok::<(), CredentialError>(()) && final(seen_nullifiers)@ == old(seen_nullifiers)@.insert(vp.nullifier@)
            }),
    {
        if seen_nullifiers.contains(&vp.nullifier) {
            return Err(CredentialError::ReplayDetected);
        }
        let context = build_context(&vp.nullifier, epoch, server_id);
        let valid = verify_zkp(
            &vp.proof,
            &vp.randomized_signature,
            vp.disclosed_attributes.as_slice(),
            &self.issuer_keypair.public_key,
            context.as_slice(),
        );
        if !valid {
            return Err(CredentialError::ProofInvalid);
        }
        seen_nullifiers.insert(vp.nullifier);
        Ok(())
    }
}

/// Replay rejection: once `verify_presentation` has accepted a presentation
/// into `before` (giving `after`), its nullifier is in `after`, so a second
/// call with the same presentation and cache is rejected with
/// `ReplayDetected` and leaves the cache as it is; and the cache holds that
/// nullifier exactly once.
pub proof fn lemma_replay_rejected(before: ReplayCache, after: ReplayCache, nullifier: Seq<u8>)
    requires
        before.wf(),
        after.wf(),
        after@ == before@.insert(nullifier),
    ensures
        after@.contains(nullifier),
        exists|i: int|
            0 <= i < after.seen.len() && after.seen@[i]@ == nullifier && forall|j: int|
                0 <= j < after.seen.len() && #[trigger] after.seen@[j]@ == nullifier ==> j == i,
{
    assert(after@.contains(nullifier));
    crate::replay::lemma_held_once(after, nullifier);
}

} // verus!
