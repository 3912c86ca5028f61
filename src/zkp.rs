use vstd::prelude::*;

use crate::algebra::{
    add_mod, all_g1_valid, g1_check, g1_linear_combination, g1_msm, g1_valid, g1_views, le_nat,
    lemma_push_valid, mul_mod, neg_mod, pairing, pairing_of, scalar_add, scalar_from_le_bytes_mod_order,
    scalar_modulus, scalar_mul, scalar_neg, scalar_random, scalar_values, sha256, sha256_of, G1Point, Scalar,
};
use crate::bbs_plus::{has_infinity_flag, BBSPlusPublicKey, RandomizationSecrets, RandomizedSignature};
use crate::encoding::{bytes_equal, le_seq, push_bytes, u64_le_bytes};
use crate::CredentialError;
use ark_std::rand::rngs::StdRng;

verus! {

/// A proof of knowledge of the hidden attributes and of the witnesses of a
/// randomized signature.
///
/// With nonces `n_e, n_r2, n_r3, n_s` and `n_i` for each hidden attribute `i`,
/// the prover commits to `T1 = -n_e * A' + n_r2 * h[0]` and
/// `T2 = n_r3 * B'' - n_s * h[0] - sum_i n_i * h[i + 1]`; `commitment` is the
/// SHA-256 digest of `T1 || T2`, and every response is `nonce + c * witness`
/// for the challenge `c` derived from the commitment and the statement.
#[derive(Clone, PartialEq, Eq, Debug)]
pub struct ZKProof {
    pub commitment: [u8; 32],
    pub e_response: Scalar,
    pub r2_response: Scalar,
    pub r3_response: Scalar,
    pub s_response: Scalar,
    /// One response per hidden attribute, in ascending index order.
    pub response: Vec<Scalar>,
}

/// What a verifier receives.
#[derive(Clone, PartialEq, Eq, Debug)]
pub struct VerifiablePresentation {
    pub randomized_signature: RandomizedSignature,
    pub nullifier: [u8; 32],
    pub proof: ZKProof,
    pub disclosed_attributes: Vec<(usize, Scalar)>,
}

/// Disclosed indices are strictly ascending and below `n`.
pub open spec fn disclosed_ok(indices: Seq<usize>, n: nat) -> bool {
    &&& forall|i: int| 0 <= i < indices.len() ==> #[trigger] indices[i] < n
    &&& forall|i: int, j: int| 0 <= i < j < indices.len() ==> #[trigger] indices[i] < #[trigger] indices[j]
}

/// The indices below `k` that are not disclosed, ascending.
pub open spec fn hidden_upto(indices: Seq<usize>, k: nat) -> Seq<nat>
    decreases k,
{
    if k == 0 {
        Seq::empty()
    } else {
        let prev = hidden_upto(indices, (k - 1) as nat);
        if indices.contains((k - 1) as usize) {
            prev
        } else {
            prev.push((k - 1) as nat)
        }
    }
}

/// The disclosed indices below `k`, ascending and each once.
pub open spec fn disclosed_upto(indices: Seq<usize>, k: nat) -> Seq<usize>
    decreases k,
{
    if k == 0 {
        Seq::empty()
    } else {
        let prev = disclosed_upto(indices, (k - 1) as nat);
        if indices.contains((k - 1) as usize) {
            prev.push((k - 1) as usize)
        } else {
            prev
        }
    }
}

/// Every index is below `n`.
pub open spec fn indices_in_range(indices: Seq<usize>, n: nat) -> bool {
    forall|i: int| 0 <= i < indices.len() ==> #[trigger] indices[i] < n
}

pub proof fn lemma_disclosed_upto_ok(indices: Seq<usize>, k: nat)
    requires
        k <= usize::MAX + 1,
    ensures
        disclosed_ok(disclosed_upto(indices, k), k),
    decreases k,
{
    if k > 0 {
        lemma_disclosed_upto_ok(indices, (k - 1) as nat);
        let prev = disclosed_upto(indices, (k - 1) as nat);
        if indices.contains((k - 1) as usize) {
            let cur = prev.push((k - 1) as usize);
            assert forall|i: int, j: int| 0 <= i < j < cur.len() implies #[trigger] cur[i] < #[trigger] cur[j] by {
                if j == cur.len() - 1 {
                    assert(cur[i] == prev[i]);
                    assert(prev[i] < k - 1);
                } else {
                    assert(cur[i] == prev[i] && cur[j] == prev[j]);
                }
            }
            assert forall|i: int| 0 <= i < cur.len() implies #[trigger] cur[i] < k by {
                if i < prev.len() {
                    assert(cur[i] == prev[i]);
                }
            }
        }
    }
}

pub open spec fn indices_of(disclosed: Seq<(usize, Scalar)>) -> Seq<usize> {
    disclosed.map_values(|p: (usize, Scalar)| p.0)
}

/// The pairs `(i, attributes[i])` for the disclosed indices.
pub open spec fn disclosed_pairs(attributes: Seq<Scalar>, indices: Seq<usize>) -> Seq<(usize, Scalar)> {
    indices.map_values(|i: usize| (i, attributes[i as int]))
}

/// Each disclosed pair as its index (8 bytes, little-endian) and its value.
pub open spec fn disclosed_encoding(disclosed: Seq<(usize, Scalar)>) -> Seq<u8>
    decreases disclosed.len(),
{
    if disclosed.len() == 0 {
        Seq::empty()
    } else {
        let last = disclosed.last();
        disclosed_encoding(disclosed.drop_last()) + le_seq(last.0 as nat, 8) + last.1.bytes@
    }
}

/// The bytes hashed into the challenge: the commitment, the randomized
/// signature, the disclosed attributes and the caller's context.
pub open spec fn challenge_input(
    commitment: Seq<u8>,
    rs: RandomizedSignature,
    disclosed: Seq<(usize, Scalar)>,
    context: Seq<u8>,
) -> Seq<u8> {
    commitment + rs.a_prime.bytes@ + rs.a_bar.bytes@ + rs.b_prime_prime.bytes@ + le_seq(disclosed.len(), 8)
        + disclosed_encoding(disclosed) + context
}

pub open spec fn challenge_value(
    commitment: Seq<u8>,
    rs: RandomizedSignature,
    disclosed: Seq<(usize, Scalar)>,
    context: Seq<u8>,
) -> nat {
    le_nat(sha256_of(challenge_input(commitment, rs, disclosed, context))) % scalar_modulus()
}

pub open spec fn hidden_bases(pk: BBSPlusPublicKey, hidden: Seq<nat>) -> Seq<Seq<u8>> {
    hidden.map_values(|i: nat| pk.h@[i + 1int].bytes@)
}

pub open spec fn rs_valid(rs: RandomizedSignature) -> bool {
    g1_valid(rs.a_prime.bytes@) && g1_valid(rs.a_bar.bytes@) && g1_valid(rs.b_prime_prime.bytes@)
}

/// The first commitment, as the verifier recomputes it from the responses.
pub open spec fn t1_of(pk: BBSPlusPublicKey, rs: RandomizedSignature, proof: ZKProof, c: nat) -> Seq<u8> {
    g1_msm(
        seq![rs.a_prime.bytes@, pk.h@[0].bytes@, rs.a_bar.bytes@, rs.b_prime_prime.bytes@],
        seq![neg_mod(proof.e_response.value()), proof.r2_response.value(), neg_mod(c), c],
    )
}

pub open spec fn neg_all(s: Seq<nat>) -> Seq<nat> {
    s.map_values(|z: nat| neg_mod(z))
}

pub open spec fn disclosed_bases(pk: BBSPlusPublicKey, disclosed: Seq<(usize, Scalar)>) -> Seq<Seq<u8>> {
    disclosed.map_values(|p: (usize, Scalar)| pk.h@[p.0 + 1int].bytes@)
}

pub open spec fn disclosed_terms(disclosed: Seq<(usize, Scalar)>, c: nat) -> Seq<nat> {
    disclosed.map_values(|p: (usize, Scalar)| neg_mod(mul_mod(c, p.1.value())))
}

/// The second commitment, as the verifier recomputes it from the responses.
pub open spec fn t2_of(
    pk: BBSPlusPublicKey,
    rs: RandomizedSignature,
    proof: ZKProof,
    disclosed: Seq<(usize, Scalar)>,
    c: nat,
) -> Seq<u8> {
    let hidden = hidden_upto(indices_of(disclosed), pk.num_attributes());
    g1_msm(
        seq![rs.b_prime_prime.bytes@, pk.h@[0].bytes@] + hidden_bases(pk, hidden) + seq![pk.g1.bytes@]
            + disclosed_bases(pk, disclosed),
        seq![proof.r3_response.value(), neg_mod(proof.s_response.value())] + neg_all(
            scalar_values(proof.response@),
        ) + seq![neg_mod(c)] + disclosed_terms(disclosed, c),
    )
}

/// The prover's first commitment.
pub open spec fn prover_t1(rs: RandomizedSignature, pk: BBSPlusPublicKey, n_e: nat, n_r2: nat) -> Seq<u8> {
    g1_msm(seq![rs.a_prime.bytes@, pk.h@[0].bytes@], seq![neg_mod(n_e), n_r2])
}

/// The prover's second commitment, over the hidden attributes' nonces.
pub open spec fn prover_t2(
    rs: RandomizedSignature,
    pk: BBSPlusPublicKey,
    hidden: Seq<nat>,
    n_r3: nat,
    n_s: nat,
    nonces: Seq<nat>,
) -> Seq<u8> {
    g1_msm(
        seq![rs.b_prime_prime.bytes@, pk.h@[0].bytes@] + hidden_bases(pk, hidden),
        seq![n_r3, neg_mod(n_s)] + hidden.map_values(|k: nat| neg_mod(nonces[k as int])),
    )
}

/// The responses `nonce_i + c * m_i` of the hidden attributes.
pub open spec fn hidden_responses(hidden: Seq<nat>, nonces: Seq<nat>, attributes: Seq<nat>, c: nat) -> Seq<nat> {
    hidden.map_values(|k: nat| add_mod(nonces[k as int], mul_mod(c, attributes[k as int])))
}

/// `proof` is the proof made with these nonces for these witnesses.
pub open spec fn proof_made_from(
    proof: ZKProof,
    rs: RandomizedSignature,
    sec: RandomizationSecrets,
    pk: BBSPlusPublicKey,
    attributes: Seq<Scalar>,
    indices: Seq<usize>,
    context: Seq<u8>,
    blinding_nonces: Seq<nat>,
    nonces: Seq<nat>,
) -> bool {
    let hidden = hidden_upto(indices, pk.num_attributes());
    let t1 = prover_t1(rs, pk, blinding_nonces[0], blinding_nonces[1]);
    let t2 = prover_t2(rs, pk, hidden, blinding_nonces[2], blinding_nonces[3], nonces);
    let c = challenge_value(proof.commitment@, rs, disclosed_pairs(attributes, indices), context);
    &&& proof.commitment@ == sha256_of(t1 + t2)
    &&& proof.e_response.value() == add_mod(blinding_nonces[0], mul_mod(c, sec.e.value()))
    &&& proof.r2_response.value() == add_mod(blinding_nonces[1], mul_mod(c, sec.r2.value()))
    &&& proof.r3_response.value() == add_mod(blinding_nonces[2], mul_mod(c, sec.r3.value()))
    &&& proof.s_response.value() == add_mod(blinding_nonces[3], mul_mod(c, sec.s_prime.value()))
    &&& scalar_values(proof.response@) == hidden_responses(hidden, nonces, scalar_values(attributes), c)
}

/// When a verifier accepts a proof.
pub open spec fn zkp_accepts(
    proof: ZKProof,
    rs: RandomizedSignature,
    disclosed: Seq<(usize, Scalar)>,
    pk: BBSPlusPublicKey,
    context: Seq<u8>,
) -> bool {
    let n = pk.num_attributes();
    let c = challenge_value(proof.commitment@, rs, disclosed, context);
    &&& disclosed_ok(indices_of(disclosed), n)
    &&& proof.response.len() == hidden_upto(indices_of(disclosed), n).len()
    &&& rs_valid(rs)
    &&& !has_infinity_flag(rs.a_prime.bytes@)
    &&& pairing_of(rs.a_prime.bytes@, pk.w.bytes@) == pairing_of(rs.a_bar.bytes@, pk.g2.bytes@)
    &&& sha256_of(t1_of(pk, rs, proof, c) + t2_of(pk, rs, proof, disclosed, c)) == proof.commitment@
}

pub proof fn lemma_hidden_upto_len(indices: Seq<usize>, i: nat, k: nat)
    requires
        i <= k,
    ensures
        hidden_upto(indices, i).len() <= hidden_upto(indices, k).len(),
        hidden_upto(indices, k).len() <= k,
    decreases k,
{
    if k > 0 {
        if i < k {
            lemma_hidden_upto_len(indices, i, (k - 1) as nat);
        } else {
            lemma_hidden_upto_len(indices, 0, (k - 1) as nat);
        }
    }
}

/// Whether `i` is among `indices`.
pub fn is_disclosed(indices: &[usize], i: usize) -> (r: bool)
    ensures
        r == indices@.contains(i),
{
    let mut k: usize = 0;
    while k < indices.len()
        invariant
            k <= indices.len(),
            forall|j: int| 0 <= j < k ==> indices@[j] != i,
        decreases indices.len() - k,
    {
        if indices[k] == i {
            assert(indices@[k as int] == i);
            return true;
        }
        k = k + 1;
    }
    false
}

/// Whether every index is below `n`.
pub fn check_in_range(indices: &[usize], n: usize) -> (r: bool)
    ensures
        r == indices_in_range(indices@, n as nat),
{
    let mut k: usize = 0;
    while k < indices.len()
        invariant
            k <= indices.len(),
            forall|i: int| 0 <= i < k ==> #[trigger] indices@[i] < n,
        decreases indices.len() - k,
    {
        if indices[k] >= n {
            return false;
        }
        k = k + 1;
    }
    true
}

/// The disclosed indices below `n`, sorted and without repeats.
pub fn normalize_disclosed(indices: &[usize], n: usize) -> (r: Vec<usize>)
    ensures
        r@ == disclosed_upto(indices@, n as nat),
        disclosed_ok(r@, n as nat),
{
    let mut out: Vec<usize> = Vec::new();
    let mut i: usize = 0;
    while i < n
        invariant
            i <= n,
            out@ == disclosed_upto(indices@, i as nat),
        decreases n - i,
    {
        if is_disclosed(indices, i) {
            out.push(i);
        }
        i = i + 1;
    }
    proof {
        lemma_disclosed_upto_ok(indices@, n as nat);
    }
    out
}

/// Whether the disclosed indices are strictly ascending and below `n`.
pub fn check_disclosed(indices: &[usize], n: usize) -> (r: bool)
    ensures
        r == disclosed_ok(indices@, n as nat),
{
    let mut k: usize = 0;
    while k < indices.len()
        invariant
            k <= indices.len(),
            forall|i: int| 0 <= i < k ==> #[trigger] indices@[i] < n,
            forall|i: int, j: int| 0 <= i < j < k ==> #[trigger] indices@[i] < #[trigger] indices@[j],
        decreases indices.len() - k,
    {
        if indices[k] >= n {
            return false;
        }
        if k > 0 && indices[k - 1] >= indices[k] {
            return false;
        }
        k = k + 1;
    }
    true
}

/// The indices of the disclosed pairs.
fn pair_indices(disclosed: &[(usize, Scalar)]) -> (r: Vec<usize>)
    ensures
        r@ == indices_of(disclosed@),
{
    let mut out: Vec<usize> = Vec::new();
    let mut k: usize = 0;
    while k < disclosed.len()
        invariant
            k <= disclosed.len(),
            out@ == indices_of(disclosed@.subrange(0, k as int)),
        decreases disclosed.len() - k,
    {
        out.push(disclosed[k].0);
        k = k + 1;
        assert(out@ =~= indices_of(disclosed@.subrange(0, k as int)));
    }
    assert(disclosed@.subrange(0, k as int) =~= disclosed@);
    out
}

/// The pairs `(i, attributes[i])` for the disclosed indices.
pub fn select_disclosed(attributes: &[Scalar], indices: &[usize]) -> (r: Vec<(usize, Scalar)>)
    requires
        forall|i: int| 0 <= i < indices.len() ==> #[trigger] indices@[i] < attributes.len(),
    ensures
        r@ == disclosed_pairs(attributes@, indices@),
{
    let mut out: Vec<(usize, Scalar)> = Vec::new();
    let mut k: usize = 0;
    while k < indices.len()
        invariant
            k <= indices.len(),
            forall|i: int| 0 <= i < indices.len() ==> #[trigger] indices@[i] < attributes.len(),
            out@ == disclosed_pairs(attributes@, indices@.subrange(0, k as int)),
        decreases indices.len() - k,
    {
        let i = indices[k];
        out.push((i, attributes[i]));
        k = k + 1;
        assert(out@ =~= disclosed_pairs(attributes@, indices@.subrange(0, k as int)));
    }
    assert(indices@.subrange(0, k as int) =~= indices@);
    out
}

/// Appends the encoding of the disclosed pairs to `out`.
pub fn push_disclosed(out: &mut Vec<u8>, disclosed: &[(usize, Scalar)])
    ensures
        final(out)@ == old(out)@ + disclosed_encoding(disclosed@),
{
    let mut k: usize = 0;
    while k < disclosed.len()
        invariant
            k <= disclosed.len(),
            out@ == old(out)@ + disclosed_encoding(disclosed@.subrange(0, k as int)),
        decreases disclosed.len() - k,
    {
        let (i, v) = disclosed[k];
        let ib = u64_le_bytes(i as u64);
        push_bytes(out, ib.as_slice());
        push_bytes(out, &v.bytes);
        k = k + 1;
        let ghost sub = disclosed@.subrange(0, k as int);
        assert(sub.drop_last() =~= disclosed@.subrange(0, k - 1));
        assert(out@ =~= old(out)@ + disclosed_encoding(sub));
    }
    assert(disclosed@.subrange(0, k as int) =~= disclosed@);
}

/// The Fiat-Shamir challenge.
fn challenge(commitment: &[u8; 32], rs: &RandomizedSignature, disclosed: &[(usize, Scalar)], context: &[u8]) -> (r: Scalar)
    ensures
        r.value() == challenge_value(commitment@, *rs, disclosed@, context@),
{
    let mut data: Vec<u8> = Vec::new();
    push_bytes(&mut data, commitment);
    push_bytes(&mut data, &rs.a_prime.bytes);
    push_bytes(&mut data, &rs.a_bar.bytes);
    push_bytes(&mut data, &rs.b_prime_prime.bytes);
    let lb = u64_le_bytes(disclosed.len() as u64);
    push_bytes(&mut data, lb.as_slice());
    push_disclosed(&mut data, disclosed);
    push_bytes(&mut data, context);
    assert(data@ =~= challenge_input(commitment@, *rs, disclosed@, context@));
    let digest = sha256(&data);
    let c = scalar_from_le_bytes_mod_order(&digest);
    proof {
        assert(c.value() == (le_nat(digest@) % scalar_modulus()) % scalar_modulus());
        vstd::arithmetic::div_mod::lemma_mod_twice(le_nat(digest@) as int, scalar_modulus() as int);
    }
    c
}


fn concat_points(a: &G1Point, b: &G1Point) -> (r: Vec<u8>)
    ensures
        r@ == a.bytes@ + b.bytes@,
{
    let mut out: Vec<u8> = Vec::new();
    push_bytes(&mut out, &a.bytes);
    push_bytes(&mut out, &b.bytes);
    assert(out@ =~= a.bytes@ + b.bytes@);
    out
}

/// Proves knowledge of the hidden attributes and of the randomization's
/// witnesses, with the given nonces: `blinding_nonces` for `e`, `r2`, `r3`,
/// `s'`, and `nonces[i]` for attribute `i` (used only where `i` is hidden).
pub fn generate_zkp_with(
    rs: &RandomizedSignature,
    sec: &RandomizationSecrets,
    attributes: &[Scalar],
    disclosed_indices: &[usize],
    pk: &BBSPlusPublicKey,
    context: &[u8],
    blinding_nonces: &[Scalar; 4],
    nonces: &[Scalar],
) -> (r: Result<ZKProof, CredentialError>)
    requires
        pk.wf(),
        rs_valid(*rs),
        nonces.len() == attributes.len(),
    ensures
        (attributes.len() != pk.num_attributes() || !disclosed_ok(disclosed_indices@, pk.num_attributes()))
            ==> r == Err::<ZKProof, CredentialError>(CredentialError::InvalidInput),
        (attributes.len() == pk.num_attributes() && disclosed_ok(disclosed_indices@, pk.num_attributes()))
            ==> (r matches Ok(proof) && proof_made_from(proof, *rs, *sec, *pk, attributes@, disclosed_indices@,
                context@, scalar_values(blinding_nonces@), scalar_values(nonces@))),
{
    let n = pk.h.len() - 1;
    if attributes.len() != n || !check_disclosed(disclosed_indices, n) {
        return Err(CredentialError::InvalidInput);
    }
    let ghost bn = scalar_values(blinding_nonces@);
    let ghost nv = scalar_values(nonces@);
    let ghost av = scalar_values(attributes@);
    let ghost idx = disclosed_indices@;
    // first commitment
    let p1: Vec<G1Point> = vec![rs.a_prime, pk.h[0]];
    let k1: Vec<Scalar> = vec![scalar_neg(&blinding_nonces[0]), blinding_nonces[1]];
    assert(g1_views(p1@) =~= seq![rs.a_prime.bytes@, pk.h@[0].bytes@]);
    assert(scalar_values(k1@) =~= seq![neg_mod(bn[0]), bn[1]]);
    assert(all_g1_valid(p1@));
    let t1 = g1_linear_combination(&p1, &k1);
    // second commitment
    let mut p2: Vec<G1Point> = vec![rs.b_prime_prime, pk.h[0]];
    let mut k2: Vec<Scalar> = vec![blinding_nonces[2], scalar_neg(&blinding_nonces[3])];
    let ghost pp = seq![rs.b_prime_prime.bytes@, pk.h@[0].bytes@];
    let ghost kp = seq![bn[2], neg_mod(bn[3])];
    assert(g1_views(p2@) =~= pp + hidden_bases(*pk, hidden_upto(idx, 0)));
    assert(scalar_values(k2@) =~= kp + hidden_upto(idx, 0).map_values(|k: nat| neg_mod(nv[k as int])));
    let mut i: usize = 0;
    while i < n
        invariant
            pk.wf(),
            n == pk.num_attributes(),
            nonces.len() == n,
            i <= n,
            nv == scalar_values(nonces@),
            idx == disclosed_indices@,
            p2.len() == k2.len(),
            all_g1_valid(p2@),
            g1_views(p2@) == pp + hidden_bases(*pk, hidden_upto(idx, i as nat)),
            scalar_values(k2@) == kp + hidden_upto(idx, i as nat).map_values(|k: nat| neg_mod(nv[k as int])),
        decreases n - i,
    {
        if !is_disclosed(disclosed_indices, i) {
            let ghost hprev = hidden_upto(idx, i as nat);
            let ghost pbefore = p2@;
            let ghost kbefore = k2@;
            p2.push(pk.h[i + 1]);
            k2.push(scalar_neg(&nonces[i]));
            assert(hidden_upto(idx, (i + 1) as nat) == hprev.push(i as nat));
            assert(g1_views(p2@) =~= g1_views(pbefore).push(pk.h@[i + 1].bytes@));
            assert(hidden_bases(*pk, hprev.push(i as nat)) =~= hidden_bases(*pk, hprev).push(pk.h@[i + 1].bytes@));
            assert(scalar_values(k2@) =~= scalar_values(kbefore).push(neg_mod(nv[i as int])));
            assert(hprev.push(i as nat).map_values(|k: nat| neg_mod(nv[k as int])) =~= hprev.map_values(
                |k: nat| neg_mod(nv[k as int]),
            ).push(neg_mod(nv[i as int])));
            assert(g1_views(p2@) =~= pp + hidden_bases(*pk, hprev.push(i as nat)));
            assert(scalar_values(k2@) =~= kp + hprev.push(i as nat).map_values(|k: nat| neg_mod(nv[k as int])));
            proof {
                lemma_push_valid(pbefore, p2@.last());
            }
        }
        i = i + 1;
    }
    let t2 = g1_linear_combination(&p2, &k2);
    let ghost hidden = hidden_upto(idx, n as nat);
    assert(t2.bytes@ == prover_t2(*rs, *pk, hidden, bn[2], bn[3], nv));
    let tt = concat_points(&t1, &t2);
    let commitment = sha256(&tt);
    let disclosed = select_disclosed(attributes, disclosed_indices);
    let c = challenge(&commitment, rs, disclosed.as_slice(), context);
    // responses
    let mut response: Vec<Scalar> = Vec::new();
    let mut i: usize = 0;
    while i < n
        invariant
            n == pk.num_attributes(),
            nonces.len() == n,
            attributes.len() == n,
            i <= n,
            nv == scalar_values(nonces@),
            av == scalar_values(attributes@),
            idx == disclosed_indices@,
            scalar_values(response@) == hidden_responses(hidden_upto(idx, i as nat), nv, av, c.value()),
        decreases n - i,
    {
        if !is_disclosed(disclosed_indices, i) {
            let ghost hprev = hidden_upto(idx, i as nat);
            let z = scalar_add(&nonces[i], &scalar_mul(&c, &attributes[i]));
            let ghost rbefore = response@;
            response.push(z);
            assert(hidden_upto(idx, (i + 1) as nat) == hprev.push(i as nat));
            assert(scalar_values(response@) =~= scalar_values(rbefore).push(z.value()));
            assert(hidden_responses(hprev.push(i as nat), nv, av, c.value()) =~= hidden_responses(
                hprev,
                nv,
                av,
                c.value(),
            ).push(add_mod(nv[i as int], mul_mod(c.value(), av[i as int]))));
            assert(scalar_values(response@) =~= hidden_responses(hprev.push(i as nat), nv, av, c.value()));
        }
        i = i + 1;
    }
    let e_response = scalar_add(&blinding_nonces[0], &scalar_mul(&c, &sec.e));
    let r2_response = scalar_add(&blinding_nonces[1], &scalar_mul(&c, &sec.r2));
    let r3_response = scalar_add(&blinding_nonces[2], &scalar_mul(&c, &sec.r3));
    let s_response = scalar_add(&blinding_nonces[3], &scalar_mul(&c, &sec.s_prime));
    Ok(ZKProof { commitment, e_response, r2_response, r3_response, s_response, response })
}


/// Proves knowledge of the attributes that `disclosed_indices` leaves
/// hidden (the disclosed set is taken sorted and without repeats), with
/// nonces drawn from `rng`.
pub fn generate_zkp(
    rng: &mut StdRng,
    rs: &RandomizedSignature,
    sec: &RandomizationSecrets,
    attributes: &[Scalar],
    disclosed_indices: &[usize],
    pk: &BBSPlusPublicKey,
    context: &[u8],
) -> (r: Result<ZKProof, CredentialError>)
    requires
        pk.wf(),
        rs_valid(*rs),
    ensures
        (attributes.len() != pk.num_attributes() || !indices_in_range(disclosed_indices@, pk.num_attributes()))
            ==> r == Err::<ZKProof, CredentialError>(CredentialError::InvalidInput),
        (attributes.len() == pk.num_attributes() && indices_in_range(disclosed_indices@, pk.num_attributes()))
            ==> (r matches Ok(proof) && exists|bn: Seq<nat>, nv: Seq<nat>| #[trigger] proof_made_from(proof, *rs, *sec,
                *pk, attributes@, disclosed_upto(disclosed_indices@, pk.num_attributes()), context@, bn, nv)),
{
    let n = pk.h.len() - 1;
    if attributes.len() != n || !check_in_range(disclosed_indices, n) {
        return Err(CredentialError::InvalidInput);
    }
    let disclosed = normalize_disclosed(disclosed_indices, n);
    let blinding_nonces: [Scalar; 4] = [scalar_random(rng), scalar_random(rng), scalar_random(rng), scalar_random(rng)];
    let mut nonces: Vec<Scalar> = Vec::new();
    let mut i: usize = 0;
    while i < attributes.len()
        invariant
            i <= attributes.len(),
            nonces.len() == i,
        decreases attributes.len() - i,
    {
        nonces.push(scalar_random(rng));
        i = i + 1;
    }
    generate_zkp_with(rs, sec, attributes, disclosed.as_slice(), pk, context, &blinding_nonces, nonces.as_slice())
}

/// Checks a proof against a randomized signature, the disclosed attributes,
/// the issuer's public key and the context the prover bound it to: the
/// randomized signature satisfies `e(A', w) == e(A_bar, g2)` with `A'` not the
/// identity, and the commitments recomputed from the responses hash to the
/// proof's commitment.
pub fn verify_zkp(
    proof: &ZKProof,
    rs: &RandomizedSignature,
    disclosed: &[(usize, Scalar)],
    pk: &BBSPlusPublicKey,
    context: &[u8],
) -> (r: bool)
    requires
        pk.wf(),
    ensures
        r == zkp_accepts(*proof, *rs, disclosed@, *pk, context@),
{
    let n = pk.h.len() - 1;
    let indices = pair_indices(disclosed);
    if !check_disclosed(indices.as_slice(), n) {
        return false;
    }
    if !g1_check(&rs.a_prime.bytes) || !g1_check(&rs.a_bar.bytes) || !g1_check(&rs.b_prime_prime.bytes) {
        return false;
    }
    if rs.a_prime.bytes[0] & 0x40u8 != 0u8 {
        return false;
    }
    let lhs = pairing(&rs.a_prime, &pk.w);
    let rhs = pairing(&rs.a_bar, &pk.g2);
    if !bytes_equal(lhs.as_slice(), rhs.as_slice()) {
        return false;
    }
    let c = challenge(&proof.commitment, rs, disclosed, context);
    let neg_c = scalar_neg(&c);
    // first commitment
    let p1: Vec<G1Point> = vec![rs.a_prime, pk.h[0], rs.a_bar, rs.b_prime_prime];
    let k1: Vec<Scalar> = vec![scalar_neg(&proof.e_response), proof.r2_response, neg_c, c];
    assert(g1_views(p1@) =~= seq![rs.a_prime.bytes@, pk.h@[0].bytes@, rs.a_bar.bytes@, rs.b_prime_prime.bytes@]);
    assert(scalar_values(k1@) =~= seq![neg_mod(proof.e_response.value()), proof.r2_response.value(), neg_mod(c.value()), c.value()]);
    assert(all_g1_valid(p1@));
    let t1 = g1_linear_combination(&p1, &k1);
    // second commitment: the hidden attributes
    let ghost idx = indices@;
    let ghost zs = scalar_values(proof.response@);
    let mut p2: Vec<G1Point> = vec![rs.b_prime_prime, pk.h[0]];
    let mut k2: Vec<Scalar> = vec![proof.r3_response, scalar_neg(&proof.s_response)];
    let ghost pp = seq![rs.b_prime_prime.bytes@, pk.h@[0].bytes@];
    let ghost kp = seq![proof.r3_response.value(), neg_mod(proof.s_response.value())];
    assert(g1_views(p2@) =~= pp + hidden_bases(*pk, hidden_upto(idx, 0)));
    assert(scalar_values(k2@) =~= kp + neg_all(zs.subrange(0, 0)));
    let mut i: usize = 0;
    let mut j: usize = 0;
    while i < n
        invariant
            pk.wf(),
            rs_valid(*rs),
            n == pk.num_attributes(),
            i <= n,
            j <= proof.response.len(),
            j == hidden_upto(idx, i as nat).len(),
            idx == indices@,
            idx == indices_of(disclosed@),
            zs == scalar_values(proof.response@),
            p2.len() == k2.len(),
            all_g1_valid(p2@),
            g1_views(p2@) == pp + hidden_bases(*pk, hidden_upto(idx, i as nat)),
            scalar_values(k2@) == kp + neg_all(zs.subrange(0, j as int)),
        decreases n - i,
    {
        if !is_disclosed(indices.as_slice(), i) {
            let ghost hprev = hidden_upto(idx, i as nat);
            assert(hidden_upto(idx, (i + 1) as nat) == hprev.push(i as nat));
            if j >= proof.response.len() {
                proof {
                    lemma_hidden_upto_len(idx, (i + 1) as nat, n as nat);
                }
                return false;
            }
            let ghost pbefore = p2@;
            let ghost kbefore = k2@;
            p2.push(pk.h[i + 1]);
            k2.push(scalar_neg(&proof.response[j]));
            assert(g1_views(p2@) =~= g1_views(pbefore).push(pk.h@[i + 1].bytes@));
            assert(hidden_bases(*pk, hprev.push(i as nat)) =~= hidden_bases(*pk, hprev).push(pk.h@[i + 1].bytes@));
            assert(scalar_values(k2@) =~= scalar_values(kbefore).push(neg_mod(zs[j as int])));
            assert(neg_all(zs.subrange(0, j + 1)) =~= neg_all(zs.subrange(0, j as int)).push(neg_mod(zs[j as int])));
            proof {
                lemma_push_valid(pbefore, p2@.last());
            }
            j = j + 1;
        }
        i = i + 1;
    }
    if j != proof.response.len() {
        return false;
    }
    assert(zs.subrange(0, j as int) =~= zs);
    // second commitment: the disclosed attributes
    let ghost pbefore = p2@;
    p2.push(pk.g1);
    k2.push(neg_c);
    let ghost pp2 = pp + hidden_bases(*pk, hidden_upto(idx, n as nat)) + seq![pk.g1.bytes@];
    let ghost kp2 = kp + neg_all(zs) + seq![neg_mod(c.value())];
    assert(g1_views(p2@) =~= pp2 + disclosed_bases(*pk, disclosed@.subrange(0, 0)));
    assert(scalar_values(k2@) =~= kp2 + disclosed_terms(disclosed@.subrange(0, 0), c.value()));
    proof {
        lemma_push_valid(pbefore, p2@.last());
    }
    let mut k: usize = 0;
    while k < disclosed.len()
        invariant
            pk.wf(),
            n == pk.num_attributes(),
            k <= disclosed.len(),
            idx == indices@,
            idx == indices_of(disclosed@),
            disclosed_ok(idx, n as nat),
            p2.len() == k2.len(),
            all_g1_valid(p2@),
            g1_views(p2@) == pp2 + disclosed_bases(*pk, disclosed@.subrange(0, k as int)),
            scalar_values(k2@) == kp2 + disclosed_terms(disclosed@.subrange(0, k as int), c.value()),
        decreases disclosed.len() - k,
    {
        let (di, dv) = disclosed[k];
        assert(idx[k as int] == di);
        let ghost pb = p2@;
        let ghost kb = k2@;
        p2.push(pk.h[di + 1]);
        let term = scalar_neg(&scalar_mul(&c, &dv));
        k2.push(term);
        assert(g1_views(p2@) =~= g1_views(pb).push(pk.h@[di + 1].bytes@));
        assert(disclosed_bases(*pk, disclosed@.subrange(0, k + 1)) =~= disclosed_bases(*pk, disclosed@.subrange(0, k as int)).push(pk.h@[di + 1].bytes@));
        assert(scalar_values(k2@) =~= scalar_values(kb).push(term.value()));
        assert(disclosed_terms(disclosed@.subrange(0, k + 1), c.value()) =~= disclosed_terms(disclosed@.subrange(0, k as int), c.value()).push(neg_mod(mul_mod(c.value(), dv.value()))));
        proof {
            lemma_push_valid(pb, p2@.last());
        }
        k = k + 1;
    }
    assert(disclosed@.subrange(0, k as int) =~= disclosed@);
    let t2 = g1_linear_combination(&p2, &k2);
    assert(g1_views(p2@) =~= seq![rs.b_prime_prime.bytes@, pk.h@[0].bytes@] + hidden_bases(*pk, hidden_upto(indices_of(disclosed@), n as nat)) + seq![pk.g1.bytes@] + disclosed_bases(*pk, disclosed@));
    assert(scalar_values(k2@) =~= seq![proof.r3_response.value(), neg_mod(proof.s_response.value())] + neg_all(scalar_values(proof.response@)) + seq![neg_mod(c.value())] + disclosed_terms(disclosed@, c.value()));
    let tt = concat_points(&t1, &t2);
    let digest = sha256(&tt);
    bytes_equal(&digest, &proof.commitment)
}

} // verus!
