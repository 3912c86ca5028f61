use vstd::prelude::*;

use ark_bls12_381::{Bls12_381, Fr, G1Affine, G1Projective, G2Affine, G2Projective};
use ark_ec::pairing::Pairing;
use ark_ec::{CurveGroup, VariableBaseMSM};
use ark_ff::{Field, PrimeField, UniformRand};
use ark_serialize::{CanonicalDeserialize, CanonicalSerialize};
use ark_std::rand::rngs::StdRng;
use sha2::{Digest, Sha256};

verus! {

/// The order of the BLS12-381 scalar field.
pub open spec fn scalar_modulus() -> nat {
    52435875175126190479447740508185965837690552500527637822603658699938581184513nat
}

/// The number that a little-endian byte string stands for.
pub open spec fn le_nat(s: Seq<u8>) -> nat
    decreases s.len(),
{
    if s.len() == 0 {
        0
    } else {
        s[0] as nat + 256 * le_nat(s.subrange(1, s.len() as int))
    }
}

pub open spec fn add_mod(a: nat, b: nat) -> nat {
    (a + b) % scalar_modulus()
}

pub open spec fn mul_mod(a: nat, b: nat) -> nat {
    (a * b) % scalar_modulus()
}

pub open spec fn neg_mod(a: nat) -> nat {
    ((scalar_modulus() - a % scalar_modulus()) as nat) % scalar_modulus()
}

/// Whether `y` is the multiplicative inverse of `a` in the scalar field.
pub open spec fn is_inverse(a: nat, y: nat) -> bool {
    y < scalar_modulus() && mul_mod(a, y) == 1
}

/// Whether the bytes decode to a point of the prime-order subgroup of G1
/// (compressed form).
pub uninterp spec fn g1_valid(b: Seq<u8>) -> bool;

/// Whether the bytes decode to a point of the prime-order subgroup of G2
/// (compressed form).
pub uninterp spec fn g2_valid(b: Seq<u8>) -> bool;

/// The compressed encoding of `sum_i scalars[i] * points[i]` in G1.
pub uninterp spec fn g1_msm(points: Seq<Seq<u8>>, scalars: Seq<nat>) -> Seq<u8>;

/// The compressed encoding of `sum_i scalars[i] * points[i]` in G2.
pub uninterp spec fn g2_msm(points: Seq<Seq<u8>>, scalars: Seq<nat>) -> Seq<u8>;

/// The canonical encoding of the pairing of a G1 point with a G2 point.
pub uninterp spec fn pairing_of(p: Seq<u8>, q: Seq<u8>) -> Seq<u8>;

/// The SHA-256 digest of a byte string.
pub uninterp spec fn sha256_of(data: Seq<u8>) -> Seq<u8>;

/// An element of the scalar field, as 32 little-endian bytes. Any 32 bytes
/// stand for their value reduced modulo the field order; the library itself
/// only produces canonical (reduced) encodings.
#[derive(Clone, Copy, PartialEq, Eq, Debug)]
pub struct Scalar {
    pub bytes: [u8; 32],
}

impl Scalar {
    pub open spec fn value(&self) -> nat {
        le_nat(self.bytes@) % scalar_modulus()
    }

    pub open spec fn canonical(&self) -> bool {
        le_nat(self.bytes@) < scalar_modulus()
    }

    /// The field element of a machine integer.
    pub fn from_u64(v: u64) -> (r: Scalar)
        ensures
            r.canonical(),
            r.value() == v as nat,
    {
        scalar_from_u64(v)
    }

    /// A field element drawn from `rng`.
    pub fn random(rng: &mut StdRng) -> (r: Scalar)
        ensures
            r.canonical(),
    {
        scalar_random(rng)
    }
}

/// A point of G1, in compressed form.
#[derive(Clone, Copy, PartialEq, Eq, Debug)]
pub struct G1Point {
    pub bytes: [u8; 48],
}

/// A point of G2, in compressed form.
#[derive(Clone, Copy, PartialEq, Eq, Debug)]
pub struct G2Point {
    pub bytes: [u8; 96],
}

pub open spec fn g1_views(s: Seq<G1Point>) -> Seq<Seq<u8>> {
    s.map_values(|p: G1Point| p.bytes@)
}

pub open spec fn g2_views(s: Seq<G2Point>) -> Seq<Seq<u8>> {
    s.map_values(|p: G2Point| p.bytes@)
}

pub open spec fn scalar_values(s: Seq<Scalar>) -> Seq<nat> {
    s.map_values(|x: Scalar| x.value())
}

pub open spec fn all_g1_valid(s: Seq<G1Point>) -> bool {
    forall|i: int| 0 <= i < s.len() ==> g1_valid(#[trigger] s[i].bytes@)
}

/// Pushing a valid point keeps every point valid.
pub proof fn lemma_push_valid(s: Seq<G1Point>, p: G1Point)
    requires
        all_g1_valid(s),
        g1_valid(p.bytes@),
    ensures
        all_g1_valid(s.push(p)),
{
    assert forall|k: int| 0 <= k < s.push(p).len() implies g1_valid(#[trigger] s.push(p)[k].bytes@) by {
        if k < s.len() {
            assert(s.push(p)[k] == s[k]);
        }
    }
}

#[verifier::external_type_specification]
#[verifier::external_body]
pub struct ExStdRng(StdRng);

/// Relies on `Fr::from_le_bytes_mod_order` and `Fr`'s canonical serialization.
#[verifier::external_body]
pub(crate) fn scalar_from_le_bytes_mod_order(b: &[u8; 32]) -> (r: Scalar)
    ensures
        r.canonical(),
        r.value() == le_nat(b@) % scalar_modulus(),
{
    let x = Fr::from_le_bytes_mod_order(&b[..]);
    let mut bytes = [0u8; 32];
    x.serialize_compressed(&mut bytes[..]).unwrap();
    Scalar { bytes }
}

/// Relies on `Fr::from(u64)`: the field element of that integer.
#[verifier::external_body]
pub(crate) fn scalar_from_u64(v: u64) -> (r: Scalar)
    ensures
        r.canonical(),
        r.value() == v as nat,
{
    let x = Fr::from(v);
    let mut bytes = [0u8; 32];
    x.serialize_compressed(&mut bytes[..]).unwrap();
    Scalar { bytes }
}

/// Relies on `Fr::rand`: some field element, drawn from `rng`.
#[verifier::external_body]
pub(crate) fn scalar_random(rng: &mut StdRng) -> (r: Scalar)
    ensures
        r.canonical(),
{
    let x = Fr::rand(rng);
    let mut bytes = [0u8; 32];
    x.serialize_compressed(&mut bytes[..]).unwrap();
    Scalar { bytes }
}

/// Relies on addition in `Fr`.
#[verifier::external_body]
pub(crate) fn scalar_add(a: &Scalar, b: &Scalar) -> (r: Scalar)
    ensures
        r.canonical(),
        r.value() == add_mod(a.value(), b.value()),
{
    let x = Fr::from_le_bytes_mod_order(&a.bytes) + Fr::from_le_bytes_mod_order(&b.bytes);
    let mut bytes = [0u8; 32];
    x.serialize_compressed(&mut bytes[..]).unwrap();
    Scalar { bytes }
}

/// Relies on multiplication in `Fr`.
#[verifier::external_body]
pub(crate) fn scalar_mul(a: &Scalar, b: &Scalar) -> (r: Scalar)
    ensures
        r.canonical(),
        r.value() == mul_mod(a.value(), b.value()),
{
    let x = Fr::from_le_bytes_mod_order(&a.bytes) * Fr::from_le_bytes_mod_order(&b.bytes);
    let mut bytes = [0u8; 32];
    x.serialize_compressed(&mut bytes[..]).unwrap();
    Scalar { bytes }
}

/// Relies on negation in `Fr`.
#[verifier::external_body]
pub(crate) fn scalar_neg(a: &Scalar) -> (r: Scalar)
    ensures
        r.canonical(),
        r.value() == neg_mod(a.value()),
{
    let x = -Fr::from_le_bytes_mod_order(&a.bytes);
    let mut bytes = [0u8; 32];
    x.serialize_compressed(&mut bytes[..]).unwrap();
    Scalar { bytes }
}

/// Relies on `Field::inverse`: `None` exactly for zero.
#[verifier::external_body]
pub(crate) fn scalar_inverse(a: &Scalar) -> (r: Option<Scalar>)
    ensures
        r is None <==> a.value() == 0,
        r matches Some(y) ==> y.canonical() && is_inverse(a.value(), y.value()),
{
    let x = Fr::from_le_bytes_mod_order(&a.bytes).inverse()?;
    let mut bytes = [0u8; 32];
    x.serialize_compressed(&mut bytes[..]).unwrap();
    Some(Scalar { bytes })
}

/// Relies on `G1Affine::deserialize_compressed`, with validation.
#[verifier::external_body]
pub(crate) fn g1_check(b: &[u8; 48]) -> (r: bool)
    ensures
        r == g1_valid(b@),
{
    G1Affine::deserialize_compressed(&b[..]).is_ok()
}

/// Relies on `G1Projective::rand`: some point of G1, drawn from `rng`.
#[verifier::external_body]
pub(crate) fn g1_random(rng: &mut StdRng) -> (r: G1Point)
    ensures
        g1_valid(r.bytes@),
{
    let p = G1Projective::rand(rng).into_affine();
    let mut bytes = [0u8; 48];
    p.serialize_compressed(&mut bytes[..]).unwrap();
    G1Point { bytes }
}

/// Relies on `G2Projective::rand`: some point of G2, drawn from `rng`.
#[verifier::external_body]
pub(crate) fn g2_random(rng: &mut StdRng) -> (r: G2Point)
    ensures
        g2_valid(r.bytes@),
{
    let p = G2Projective::rand(rng).into_affine();
    let mut bytes = [0u8; 96];
    p.serialize_compressed(&mut bytes[..]).unwrap();
    G2Point { bytes }
}

/// Relies on `VariableBaseMSM::msm` over G1.
#[verifier::external_body]
pub(crate) fn g1_linear_combination(points: &Vec<G1Point>, scalars: &Vec<Scalar>) -> (r: G1Point)
    requires
        points.len() == scalars.len(),
        all_g1_valid(points@),
    ensures
        g1_valid(r.bytes@),
        r.bytes@ == g1_msm(g1_views(points@), scalar_values(scalars@)),
{
    let bases: Vec<G1Affine> = points.iter().map(|p| G1Affine::deserialize_compressed(&p.bytes[..]).unwrap()).collect();
    let ks: Vec<Fr> = scalars.iter().map(|s| Fr::from_le_bytes_mod_order(&s.bytes)).collect();
    let sum = G1Projective::msm(&bases, &ks).unwrap().into_affine();
    let mut bytes = [0u8; 48];
    sum.serialize_compressed(&mut bytes[..]).unwrap();
    G1Point { bytes }
}

/// Relies on `VariableBaseMSM::msm` over G2.
#[verifier::external_body]
pub(crate) fn g2_linear_combination(points: &Vec<G2Point>, scalars: &Vec<Scalar>) -> (r: G2Point)
    requires
        points.len() == scalars.len(),
        forall|i: int| 0 <= i < points.len() ==> g2_valid(#[trigger] points@[i].bytes@),
    ensures
        g2_valid(r.bytes@),
        r.bytes@ == g2_msm(g2_views(points@), scalar_values(scalars@)),
{
    let bases: Vec<G2Affine> = points.iter().map(|p| G2Affine::deserialize_compressed(&p.bytes[..]).unwrap()).collect();
    let ks: Vec<Fr> = scalars.iter().map(|s| Fr::from_le_bytes_mod_order(&s.bytes)).collect();
    let sum = G2Projective::msm(&bases, &ks).unwrap().into_affine();
    let mut bytes = [0u8; 96];
    sum.serialize_compressed(&mut bytes[..]).unwrap();
    G2Point { bytes }
}

/// Relies on `Bls12_381::pairing` and the canonical serialization of its output.
#[verifier::external_body]
pub(crate) fn pairing(p: &G1Point, q: &G2Point) -> (r: Vec<u8>)
    requires
        g1_valid(p.bytes@),
        g2_valid(q.bytes@),
    ensures
        r@ == pairing_of(p.bytes@, q.bytes@),
{
    let a = G1Affine::deserialize_compressed(&p.bytes[..]).unwrap();
    let b = G2Affine::deserialize_compressed(&q.bytes[..]).unwrap();
    let mut out = Vec::new();
    Bls12_381::pairing(a, b).serialize_compressed(&mut out).unwrap();
    out
}

/// Relies on `Sha256::digest`.
#[verifier::external_body]
pub(crate) fn sha256(data: &Vec<u8>) -> (r: [u8; 32])
    ensures
        r@ == sha256_of(data@),
{
    Sha256::digest(&data[..]).into()
}

} // verus!
