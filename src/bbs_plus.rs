use vstd::prelude::*;

use crate::algebra::{
    add_mod, all_g1_valid, g1_check, g1_linear_combination, g1_msm, g1_random, g1_valid,
    g1_views, g2_linear_combination, g2_views, g2_msm, g2_random, g2_valid, is_inverse, mul_mod, neg_mod,
    pairing, pairing_of, scalar_add, scalar_from_u64, scalar_inverse, scalar_mul, scalar_neg,
    scalar_random, scalar_values, G1Point, G2Point, Scalar,
};
use crate::encoding::bytes_equal;
use crate::CredentialError;
use ark_std::rand::rngs::StdRng;

verus! {

/// An issuer's public key: `w = x * g2`, the generators `h[0..=n]` (`h[0]`
/// for the blinding scalar, `h[i + 1]` for attribute `i`) and the bases `g1`,
/// `g2`.
pub struct BBSPlusPublicKey {
    pub w: G2Point,
    pub h: Vec<G1Point>,
    pub g1: G1Point,
    pub g2: G2Point,
}

pub struct BBSPlusKeypair {
    pub secret_key: Scalar,
    pub public_key: BBSPlusPublicKey,
}

/// A signature `(A, e, s)` with `A = B / (e + x)`.
#[derive(Clone, Copy, PartialEq, Eq, Debug)]
pub struct BBSPlusSignature {
    pub a: G1Point,
    pub e: Scalar,
    pub s: Scalar,
}

/// The public part of a randomized signature: `A' = r1 * A`,
/// `A_bar = r1 * B - e * A'` and `B'' = r1 * B - r2 * h[0]`.
#[derive(Clone, Copy, PartialEq, Eq, Debug)]
pub struct RandomizedSignature {
    pub a_prime: G1Point,
    pub a_bar: G1Point,
    pub b_prime_prime: G1Point,
}

/// The holder's witnesses for a randomized signature: `e`, `r2`,
/// `r3 = 1 / r1` and `s' = s - r2 * r3`.
#[derive(Clone, Copy, PartialEq, Eq, Debug)]
pub struct RandomizationSecrets {
    pub e: Scalar,
    pub r2: Scalar,
    pub r3: Scalar,
    pub s_prime: Scalar,
}

/// Whether a compressed G1 encoding carries the infinity flag: every such
/// encoding that decodes at all decodes to the identity, and no other does.
pub open spec fn has_infinity_flag(b: Seq<u8>) -> bool {
    b[0] & 0x40u8 != 0u8
}

/// `B = g1 + s * h[0] + sum_i m_i * h[i + 1]`.
pub open spec fn message_commitment(pk: BBSPlusPublicKey, s: nat, messages: Seq<nat>) -> Seq<u8> {
    g1_msm(seq![pk.g1.bytes@] + g1_views(pk.h@), seq![1nat, s] + messages)
}

/// The pairing equation `e(A, w + e * g2) == e(B, g2)`.
pub open spec fn signature_accepts(pk: BBSPlusPublicKey, sig: BBSPlusSignature, messages: Seq<nat>) -> bool {
    &&& messages.len() == pk.num_attributes()
    &&& g1_valid(sig.a.bytes@)
    &&& pairing_of(sig.a.bytes@, g2_msm(seq![pk.w.bytes@, pk.g2.bytes@], seq![1nat, sig.e.value()]))
        == pairing_of(message_commitment(pk, sig.s.value(), messages), pk.g2.bytes@)
}

/// `sig` was made with secret key `x`: `A = B / (e + x)`.
pub open spec fn signed_with(pk: BBSPlusPublicKey, x: nat, sig: BBSPlusSignature, messages: Seq<nat>) -> bool {
    &&& g1_valid(sig.a.bytes@)
    &&& exists|y: nat|
        is_inverse(add_mod(sig.e.value(), x), y)
            && sig.a.bytes@ == g1_msm(seq![message_commitment(pk, sig.s.value(), messages)], seq![y])
}

impl BBSPlusPublicKey {
    pub open spec fn wf(&self) -> bool {
        &&& self.h.len() >= 1
        &&& all_g1_valid(self.h@)
        &&& g1_valid(self.g1.bytes@)
        &&& g2_valid(self.g2.bytes@)
        &&& g2_valid(self.w.bytes@)
    }

    pub open spec fn num_attributes(&self) -> nat {
        (self.h.len() - 1) as nat
    }

    /// The number of attributes this key signs.
    pub fn attribute_count(&self) -> (r: usize)
        requires
            self.wf(),
        ensures
            r == self.num_attributes(),
    {
        self.h.len() - 1
    }

    pub(crate) fn commit_messages(&self, s: &Scalar, messages: &[Scalar]) -> (r: G1Point)
        requires
            self.wf(),
            messages.len() == self.num_attributes(),
        ensures
            g1_valid(r.bytes@),
            r.bytes@ == message_commitment(*self, s.value(), scalar_values(messages@)),
    {
        let mut points: Vec<G1Point> = Vec::new();
        let mut scalars: Vec<Scalar> = Vec::new();
        points.push(self.g1);
        scalars.push(scalar_from_u64(1));
        scalars.push(*s);
        let mut i: usize = 0;
        while i < self.h.len()
            invariant
                self.wf(),
                i <= self.h.len(),
                points@ == seq![self.g1] + self.h@.subrange(0, i as int),
            decreases self.h.len() - i,
        {
            points.push(self.h[i]);
            i = i + 1;
            assert(points@ =~= seq![self.g1] + self.h@.subrange(0, i as int));
        }
        let ghost prefix = scalars@;
        let mut j: usize = 0;
        while j < messages.len()
            invariant
                j <= messages.len(),
                scalars@ == prefix + messages@.subrange(0, j as int),
            decreases messages.len() - j,
        {
            scalars.push(messages[j]);
            j = j + 1;
            assert(scalars@ =~= prefix + messages@.subrange(0, j as int));
        }
        assert(points@ =~= seq![self.g1] + self.h@);
        assert(scalars@ =~= prefix + messages@);
        assert(g1_views(points@) =~= seq![self.g1.bytes@] + g1_views(self.h@));
        assert(scalar_values(scalars@) =~= seq![1nat, s.value()] + scalar_values(messages@));
        assert(all_g1_valid(points@)) by {
            assert forall|k: int| 0 <= k < points@.len() implies g1_valid(#[trigger] points@[k].bytes@) by {
                if k > 0 {
                    assert(points@[k] == self.h@[k - 1]);
                }
            }
        }
        g1_linear_combination(&points, &scalars)
    }

    /// Checks `sig` on `messages` by the pairing equation.
    pub fn verify_signature(&self, signature: &BBSPlusSignature, messages: &[Scalar]) -> (r: bool)
        requires
            self.wf(),
        ensures
            r == signature_accepts(*self, *signature, scalar_values(messages@)),
    {
        if messages.len() != self.h.len() - 1 {
            return false;
        }
        if !g1_check(&signature.a.bytes) {
            return false;
        }
        let b = self.commit_messages(&signature.s, messages);
        let w_points: Vec<G2Point> = vec![self.w, self.g2];
        let w_scalars: Vec<Scalar> = vec![scalar_from_u64(1), signature.e];
        assert(g2_views(w_points@) =~= seq![self.w.bytes@, self.g2.bytes@]);
        assert(scalar_values(w_scalars@) =~= seq![1nat, signature.e.value()]);
        let w_g2e = g2_linear_combination(&w_points, &w_scalars);
        let lhs = pairing(&signature.a, &w_g2e);
        let rhs = pairing(&b, &self.g2);
        bytes_equal(lhs.as_slice(), rhs.as_slice())
    }
}

impl BBSPlusKeypair {
    pub open spec fn wf(&self) -> bool {
        &&& self.public_key.wf()
        &&& self.public_key.w.bytes@ == g2_msm(seq![self.public_key.g2.bytes@], seq![self.secret_key.value()])
    }

    /// A fresh keypair for vectors of `num_attributes` attributes.
    pub fn generate(rng: &mut StdRng, num_attributes: usize) -> (r: Self)
        requires
            num_attributes < usize::MAX,
        ensures
            r.wf(),
            r.public_key.num_attributes() == num_attributes,
    {
        let secret_key = scalar_random(rng);
        let g1 = g1_random(rng);
        let g2 = g2_random(rng);
        let g2s: Vec<G2Point> = vec![g2];
        let xs: Vec<Scalar> = vec![secret_key];
        assert(g2_views(g2s@) =~= seq![g2.bytes@]);
        assert(scalar_values(xs@) =~= seq![secret_key.value()]);
        let w = g2_linear_combination(&g2s, &xs);
        let mut h: Vec<G1Point> = Vec::new();
        let mut i: usize = 0;
        while i <= num_attributes
            invariant
                num_attributes < usize::MAX,
                i <= num_attributes + 1,
                h.len() == i,
                all_g1_valid(h@),
            decreases num_attributes + 1 - i,
        {
            let p = g1_random(rng);
            let ghost before = h@;
            h.push(p);
            i = i + 1;
            assert(forall|k: int| 0 <= k < before.len() ==> h@[k] == before[k]);
        }
        let public_key = BBSPlusPublicKey { w, h, g1, g2 };
        BBSPlusKeypair { secret_key, public_key }
    }
}


impl BBSPlusKeypair {
    /// Signs `messages` with the blinding scalars `e` and `s`:
    /// `A = B / (e + x)`.
    pub fn sign_with(&self, e: &Scalar, s: &Scalar, messages: &[Scalar]) -> (r: Result<BBSPlusSignature, CredentialError>)
        requires
            self.wf(),
        ensures
            messages.len() != self.public_key.num_attributes() ==> r == Err::<BBSPlusSignature, CredentialError>(CredentialError::InvalidInput),
            messages.len() == self.public_key.num_attributes() && add_mod(e.value(), self.secret_key.value()) == 0
                ==> r == Err::<BBSPlusSignature, CredentialError>(CredentialError::KeyError),
            messages.len() == self.public_key.num_attributes() && add_mod(e.value(), self.secret_key.value()) != 0
                ==> (r matches Ok(sig) && sig.e == *e && sig.s == *s
                    && signed_with(self.public_key, self.secret_key.value(), sig, scalar_values(messages@))),
    {
        if messages.len() != self.public_key.h.len() - 1 {
            return Err(CredentialError::InvalidInput);
        }
        let b = self.public_key.commit_messages(s, messages);
        let sum = scalar_add(e, &self.secret_key);
        let exp = match scalar_inverse(&sum) {
            Some(y) => y,
            None => {
                return Err(CredentialError::KeyError);
            },
        };
        let bs: Vec<G1Point> = vec![b];
        let ks: Vec<Scalar> = vec![exp];
        assert(g1_views(bs@) =~= seq![b.bytes@]);
        assert(scalar_values(ks@) =~= seq![exp.value()]);
        assert(all_g1_valid(bs@));
        let a = g1_linear_combination(&bs, &ks);
        let sig = BBSPlusSignature { a, e: *e, s: *s };
        assert(is_inverse(add_mod(sig.e.value(), self.secret_key.value()), exp.value()));
        Ok(sig)
    }

    /// Signs `messages` with blinding scalars drawn from `rng`.
    pub fn sign(&self, rng: &mut StdRng, messages: &[Scalar]) -> (r: Result<BBSPlusSignature, CredentialError>)
        requires
            self.wf(),
        ensures
            messages.len() != self.public_key.num_attributes() ==> r == Err::<BBSPlusSignature, CredentialError>(CredentialError::InvalidInput),
            messages.len() == self.public_key.num_attributes() ==> r != Err::<BBSPlusSignature, CredentialError>(CredentialError::InvalidInput),
            r matches Ok(sig) ==> signed_with(self.public_key, self.secret_key.value(), sig, scalar_values(messages@)),
            r matches Err(k) ==> k == CredentialError::InvalidInput || (k == CredentialError::KeyError
                && messages.len() == self.public_key.num_attributes()),
    {
        if messages.len() != self.public_key.h.len() - 1 {
            return Err(CredentialError::InvalidInput);
        }
        let e = scalar_random(rng);
        let s = scalar_random(rng);
        self.sign_with(&e, &s, messages)
    }

    /// Checks `signature` on `messages` against this keypair's public key.
    pub fn verify(&self, signature: &BBSPlusSignature, messages: &[Scalar]) -> (r: bool)
        requires
            self.wf(),
        ensures
            r == signature_accepts(self.public_key, *signature, scalar_values(messages@)),
    {
        self.public_key.verify_signature(signature, messages)
    }
}

impl BBSPlusSignature {
    /// Randomizes this signature on `messages` with `r1` and `r2`.
    pub fn randomize_with(&self, pk: &BBSPlusPublicKey, messages: &[Scalar], r1: &Scalar, r2: &Scalar) -> (r: Result<(RandomizedSignature, RandomizationSecrets), CredentialError>)
        requires
            pk.wf(),
            messages.len() == pk.num_attributes(),
            g1_valid(self.a.bytes@),
        ensures
            has_infinity_flag(self.a.bytes@) ==> r == Err::<(RandomizedSignature, RandomizationSecrets), CredentialError>(CredentialError::InvalidInput),
            !has_infinity_flag(self.a.bytes@) && r1.value() == 0 ==> r == Err::<(RandomizedSignature, RandomizationSecrets), CredentialError>(CredentialError::KeyError),
            !has_infinity_flag(self.a.bytes@) && r1.value() != 0 ==> (r matches Ok((rs, sec))
                && randomized_from(*self, pk, scalar_values(messages@), r1.value(), r2.value(), rs, sec)),
    {
        if self.a.bytes[0] & 0x40u8 != 0u8 {
            return Err(CredentialError::InvalidInput);
        }
        let r3 = match scalar_inverse(r1) {
            Some(y) => y,
            None => {
                return Err(CredentialError::KeyError);
            },
        };
        let b = pk.commit_messages(&self.s, messages);
        let p1: Vec<G1Point> = vec![self.a];
        let k1: Vec<Scalar> = vec![*r1];
        assert(g1_views(p1@) =~= seq![self.a.bytes@]);
        assert(scalar_values(k1@) =~= seq![r1.value()]);
        assert(all_g1_valid(p1@));
        let a_prime = g1_linear_combination(&p1, &k1);
        let neg_e = scalar_neg(&self.e);
        let p2: Vec<G1Point> = vec![a_prime, b];
        let k2: Vec<Scalar> = vec![neg_e, *r1];
        assert(g1_views(p2@) =~= seq![a_prime.bytes@, b.bytes@]);
        assert(scalar_values(k2@) =~= seq![neg_mod(self.e.value()), r1.value()]);
        assert(all_g1_valid(p2@));
        let a_bar = g1_linear_combination(&p2, &k2);
        let neg_r2 = scalar_neg(r2);
        let p3: Vec<G1Point> = vec![b, pk.h[0]];
        let k3: Vec<Scalar> = vec![*r1, neg_r2];
        assert(g1_views(p3@) =~= seq![b.bytes@, pk.h@[0].bytes@]);
        assert(scalar_values(k3@) =~= seq![r1.value(), neg_mod(r2.value())]);
        assert(all_g1_valid(p3@));
        let b_prime_prime = g1_linear_combination(&p3, &k3);
        let r2r3 = scalar_mul(r2, &r3);
        let s_prime = scalar_add(&self.s, &scalar_neg(&r2r3));
        let rs = RandomizedSignature { a_prime, a_bar, b_prime_prime };
        let sec = RandomizationSecrets { e: self.e, r2: *r2, r3, s_prime };
        Ok((rs, sec))
    }

    /// Randomizes this signature on `messages` with fresh scalars drawn from `rng`.
    pub fn randomize(&self, rng: &mut StdRng, pk: &BBSPlusPublicKey, messages: &[Scalar]) -> (r: Result<(RandomizedSignature, RandomizationSecrets), CredentialError>)
        requires
            pk.wf(),
            messages.len() == pk.num_attributes(),
            g1_valid(self.a.bytes@),
        ensures
            has_infinity_flag(self.a.bytes@) ==> r == Err::<(RandomizedSignature, RandomizationSecrets), CredentialError>(CredentialError::InvalidInput),
            r matches Ok((rs, sec)) ==> exists|r1: nat, r2: nat| r1 != 0 && #[trigger] randomized_from(*self, pk, scalar_values(messages@), r1, r2, rs, sec),
            r matches Err(k) ==> k == CredentialError::InvalidInput && has_infinity_flag(self.a.bytes@) || k == CredentialError::KeyError,
    {
        let r1 = scalar_random(rng);
        let r2 = scalar_random(rng);
        self.randomize_with(pk, messages, &r1, &r2)
    }
}

/// `rs` and `sec` are the randomization of `sig` on `messages` by `r1`, `r2`.
pub open spec fn randomized_from(
    sig: BBSPlusSignature,
    pk: &BBSPlusPublicKey,
    messages: Seq<nat>,
    r1: nat,
    r2: nat,
    rs: RandomizedSignature,
    sec: RandomizationSecrets,
) -> bool {
    let b = message_commitment(*pk, sig.s.value(), messages);
    &&& rs.a_prime.bytes@ == g1_msm(seq![sig.a.bytes@], seq![r1])
    &&& rs.a_bar.bytes@ == g1_msm(seq![rs.a_prime.bytes@, b], seq![neg_mod(sig.e.value()), r1])
    &&& rs.b_prime_prime.bytes@ == g1_msm(seq![b, pk.h@[0].bytes@], seq![r1, neg_mod(r2)])
    &&& g1_valid(rs.a_prime.bytes@) && g1_valid(rs.a_bar.bytes@) && g1_valid(rs.b_prime_prime.bytes@)
    &&& sec.e == sig.e
    &&& sec.r2.value() == r2 % crate::algebra::scalar_modulus()
    &&& is_inverse(r1, sec.r3.value())
    &&& sec.s_prime.value() == add_mod(sig.s.value(), neg_mod(mul_mod(r2, sec.r3.value())))
}

} // verus!
