use vstd::prelude::*;

use crate::algebra::{le_nat, G1Point, Scalar};
use crate::bbs_plus::RandomizedSignature;
use crate::encoding::{
    le_seq, lemma_le_seq_len, lemma_le_seq_of_le_nat, lemma_le_seq_round_trip, lemma_pow256_bounds, pow256, push_bytes,
    u64_le_bytes,
};
use crate::zkp::{disclosed_encoding, push_disclosed, VerifiablePresentation, ZKProof};

verus! {

/// Each scalar's 32 bytes, in order.
pub open spec fn scalars_encoding(s: Seq<Scalar>) -> Seq<u8>
    decreases s.len(),
{
    if s.len() == 0 {
        Seq::empty()
    } else {
        scalars_encoding(s.drop_last()) + s.last().bytes@
    }
}

pub open spec fn proof_encoding(p: ZKProof) -> Seq<u8> {
    p.commitment@ + p.e_response.bytes@ + p.r2_response.bytes@ + p.r3_response.bytes@ + p.s_response.bytes@
        + le_seq(p.response.len() as nat, 8) + scalars_encoding(p.response@)
}

/// The wire form of a presentation: the randomized signature's three points,
/// the nullifier, the proof (its commitment, four responses, then the count
/// and the list of the hidden attributes' responses) and the count and the
/// list of disclosed pairs. Counts and indices take 8 bytes, little-endian.
pub open spec fn presentation_encoding(p: VerifiablePresentation) -> Seq<u8> {
    p.randomized_signature.a_prime.bytes@ + p.randomized_signature.a_bar.bytes@
        + p.randomized_signature.b_prime_prime.bytes@ + p.nullifier@ + proof_encoding(p.proof)
        + le_seq(p.disclosed_attributes.len() as nat, 8) + disclosed_encoding(p.disclosed_attributes@)
}

/// Two presentations are equal field by field.
pub open spec fn same_presentation(p: VerifiablePresentation, q: VerifiablePresentation) -> bool {
    &&& p.randomized_signature == q.randomized_signature
    &&& p.nullifier == q.nullifier
    &&& p.proof.commitment == q.proof.commitment
    &&& p.proof.e_response == q.proof.e_response
    &&& p.proof.r2_response == q.proof.r2_response
    &&& p.proof.r3_response == q.proof.r3_response
    &&& p.proof.s_response == q.proof.s_response
    &&& p.proof.response@ == q.proof.response@
    &&& p.disclosed_attributes@ == q.disclosed_attributes@
}

pub proof fn lemma_le_nat_bound(s: Seq<u8>)
    ensures
        le_nat(s) < pow256(s.len()),
    decreases s.len(),
{
    if s.len() > 0 {
        let t = s.subrange(1, s.len() as int);
        lemma_le_nat_bound(t);
        let p = pow256(t.len());
        assert(s[0] as nat + 256 * le_nat(t) < 256 * p) by (nonlinear_arith)
            requires
                le_nat(t) < p,
                s[0] < 256,
        ;
    }
}

pub proof fn lemma_scalars_encoding_len(s: Seq<Scalar>)
    ensures
        scalars_encoding(s).len() == 32 * s.len(),
    decreases s.len(),
{
    if s.len() > 0 {
        lemma_scalars_encoding_len(s.drop_last());
    }
}

pub proof fn lemma_disclosed_encoding_len(s: Seq<(usize, Scalar)>)
    ensures
        disclosed_encoding(s).len() == 40 * s.len(),
    decreases s.len(),
{
    if s.len() > 0 {
        lemma_disclosed_encoding_len(s.drop_last());
        lemma_le_seq_len(s.last().0 as nat, 8);
    }
}

/// The encoding of a presentation.
pub fn serialize_presentation(p: &VerifiablePresentation) -> (r: Vec<u8>)
    ensures
        r@ == presentation_encoding(*p),
{
    let mut out: Vec<u8> = Vec::new();
    push_bytes(&mut out, &p.randomized_signature.a_prime.bytes);
    push_bytes(&mut out, &p.randomized_signature.a_bar.bytes);
    push_bytes(&mut out, &p.randomized_signature.b_prime_prime.bytes);
    push_bytes(&mut out, &p.nullifier);
    push_bytes(&mut out, &p.proof.commitment);
    push_bytes(&mut out, &p.proof.e_response.bytes);
    push_bytes(&mut out, &p.proof.r2_response.bytes);
    push_bytes(&mut out, &p.proof.r3_response.bytes);
    push_bytes(&mut out, &p.proof.s_response.bytes);
    let rl = u64_le_bytes(p.proof.response.len() as u64);
    push_bytes(&mut out, rl.as_slice());
    let ghost before = out@;
    let mut k: usize = 0;
    while k < p.proof.response.len()
        invariant
            k <= p.proof.response.len(),
            out@ == before + scalars_encoding(p.proof.response@.subrange(0, k as int)),
        decreases p.proof.response.len() - k,
    {
        push_bytes(&mut out, &p.proof.response[k].bytes);
        k = k + 1;
        let ghost sub = p.proof.response@.subrange(0, k as int);
        assert(sub.drop_last() =~= p.proof.response@.subrange(0, k - 1));
        assert(out@ =~= before + scalars_encoding(sub));
    }
    assert(p.proof.response@.subrange(0, k as int) =~= p.proof.response@);
    let dl = u64_le_bytes(p.disclosed_attributes.len() as u64);
    push_bytes(&mut out, dl.as_slice());
    push_disclosed(&mut out, p.disclosed_attributes.as_slice());
    assert(out@ =~= presentation_encoding(*p));
    out
}

/// The `N` bytes of `b` from `pos`.
fn read_array<const N: usize>(b: &[u8], pos: usize) -> (r: [u8; N])
    requires
        pos + N <= b.len(),
    ensures
        r@ == b@.subrange(pos as int, pos + N),
{
    let mut a: [u8; N] = [0u8; N];
    let mut k: usize = 0;
    while k < N
        invariant
            k <= N,
            pos + N <= b.len(),
            a@.len() == N,
            forall|j: int| 0 <= j < k ==> a@[j] == b@[pos + j],
        decreases N - k,
    {
        a[k] = b[pos + k];
        k = k + 1;
    }
    assert(a@ =~= b@.subrange(pos as int, pos + N));
    a
}

/// The integer that the 8 bytes of `b` from `pos` stand for, little-endian.
fn read_u64(b: &[u8], pos: usize) -> (r: u64)
    requires
        pos + 8 <= b.len(),
    ensures
        r as nat == le_nat(b@.subrange(pos as int, pos + 8)),
{
    let ghost s = b@.subrange(pos as int, pos + 8);
    let mut v: u64 = 0;
    let mut k: usize = 8;
    proof {
        lemma_pow256_bounds();
    }
    while k > 0
        invariant
            k <= 8,
            pos + 8 <= b.len(),
            s == b@.subrange(pos as int, pos + 8),
            v as nat == le_nat(s.subrange(k as int, 8)),
            pow256(8) == 0x1_0000_0000_0000_0000,
        decreases k,
    {
        let ghost t = s.subrange(k - 1, 8);
        assert(t.subrange(1, t.len() as int) =~= s.subrange(k as int, 8));
        proof {
            lemma_le_nat_bound(t);
            assert(t.len() <= 8);
            lemma_pow256_monotone(t.len(), 8);
        }
        assert(le_nat(t) == t[0] as nat + 256 * (v as nat));
        v = (b[pos + k - 1] as u64) + 256 * v;
        k = k - 1;
    }
    assert(s.subrange(0, 8) =~= s);
    v
}

pub proof fn lemma_pow256_monotone(a: nat, b: nat)
    requires
        a <= b,
    ensures
        pow256(a) <= pow256(b),
    decreases b,
{
    if a < b {
        lemma_pow256_monotone(a, (b - 1) as nat);
    }
}


pub proof fn lemma_disclosed_item(s: Seq<(usize, Scalar)>, k: int)
    requires
        0 <= k < s.len(),
    ensures
        disclosed_encoding(s).len() == 40 * s.len(),
        disclosed_encoding(s).subrange(40 * k, 40 * k + 40) == le_seq(s[k].0 as nat, 8) + s[k].1.bytes@,
    decreases s.len(),
{
    lemma_disclosed_encoding_len(s);
    lemma_disclosed_encoding_len(s.drop_last());
    lemma_le_seq_len(s.last().0 as nat, 8);
    let e = disclosed_encoding(s);
    let d = disclosed_encoding(s.drop_last());
    if k == s.len() - 1 {
        assert(e.subrange(40 * k, 40 * k + 40) =~= le_seq(s[k].0 as nat, 8) + s[k].1.bytes@);
    } else {
        lemma_disclosed_item(s.drop_last(), k);
        assert(e.subrange(40 * k, 40 * k + 40) =~= d.subrange(40 * k, 40 * k + 40));
    }
}

/// Where the counts sit in an encoding, and how long it is.
pub proof fn lemma_encoding_shape(p: VerifiablePresentation)
    ensures
        ({
            let e = presentation_encoding(p);
            let r = p.proof.response.len() as int;
            let d = p.disclosed_attributes.len() as int;
            &&& e.len() == 352 + 32 * r + 40 * d
            &&& le_nat(e.subrange(336, 344)) == r
            &&& le_nat(e.subrange(344 + 32 * r, 352 + 32 * r)) == d
            &&& e.subrange(352 + 32 * r, e.len() as int) == disclosed_encoding(p.disclosed_attributes@)
        }),
{
    let e = presentation_encoding(p);
    let r = p.proof.response.len() as int;
    let d = p.disclosed_attributes.len() as int;
    lemma_le_seq_len(r as nat, 8);
    lemma_le_seq_len(d as nat, 8);
    lemma_scalars_encoding_len(p.proof.response@);
    lemma_disclosed_encoding_len(p.disclosed_attributes@);
    lemma_pow256_bounds();
    lemma_le_seq_round_trip(r as nat, 8);
    lemma_le_seq_round_trip(d as nat, 8);
    assert(e.subrange(336, 344) =~= le_seq(r as nat, 8));
    assert(e.subrange(344 + 32 * r, 352 + 32 * r) =~= le_seq(d as nat, 8));
    assert(e.subrange(352 + 32 * r, e.len() as int) =~= disclosed_encoding(p.disclosed_attributes@));
}

/// The presentation that `b` encodes, if it encodes one.
pub fn deserialize_presentation(b: &[u8]) -> (r: Option<VerifiablePresentation>)
    ensures
        r matches Some(p) ==> presentation_encoding(p) == b@,
        forall|p: VerifiablePresentation| presentation_encoding(p) == b@ ==> r is Some,
{
    if b.len() < 344 {
        proof {
            assert forall|p: VerifiablePresentation| presentation_encoding(p) != b@ by {
                lemma_encoding_shape(p);
            }
        }
        return None;
    }
    let a_prime = G1Point { bytes: read_array::<48>(b, 0) };
    let a_bar = G1Point { bytes: read_array::<48>(b, 48) };
    let b_prime_prime = G1Point { bytes: read_array::<48>(b, 96) };
    let nullifier = read_array::<32>(b, 144);
    let commitment = read_array::<32>(b, 176);
    let e_response = Scalar { bytes: read_array::<32>(b, 208) };
    let r2_response = Scalar { bytes: read_array::<32>(b, 240) };
    let r3_response = Scalar { bytes: read_array::<32>(b, 272) };
    let s_response = Scalar { bytes: read_array::<32>(b, 304) };
    let count = read_u64(b, 336);
    let rest: usize = b.len() - 344;
    if count > (rest / 32) as u64 {
        proof {
            assert forall|p: VerifiablePresentation| presentation_encoding(p) != b@ by {
                lemma_encoding_shape(p);
                if presentation_encoding(p) == b@ {
                    assert(b@.subrange(336, 344) == presentation_encoding(p).subrange(336, 344));
                    let r = p.proof.response.len() as int;
                    assert(32 * r <= rest);
                    assert(r <= rest / 32) by (nonlinear_arith)
                        requires
                            32 * r <= rest,
                            r >= 0,
                    ;
                }
            }
        }
        return None;
    }
    let count_us: usize = count as usize;
    assert(32 * count_us <= rest) by (nonlinear_arith)
        requires
            count_us <= rest / 32,
    ;
    let mut response: Vec<Scalar> = Vec::new();
    let mut k: usize = 0;
    while k < count_us
        invariant
            k <= count_us,
            32 * count_us <= rest,
            rest == b.len() - 344,
            response.len() == k,
            scalars_encoding(response@) == b@.subrange(344, 344 + 32 * k),
        decreases count_us - k,
    {
        let x = Scalar { bytes: read_array::<32>(b, 344 + 32 * k) };
        let ghost before = response@;
        response.push(x);
        assert(response@.drop_last() =~= before);
        k = k + 1;
        assert(scalars_encoding(response@) =~= b@.subrange(344, 344 + 32 * k));
    }
    let pos: usize = 344 + 32 * count_us;
    if b.len() - pos < 8 {
        proof {
            assert forall|p: VerifiablePresentation| presentation_encoding(p) != b@ by {
                lemma_encoding_shape(p);
                if presentation_encoding(p) == b@ {
                    assert(b@.subrange(336, 344) == presentation_encoding(p).subrange(336, 344));
                }
            }
        }
        return None;
    }
    let dcount = read_u64(b, pos);
    let tail: usize = b.len() - pos - 8;
    if tail % 40 != 0 || (tail / 40) as u64 != dcount {
        proof {
            assert forall|p: VerifiablePresentation| presentation_encoding(p) != b@ by {
                lemma_encoding_shape(p);
                if presentation_encoding(p) == b@ {
                    assert(b@.subrange(336, 344) == presentation_encoding(p).subrange(336, 344));
                    let r = p.proof.response.len() as int;
                    assert(r == count_us);
                    assert(b@.subrange(pos as int, pos + 8) == presentation_encoding(p).subrange(344 + 32 * r, 352 + 32 * r));
                    let d = p.disclosed_attributes.len() as int;
                    assert(tail == 40 * d);
                    assert(tail % 40 == 0 && tail / 40 == d) by (nonlinear_arith)
                        requires
                            tail == 40 * d,
                            d >= 0,
                    ;
                }
            }
        }
        return None;
    }
    let dcount_us: usize = tail / 40;
    assert(40 * dcount_us == tail) by (nonlinear_arith)
        requires
            tail % 40 == 0,
            dcount_us == tail / 40,
    ;
    let start: usize = pos + 8;
    proof {
        assert forall|p: VerifiablePresentation| presentation_encoding(p) == b@ implies {
            &&& p.disclosed_attributes.len() == dcount_us
            &&& disclosed_encoding(p.disclosed_attributes@) == b@.subrange(start as int, b.len() as int)
        } by {
            lemma_encoding_shape(p);
            assert(b@.subrange(336, 344) == presentation_encoding(p).subrange(336, 344));
            let r = p.proof.response.len() as int;
            assert(r == count_us);
            assert(b@.subrange(pos as int, pos + 8) == presentation_encoding(p).subrange(344 + 32 * r, 352 + 32 * r));
        }
    }
    let mut disclosed: Vec<(usize, Scalar)> = Vec::new();
    let mut k: usize = 0;
    while k < dcount_us
        invariant
            k <= dcount_us,
            start + 40 * dcount_us == b.len(),
            start == pos + 8,
            dcount_us == dcount,
            disclosed.len() == k,
            disclosed_encoding(disclosed@) == b@.subrange(start as int, start + 40 * k),
            forall|p: VerifiablePresentation| presentation_encoding(p) == b@ ==> {
                &&& p.disclosed_attributes.len() == dcount_us
                &&& disclosed_encoding(p.disclosed_attributes@) == b@.subrange(start as int, b.len() as int)
            },
        decreases dcount_us - k,
    {
        let at: usize = start + 40 * k;
        let v = read_u64(b, at);
        if v > usize::MAX as u64 {
            proof {
                assert forall|p: VerifiablePresentation| presentation_encoding(p) != b@ by {
                    if presentation_encoding(p) == b@ {
                        let s = p.disclosed_attributes@;
                        lemma_disclosed_item(s, k as int);
                        let full = b@.subrange(start as int, b.len() as int);
                        assert(full.subrange(40 * k, 40 * k + 40) =~= b@.subrange(at as int, at + 40));
                        assert(b@.subrange(at as int, at + 8) =~= le_seq(s[k as int].0 as nat, 8));
                        lemma_pow256_bounds();
                        lemma_le_seq_round_trip(s[k as int].0 as nat, 8);
                    }
                }
            }
            return None;
        }
        let x = Scalar { bytes: read_array::<32>(b, at + 8) };
        let ghost before = disclosed@;
        disclosed.push((v as usize, x));
        assert(disclosed@.drop_last() =~= before);
        proof {
            lemma_pow256_bounds();
            lemma_le_nat_bound(b@.subrange(at as int, at + 8));
            lemma_le_seq_round_trip(v as nat, 8);
            let w = b@.subrange(at as int, at + 8);
            assert(le_seq(le_nat(w), 8) == w) by {
                lemma_le_seq_of_le_nat(w);
            }
        }
        k = k + 1;
        assert(disclosed_encoding(disclosed@) =~= b@.subrange(start as int, start + 40 * k));
    }
    let randomized_signature = RandomizedSignature { a_prime, a_bar, b_prime_prime };
    let proof = ZKProof { commitment, e_response, r2_response, r3_response, s_response, response };
    let p = VerifiablePresentation { randomized_signature, nullifier, proof, disclosed_attributes: disclosed };
    proof {
        lemma_pow256_bounds();
        lemma_le_seq_round_trip(count_us as nat, 8);
        lemma_le_nat_bound(b@.subrange(336, 344));
        lemma_le_seq_of_le_nat(b@.subrange(336, 344));
        lemma_le_nat_bound(b@.subrange(pos as int, pos + 8));
        lemma_le_seq_of_le_nat(b@.subrange(pos as int, pos + 8));
        assert(presentation_encoding(p) =~= b@);
    }
    Some(p)
}

pub proof fn lemma_scalars_encoding_injective(s: Seq<Scalar>, t: Seq<Scalar>)
    requires
        s.len() == t.len(),
        scalars_encoding(s) == scalars_encoding(t),
    ensures
        s == t,
    decreases s.len(),
{
    if s.len() > 0 {
        lemma_scalars_encoding_len(s.drop_last());
        lemma_scalars_encoding_len(t.drop_last());
        let n = scalars_encoding(s).len() as int;
        let m = 32 * (s.len() - 1);
        assert(scalars_encoding(s).subrange(0, m) =~= scalars_encoding(s.drop_last()));
        assert(scalars_encoding(t).subrange(0, m) =~= scalars_encoding(t.drop_last()));
        lemma_scalars_encoding_injective(s.drop_last(), t.drop_last());
        assert(scalars_encoding(s).subrange(m, n) =~= s.last().bytes@);
        assert(scalars_encoding(t).subrange(m, n) =~= t.last().bytes@);
        assert(s.last().bytes =~= t.last().bytes);
        assert(s =~= t.drop_last().push(t.last()));
        assert(t =~= t.drop_last().push(t.last()));
    }
}

pub proof fn lemma_disclosed_encoding_injective(s: Seq<(usize, Scalar)>, t: Seq<(usize, Scalar)>)
    requires
        s.len() == t.len(),
        disclosed_encoding(s) == disclosed_encoding(t),
    ensures
        s == t,
    decreases s.len(),
{
    if s.len() > 0 {
        lemma_disclosed_encoding_len(s.drop_last());
        lemma_disclosed_encoding_len(t.drop_last());
        lemma_le_seq_len(s.last().0 as nat, 8);
        lemma_le_seq_len(t.last().0 as nat, 8);
        let es = disclosed_encoding(s);
        let et = disclosed_encoding(t);
        let m = 40 * (s.len() - 1);
        assert(es.subrange(0, m) =~= disclosed_encoding(s.drop_last()));
        assert(et.subrange(0, m) =~= disclosed_encoding(t.drop_last()));
        lemma_disclosed_encoding_injective(s.drop_last(), t.drop_last());
        assert(es.subrange(m, m + 8) =~= le_seq(s.last().0 as nat, 8));
        assert(et.subrange(m, m + 8) =~= le_seq(t.last().0 as nat, 8));
        lemma_pow256_bounds();
        lemma_le_seq_round_trip(s.last().0 as nat, 8);
        lemma_le_seq_round_trip(t.last().0 as nat, 8);
        assert(es.subrange(m + 8, m + 40) =~= s.last().1.bytes@);
        assert(et.subrange(m + 8, m + 40) =~= t.last().1.bytes@);
        assert(s.last().1.bytes =~= t.last().1.bytes);
        assert(s =~= t.drop_last().push(t.last()));
        assert(t =~= t.drop_last().push(t.last()));
    }
}

/// The fixed-size head of an encoding: three points, the nullifier, the
/// commitment and four responses.
pub open spec fn fixed_part(p: VerifiablePresentation) -> Seq<u8> {
    p.randomized_signature.a_prime.bytes@ + p.randomized_signature.a_bar.bytes@
        + p.randomized_signature.b_prime_prime.bytes@ + p.nullifier@ + p.proof.commitment@
        + p.proof.e_response.bytes@ + p.proof.r2_response.bytes@ + p.proof.r3_response.bytes@
        + p.proof.s_response.bytes@
}

pub proof fn lemma_fixed_part_injective(p: VerifiablePresentation, q: VerifiablePresentation)
    requires
        fixed_part(p) == fixed_part(q),
    ensures
        p.randomized_signature == q.randomized_signature,
        p.nullifier == q.nullifier,
        p.proof.commitment == q.proof.commitment,
        p.proof.e_response == q.proof.e_response,
        p.proof.r2_response == q.proof.r2_response,
        p.proof.r3_response == q.proof.r3_response,
        p.proof.s_response == q.proof.s_response,
{
    let e = fixed_part(p);
    let f = fixed_part(q);
    let pr = p.randomized_signature;
    let qr = q.randomized_signature;
    assert(pr.a_prime.bytes@ =~= e.subrange(0, 48) && qr.a_prime.bytes@ =~= f.subrange(0, 48));
    assert(pr.a_bar.bytes@ =~= e.subrange(48, 96) && qr.a_bar.bytes@ =~= f.subrange(48, 96));
    assert(pr.b_prime_prime.bytes@ =~= e.subrange(96, 144) && qr.b_prime_prime.bytes@ =~= f.subrange(96, 144));
    assert(p.nullifier@ =~= e.subrange(144, 176) && q.nullifier@ =~= f.subrange(144, 176));
    assert(p.proof.commitment@ =~= e.subrange(176, 208) && q.proof.commitment@ =~= f.subrange(176, 208));
    assert(p.proof.e_response.bytes@ =~= e.subrange(208, 240) && q.proof.e_response.bytes@ =~= f.subrange(208, 240));
    assert(p.proof.r2_response.bytes@ =~= e.subrange(240, 272) && q.proof.r2_response.bytes@ =~= f.subrange(240, 272));
    assert(p.proof.r3_response.bytes@ =~= e.subrange(272, 304) && q.proof.r3_response.bytes@ =~= f.subrange(272, 304));
    assert(p.proof.s_response.bytes@ =~= e.subrange(304, 336) && q.proof.s_response.bytes@ =~= f.subrange(304, 336));
    assert(pr.a_prime.bytes =~= qr.a_prime.bytes);
    assert(pr.a_bar.bytes =~= qr.a_bar.bytes);
    assert(pr.b_prime_prime.bytes =~= qr.b_prime_prime.bytes);
    assert(p.nullifier =~= q.nullifier);
    assert(p.proof.commitment =~= q.proof.commitment);
    assert(p.proof.e_response.bytes =~= q.proof.e_response.bytes);
    assert(p.proof.r2_response.bytes =~= q.proof.r2_response.bytes);
    assert(p.proof.r3_response.bytes =~= q.proof.r3_response.bytes);
    assert(p.proof.s_response.bytes =~= q.proof.s_response.bytes);
}

pub proof fn lemma_encoding_parts(p: VerifiablePresentation)
    ensures
        presentation_encoding(p) == fixed_part(p) + le_seq(p.proof.response.len() as nat, 8) + scalars_encoding(
            p.proof.response@,
        ) + le_seq(p.disclosed_attributes.len() as nat, 8) + disclosed_encoding(p.disclosed_attributes@),
        fixed_part(p).len() == 336,
        scalars_encoding(p.proof.response@).len() == 32 * p.proof.response.len(),
        le_seq(p.proof.response.len() as nat, 8).len() == 8,
{
    lemma_scalars_encoding_len(p.proof.response@);
    lemma_le_seq_len(p.proof.response.len() as nat, 8);
    assert(presentation_encoding(p) =~= fixed_part(p) + le_seq(p.proof.response.len() as nat, 8)
        + scalars_encoding(p.proof.response@) + le_seq(p.disclosed_attributes.len() as nat, 8)
        + disclosed_encoding(p.disclosed_attributes@));
}

/// Serialization round trip. `serialize_presentation(p)` returns
/// `presentation_encoding(p)`, and `deserialize_presentation` returns `Some(q)`
/// on those bytes with `presentation_encoding(q)` equal to them. This law
/// closes the circle: any such `q` equals `p` field by field.
pub proof fn lemma_presentation_round_trip(p: VerifiablePresentation, q: VerifiablePresentation)
    requires
        presentation_encoding(q) == presentation_encoding(p),
    ensures
        same_presentation(p, q),
{
    let e = presentation_encoding(p);
    lemma_encoding_shape(p);
    lemma_encoding_shape(q);
    lemma_encoding_parts(p);
    lemma_encoding_parts(q);
    let r = p.proof.response.len() as int;
    assert(q.proof.response.len() == r);
    assert(e.subrange(344 + 32 * r, 352 + 32 * r) == presentation_encoding(q).subrange(344 + 32 * r, 352 + 32 * r));
    assert(e.subrange(0, 336) =~= fixed_part(p));
    assert(presentation_encoding(q).subrange(0, 336) =~= fixed_part(q));
    lemma_fixed_part_injective(p, q);
    assert(e.subrange(344, 344 + 32 * r) =~= scalars_encoding(p.proof.response@));
    assert(presentation_encoding(q).subrange(344, 344 + 32 * r) =~= scalars_encoding(q.proof.response@));
    lemma_scalars_encoding_injective(p.proof.response@, q.proof.response@);
    lemma_disclosed_encoding_injective(p.disclosed_attributes@, q.disclosed_attributes@);
}

} // verus!
