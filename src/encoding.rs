use vstd::prelude::*;

verus! {

pub open spec fn pow256(k: nat) -> nat
    decreases k,
{
    if k == 0 {
        1
    } else {
        256 * pow256((k - 1) as nat)
    }
}

/// The `k` low-order bytes of `v`, least significant first.
pub open spec fn le_seq(v: nat, k: nat) -> Seq<u8>
    decreases k,
{
    if k == 0 {
        Seq::empty()
    } else {
        seq![(v % 256) as u8] + le_seq(v / 256, (k - 1) as nat)
    }
}

pub proof fn lemma_le_seq_len(v: nat, k: nat)
    ensures
        le_seq(v, k).len() == k,
    decreases k,
{
    if k > 0 {
        lemma_le_seq_len(v / 256, (k - 1) as nat);
    }
}

/// Reading back the `k` bytes of a value below `256^k` gives the value.
pub proof fn lemma_le_seq_round_trip(v: nat, k: nat)
    requires
        v < pow256(k),
    ensures
        crate::algebra::le_nat(le_seq(v, k)) == v,
    decreases k,
{
    if k > 0 {
        let p = pow256((k - 1) as nat);
        assert(v / 256 < p) by (nonlinear_arith)
            requires
                v < 256 * p,
        ;
        lemma_le_seq_round_trip(v / 256, (k - 1) as nat);
        let s = le_seq(v, k);
        assert(s.subrange(1, s.len() as int) =~= le_seq(v / 256, (k - 1) as nat));
        assert(v == v % 256 + 256 * (v / 256)) by (nonlinear_arith);
    }
}

/// Two values below `256^k` with the same `k` bytes are equal.
pub proof fn lemma_le_seq_injective(a: nat, b: nat, k: nat)
    requires
        a < pow256(k),
        b < pow256(k),
        le_seq(a, k) == le_seq(b, k),
    ensures
        a == b,
{
    lemma_le_seq_round_trip(a, k);
    lemma_le_seq_round_trip(b, k);
}

pub proof fn lemma_pow256_bounds()
    ensures
        pow256(4) == 0x1_0000_0000,
        pow256(8) == 0x1_0000_0000_0000_0000,
{
    reveal_with_fuel(pow256, 9);
}

/// The little-endian bytes of `v`.
pub fn u64_le_bytes(v: u64) -> (r: Vec<u8>)
    ensures
        r@ == le_seq(v as nat, 8),
{
    let mut out: Vec<u8> = Vec::new();
    let mut x: u64 = v;
    let mut i: usize = 0;
    while i < 8
        invariant
            i <= 8,
            out@ + le_seq(x as nat, (8 - i) as nat) == le_seq(v as nat, 8),
        decreases 8 - i,
    {
        let ghost rest = le_seq(x as nat / 256, (8 - i - 1) as nat);
        assert(le_seq(x as nat, (8 - i) as nat) == seq![(x as nat % 256) as u8] + rest);
        out.push((x % 256) as u8);
        x = x / 256;
        i = i + 1;
        assert(out@ + rest =~= le_seq(v as nat, 8));
    }
    assert(out@ + le_seq(x as nat, 0) =~= out@);
    out
}

/// The little-endian bytes of `v`.
pub fn u32_le_bytes(v: u32) -> (r: Vec<u8>)
    ensures
        r@ == le_seq(v as nat, 4),
{
    let mut out: Vec<u8> = Vec::new();
    let mut x: u32 = v;
    let mut i: usize = 0;
    while i < 4
        invariant
            i <= 4,
            out@ + le_seq(x as nat, (4 - i) as nat) == le_seq(v as nat, 4),
        decreases 4 - i,
    {
        let ghost rest = le_seq(x as nat / 256, (4 - i - 1) as nat);
        assert(le_seq(x as nat, (4 - i) as nat) == seq![(x as nat % 256) as u8] + rest);
        out.push((x % 256) as u8);
        x = x / 256;
        i = i + 1;
        assert(out@ + rest =~= le_seq(v as nat, 4));
    }
    assert(out@ + le_seq(x as nat, 0) =~= out@);
    out
}

/// Appends `b` to `out`.
pub fn push_bytes(out: &mut Vec<u8>, b: &[u8])
    ensures
        final(out)@ == old(out)@ + b@,
{
    let mut i: usize = 0;
    while i < b.len()
        invariant
            i <= b.len(),
            out@ == old(out)@ + b@.subrange(0, i as int),
        decreases b.len() - i,
    {
        out.push(b[i]);
        i = i + 1;
        assert(out@ =~= old(out)@ + b@.subrange(0, i as int));
    }
    assert(b@.subrange(0, b.len() as int) =~= b@);
}

/// Whether two byte strings are equal.
pub fn bytes_equal(a: &[u8], b: &[u8]) -> (r: bool)
    ensures
        r == (a@ == b@),
{
    if a.len() != b.len() {
        return false;
    }
    let mut i: usize = 0;
    while i < a.len()
        invariant
            i <= a.len(),
            a.len() == b.len(),
            forall|j: int| 0 <= j < i ==> a@[j] == b@[j],
        decreases a.len() - i,
    {
        if a[i] != b[i] {
            return false;
        }
        i = i + 1;
    }
    assert(a@ =~= b@);
    true
}

/// Writing out the value of a byte string, in as many bytes, gives the string back.
pub proof fn lemma_le_seq_of_le_nat(w: Seq<u8>)
    ensures
        le_seq(crate::algebra::le_nat(w), w.len()) == w,
    decreases w.len(),
{
    if w.len() > 0 {
        let t = w.subrange(1, w.len() as int);
        lemma_le_seq_of_le_nat(t);
        let v = crate::algebra::le_nat(w);
        assert(v == w[0] as nat + 256 * crate::algebra::le_nat(t));
        assert(v % 256 == w[0] as nat && v / 256 == crate::algebra::le_nat(t)) by (nonlinear_arith)
            requires
                v == w[0] as nat + 256 * crate::algebra::le_nat(t),
                w[0] < 256,
        ;
        assert(le_seq(v, w.len()) =~= w);
    }
}

/// The scalar field's order is below `2^256`.
pub proof fn lemma_modulus_fits_32_bytes()
    ensures
        crate::algebra::scalar_modulus() < pow256(32),
{
    reveal_with_fuel(pow256, 33);
    assert(pow256(32) == 0x1_0000_0000_0000_0000_0000_0000_0000_0000_0000_0000_0000_0000_0000_0000_0000_0000nat);
}

} // verus!
