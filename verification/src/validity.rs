//! The curve's canonical validity rule for candidate secret keys: a 32-byte
//! big-endian value is a valid private key exactly when it is nonzero and
//! strictly less than the curve group order.
//!
//! The rule is implemented and proved here over the numeric value of the
//! bytes, and cross-checked at run time against the native library's own
//! accept/reject decision.

use vstd::arithmetic::power::pow;
use vstd::prelude::*;

verus! {

/// The numeric value of a big-endian byte sequence.
pub open spec fn be_nat(b: Seq<u8>) -> nat
    decreases b.len(),
{
    if b.len() == 0 {
        0
    } else {
        be_nat(b.drop_last()) * 256 + b.last() as nat
    }
}

/// The curve group order as 32 big-endian bytes.
pub open spec fn curve_order_bytes() -> Seq<u8> {
    seq![
        0xffu8,
        0xff,
        0xff,
        0xff,
        0xff,
        0xff,
        0xff,
        0xff,
        0xff,
        0xff,
        0xff,
        0xff,
        0xff,
        0xff,
        0xff,
        0xfe,
        0xba,
        0xae,
        0xdc,
        0xe6,
        0xaf,
        0x48,
        0xa0,
        0x3b,
        0xbf,
        0xd2,
        0x5e,
        0x8c,
        0xd0,
        0x36,
        0x41,
        0x41,
    ]
}

/// The canonical validity rule: 32 bytes, nonzero, strictly below the order.
pub open spec fn is_valid_secret(b: Seq<u8>) -> bool {
    b.len() == 32 && 0 < be_nat(b) < be_nat(curve_order_bytes())
}

proof fn lemma_be_nat_all_zero(b: Seq<u8>)
    ensures
        (be_nat(b) == 0) <==> (forall|i: int| 0 <= i < b.len() ==> b[i] == 0),
    decreases b.len(),
{
    if b.len() > 0 {
        lemma_be_nat_all_zero(b.drop_last());
        if be_nat(b) == 0 {
            assert(forall|i: int| 0 <= i < b.len() - 1 ==> b.drop_last()[i] == b[i]);
        } else {
            if forall|i: int| 0 <= i < b.len() ==> b[i] == 0 {
                assert(forall|i: int|
                    0 <= i < b.len() - 1 ==> #[trigger] b.drop_last()[i] == b[i]);
                assert(be_nat(b.drop_last()) == 0);
                assert(b.last() == 0);
            }
        }
    }
}

proof fn lemma_be_nat_bound(b: Seq<u8>)
    ensures
        be_nat(b) < pow(256, b.len()),
    decreases b.len(),
{
    reveal(pow);
    if b.len() == 0 {
    } else {
        let dl = b.drop_last();
        lemma_be_nat_bound(dl);
        let p = pow(256, dl.len());
        assert(pow(256, b.len()) == 256 * p);
        assert(be_nat(dl) * 256 + b.last() < 256 * p) by (nonlinear_arith)
            requires
                be_nat(dl) < p,
                b.last() < 256,
        ;
    }
}

proof fn lemma_be_nat_split(b: Seq<u8>, m: int)
    requires
        0 <= m <= b.len(),
    ensures
        be_nat(b) == be_nat(b.take(m)) * pow(256, (b.len() - m) as nat) + be_nat(b.skip(m)),
    decreases b.len() - m,
{
    reveal(pow);
    if m == b.len() {
        assert(b.take(m) =~= b);
        assert(b.skip(m) =~= Seq::<u8>::empty());
        assert(pow(256, (b.len() - m) as nat) == 1) by {
            vstd::arithmetic::power::lemma_pow0(256);
        }
        assert(be_nat(b.skip(m)) == 0);
        assert(be_nat(b) == be_nat(b.take(m)) * 1);
    } else {
        let dl = b.drop_last();
        assert(b.take(m) =~= dl.take(m));
        assert(b.skip(m).drop_last() =~= dl.skip(m));
        assert(b.skip(m).last() == b.last());
        assert(be_nat(b.skip(m)) == be_nat(dl.skip(m)) * 256 + b.last());
        lemma_be_nat_split(dl, m);
        let p = pow(256, (dl.len() - m) as nat);
        assert(pow(256, (b.len() - m) as nat) == 256 * p);
        assert((be_nat(dl.take(m)) * p + be_nat(dl.skip(m))) * 256 + b.last() == be_nat(dl.take(m))
            * (256 * p) + (be_nat(dl.skip(m)) * 256 + b.last())) by (nonlinear_arith);
        assert(be_nat(b) == be_nat(dl) * 256 + b.last());
        assert(be_nat(dl) == be_nat(dl.take(m)) * p + be_nat(dl.skip(m)));
        assert(be_nat(dl) * 256 + b.last() == (be_nat(dl.take(m)) * p + be_nat(dl.skip(m))) * 256
            + b.last());
        assert(be_nat(b) == be_nat(b.take(m)) * (256 * p) + be_nat(b.skip(m)));
    }
}

proof fn lemma_be_nat_singleton(x: u8)
    ensures
        be_nat(seq![x]) == x,
{
    assert(seq![x].drop_last() =~= Seq::<u8>::empty());
    assert(be_nat(Seq::<u8>::empty()) == 0);
}

proof fn lemma_be_nat_prefix_lt(a: Seq<u8>, b: Seq<u8>, k: int)
    requires
        a.len() == b.len(),
        0 <= k < a.len(),
        forall|i: int| 0 <= i < k ==> a[i] == b[i],
        a[k] < b[k],
    ensures
        be_nat(a) < be_nat(b),
{
    let n = a.len() as int;
    let rest = pow(256, (n - k - 1) as nat);
    lemma_be_nat_split(a, k);
    lemma_be_nat_split(b, k);
    assert(a.take(k) =~= b.take(k));
    let s = a.skip(k);
    let t = b.skip(k);
    assert(s[0] == a[k] && t[0] == b[k]);
    lemma_be_nat_split(s, 1);
    lemma_be_nat_split(t, 1);
    assert(s.take(1) =~= seq![a[k]]);
    assert(t.take(1) =~= seq![b[k]]);
    lemma_be_nat_singleton(a[k]);
    lemma_be_nat_singleton(b[k]);
    lemma_be_nat_bound(s.skip(1));
    assert(s.skip(1).len() == n - k - 1 && t.skip(1).len() == n - k - 1);
    assert(be_nat(s) < be_nat(t)) by (nonlinear_arith)
        requires
            be_nat(s) == a[k] * rest + be_nat(s.skip(1)),
            be_nat(t) == b[k] * rest + be_nat(t.skip(1)),
            be_nat(s.skip(1)) < rest,
            0 <= be_nat(t.skip(1)),
            a[k] < b[k],
            rest >= 1,
    ;
    assert(rest >= 1) by {
        vstd::arithmetic::power::lemma_pow_positive(256, (n - k - 1) as nat);
    }
    assert(be_nat(a) < be_nat(b)) by (nonlinear_arith)
        requires
            be_nat(a) == be_nat(a.take(k)) * pow(256, (n - k) as nat) + be_nat(s),
            be_nat(b) == be_nat(a.take(k)) * pow(256, (n - k) as nat) + be_nat(t),
            be_nat(s) < be_nat(t),
    ;
}

/// The curve group order as bytes, for run-time comparison.
pub fn order_bytes() -> (r: Vec<u8>)
    ensures
        r@ == curve_order_bytes(),
{
    let a: [u8; 32] = [0xff, 0xff, 0xff, 0xff, 0xff, 0xff, 0xff, 0xff, 0xff, 0xff, 0xff, 0xff,
        0xff, 0xff, 0xff, 0xfe, 0xba, 0xae, 0xdc, 0xe6, 0xaf, 0x48, 0xa0, 0x3b, 0xbf, 0xd2, 0x5e,
        0x8c, 0xd0, 0x36, 0x41, 0x41];
    let mut r: Vec<u8> = Vec::new();
    let mut i: usize = 0;
    while i < 32
        invariant
            i <= 32,
            r@.len() == i,
            forall|m: int| 0 <= m < i ==> r@[m] == a@[m],
        decreases 32 - i,
    {
        r.push(a[i]);
        i += 1;
    }
    proof {
        assert(r@ =~= a@);
        assert(a@ =~= curve_order_bytes());
    }
    r
}

/// True exactly when the bytes are not all zero, i.e. their numeric value is
/// nonzero.
pub fn is_nonzero(b: &Vec<u8>) -> (r: bool)
    ensures
        r == (be_nat(b@) != 0),
{
    let mut i: usize = 0;
    while i < b.len()
        invariant
            i <= b@.len(),
            forall|m: int| 0 <= m < i ==> b@[m] == 0,
        decreases b@.len() - i,
    {
        if b[i] != 0 {
            proof {
                lemma_be_nat_all_zero(b@);
            }
            return true;
        }
        i += 1;
    }
    proof {
        lemma_be_nat_all_zero(b@);
    }
    false
}

/// Big-endian numeric comparison of two equal-length byte strings.
pub fn lt_bytes(a: &Vec<u8>, b: &Vec<u8>) -> (r: bool)
    requires
        a@.len() == b@.len(),
    ensures
        r == (be_nat(a@) < be_nat(b@)),
{
    let mut i: usize = 0;
    while i < a.len()
        invariant
            a@.len() == b@.len(),
            i <= a@.len(),
            forall|m: int| 0 <= m < i ==> a@[m] == b@[m],
        decreases a@.len() - i,
    {
        let x = a[i];
        let y = b[i];
        if x < y {
            proof {
                lemma_be_nat_prefix_lt(a@, b@, i as int);
            }
            return true;
        }
        if x > y {
            proof {
                lemma_be_nat_prefix_lt(b@, a@, i as int);
            }
            return false;
        }
        i += 1;
    }
    proof {
        assert(a@ =~= b@);
    }
    false
}

/// Edge-case vector `k` of the deterministic test set, as 32 bytes: the
/// order itself, the largest 256-bit value, zero, one, order + 1, order - 1.
pub open spec fn boundary_vector(k: int) -> Seq<u8>
    recommends
        0 <= k < 6,
{
    if k == 0 {
        curve_order_bytes()
    } else if k == 1 {
        Seq::new(32, |i: int| 0xffu8)
    } else if k == 2 {
        Seq::new(32, |i: int| 0u8)
    } else if k == 3 {
        Seq::new(32, |i: int| 0u8).update(31, 1u8)
    } else if k == 4 {
        curve_order_bytes().update(31, 0x42u8)
    } else {
        curve_order_bytes().update(31, 0x40u8)
    }
}

fn push_all(out: &mut Vec<u8>, src: &Vec<u8>)
    ensures
        final(out)@ == old(out)@ + src@,
{
    let ghost base = out@;
    let mut i: usize = 0;
    while i < src.len()
        invariant
            i <= src@.len(),
            out@ == base + src@.take(i as int),
        decreases src@.len() - i,
    {
        out.push(src[i]);
        proof {
            assert(src@.take(i + 1) =~= src@.take(i as int).push(src@[i as int]));
        }
        i += 1;
    }
    proof {
        assert(src@.take(src@.len() as int) =~= src@);
    }
}

fn repeated(value: u8, count: usize) -> (r: Vec<u8>)
    ensures
        r@.len() == count,
        forall|i: int| 0 <= i < count ==> r@[i] == value,
{
    let mut r: Vec<u8> = Vec::new();
    let mut i: usize = 0;
    while i < count
        invariant
            i <= count,
            r@.len() == i,
            forall|m: int| 0 <= m < i ==> r@[m] == value,
        decreases count - i,
    {
        r.push(value);
        i += 1;
    }
    r
}

/// The fixed deterministic test vector set, six 32-byte candidates back to
/// back, in the order of `boundary_vector`. Exactly the vectors whose
/// accept/reject decisions the Result Interpreter cross-checks against the
/// native library.
pub fn boundary_vectors() -> (r: Vec<u8>)
    ensures
        r@.len() == 192,
        forall|k: int| 0 <= k < 6 ==> candidate_at(r@, k) == boundary_vector(k),
{
    let order = order_bytes();
    let mut out: Vec<u8> = Vec::new();
    push_all(&mut out, &order);
    let ones = repeated(0xff, 32);
    push_all(&mut out, &ones);
    let zeros = repeated(0, 32);
    push_all(&mut out, &zeros);
    let mut one = repeated(0, 31);
    one.push(1);
    push_all(&mut out, &one);
    let mut above = repeated(0, 0);
    push_all(&mut above, &order);
    above.pop();
    above.push(0x42);
    push_all(&mut out, &above);
    let mut below = repeated(0, 0);
    push_all(&mut below, &order);
    below.pop();
    below.push(0x40);
    push_all(&mut out, &below);
    proof {
        assert(above@ =~= curve_order_bytes().update(31, 0x42u8));
        assert(below@ =~= curve_order_bytes().update(31, 0x40u8));
        assert forall|k: int| 0 <= k < 6 implies candidate_at(out@, k) == boundary_vector(k) by {
            assert(out@.subrange(0, 32) =~= order@);
            assert(out@.subrange(32, 64) =~= ones@);
            assert(out@.subrange(64, 96) =~= zeros@);
            assert(out@.subrange(96, 128) =~= one@);
            assert(out@.subrange(128, 160) =~= above@);
            assert(out@.subrange(160, 192) =~= below@);
            assert(ones@ =~= boundary_vector(1));
            assert(zeros@ =~= boundary_vector(2));
            assert(one@ =~= boundary_vector(3));
        }
    }
    out
}

/// Candidate `k` of a flat batch of 32-byte candidates.
pub open spec fn candidate_at(bytes: Seq<u8>, k: int) -> Seq<u8> {
    bytes.subrange(k * 32, (k + 1) * 32)
}

/// The canonical validity decision, computed from the bytes alone: nonzero
/// and strictly below the curve order.
pub fn is_valid_secret_key(b: &Vec<u8>) -> (r: bool)
    ensures
        r == is_valid_secret(b@),
{
    if b.len() != 32 {
        return false;
    }
    let order = order_bytes();
    let nz = is_nonzero(b);
    let lt = lt_bytes(b, &order);
    nz && lt
}

} // verus!
