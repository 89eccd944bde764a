//! Byte strings: big-endian integers and equality.
use vstd::prelude::*;

verus! {

/// The value of `s` read as a big-endian unsigned integer.
pub open spec fn be_value(s: Seq<u8>) -> nat
    decreases s.len(),
{
    if s.len() == 0 {
        0
    } else {
        be_value(s.drop_last()) * 256 + s.last() as nat
    }
}

/// The `len`-byte big-endian form of `n` (the low `len` bytes when `n` is larger).
pub open spec fn be_bytes(n: nat, len: nat) -> Seq<u8>
    decreases len,
{
    if len == 0 {
        seq![]
    } else {
        be_bytes(n / 256, (len - 1) as nat).push((n % 256) as u8)
    }
}

pub proof fn lemma_be_bytes_len(n: nat, len: nat)
    ensures
        be_bytes(n, len).len() == len,
    decreases len,
{
    if len > 0 {
        lemma_be_bytes_len(n / 256, (len - 1) as nat);
    }
}

/// Reading back the big-endian form of a number that fits gives the number.
pub proof fn lemma_be_value_of_bytes(n: nat, len: nat)
    requires
        n < pow256(len),
    ensures
        be_value(be_bytes(n, len)) == n,
    decreases len,
{
    if len > 0 {
        let m = (len - 1) as nat;
        let b = be_bytes(n, len);
        assert(b.drop_last() =~= be_bytes(n / 256, m));
        assert(pow256(len) == 256 * pow256(m));
        assert(n / 256 < pow256(m)) by (nonlinear_arith)
            requires
                n < 256 * pow256(m),
        ;
        lemma_be_value_of_bytes(n / 256, m);
        assert((n / 256) * 256 + n % 256 == n) by (nonlinear_arith);
    }
}

/// `256` to the power `k`.
pub open spec fn pow256(k: nat) -> nat
    decreases k,
{
    if k == 0 {
        1
    } else {
        256 * pow256((k - 1) as nat)
    }
}

proof fn lemma_be_value_step(s: Seq<u8>, i: int)
    requires
        0 <= i < s.len(),
    ensures
        be_value(s.take(i + 1)) == be_value(s.take(i)) * 256 + s[i] as nat,
{
    assert(s.take(i + 1).drop_last() =~= s.take(i));
}

proof fn lemma_be_value_grows(s: Seq<u8>, i: int, j: int)
    requires
        0 <= i <= j <= s.len(),
    ensures
        be_value(s.take(j)) >= be_value(s.take(i)) * pow256((j - i) as nat),
    decreases j - i,
{
    if i < j {
        lemma_be_value_grows(s, i, j - 1);
        lemma_be_value_step(s, j - 1);
        let a = be_value(s.take(i));
        let p = pow256((j - 1 - i) as nat);
        assert(pow256((j - i) as nat) == 256 * p);
        assert(be_value(s.take(j - 1)) * 256 >= a * p * 256) by (nonlinear_arith)
            requires
                be_value(s.take(j - 1)) >= a * p,
        ;
        assert(a * p * 256 == a * (256 * p)) by (nonlinear_arith);
        assert(be_value(s.take(j)) >= be_value(s.take(j - 1)) * 256);
    } else {
        assert(pow256(0) == 1);
        assert(be_value(s.take(i)) * 1 == be_value(s.take(i)));
    }
}

/// The big-endian value of `s`, when it fits in a `u64`.
pub fn be_to_u64(s: &Vec<u8>) -> (r: Option<u64>)
    ensures
        be_value(s@) <= u64::MAX ==> r == Some(be_value(s@) as u64),
        be_value(s@) > u64::MAX ==> r is None,
{
    let mut acc: u64 = 0;
    let mut i: usize = 0;
    while i < s.len()
        invariant
            0 <= i <= s.len(),
            acc as nat == be_value(s@.take(i as int)),
        decreases s.len() - i,
    {
        proof {
            lemma_be_value_step(s@, i as int);
        }
        if acc >= 0x100_0000_0000_0000 {
            proof {
                lemma_be_value_grows(s@, i as int, s@.len() as int);
                lemma_pow256_pos((s@.len() - i) as nat);
                assert(s@.take(s@.len() as int) =~= s@);
                let p = pow256((s@.len() - i) as nat);
                assert(acc as nat * p >= acc as nat) by (nonlinear_arith)
                    requires
                        p >= 1,
                ;
                if s@.len() - i > 0 {
                    let q = pow256((s@.len() - i - 1) as nat);
                    lemma_pow256_pos((s@.len() - i - 1) as nat);
                    assert(acc as nat * p >= acc as nat * 256) by (nonlinear_arith)
                        requires
                            p == 256 * q,
                            q >= 1,
                    ;
                }
            }
            return None;
        }
        acc = acc * 256 + s[i] as u64;
        i = i + 1;
    }
    assert(s@.take(s@.len() as int) =~= s@);
    Some(acc)
}

proof fn lemma_pow256_pos(k: nat)
    ensures
        pow256(k) >= 1,
    decreases k,
{
    if k > 0 {
        lemma_pow256_pos((k - 1) as nat);
    }
}

/// The `len`-byte big-endian form of `n`.
pub fn u64_to_be(n: u64, len: usize) -> (r: Vec<u8>)
    ensures
        r@ == be_bytes(n as nat, len as nat),
    decreases len,
{
    if len == 0 {
        Vec::new()
    } else {
        let mut r = u64_to_be(n / 256, len - 1);
        r.push((n % 256) as u8);
        r
    }
}

/// Whether two byte strings are equal.
pub fn bytes_eq(a: &Vec<u8>, b: &Vec<u8>) -> (r: bool)
    ensures
        r == (a@ == b@),
{
    if a.len() != b.len() {
        return false;
    }
    let mut i: usize = 0;
    while i < a.len()
        invariant
            a@.len() == b@.len(),
            0 <= i <= a.len(),
            forall|j: int| 0 <= j < i ==> a@[j] == b@[j],
        decreases a.len() - i,
    {
        if a[i] != b[i] {
            return false;
        }
        i = i + 1;
    }
    assert(a@ =~= b@);
    true
}

/// A copy of `a`.
pub fn copy_bytes(a: &Vec<u8>) -> (r: Vec<u8>)
    ensures
        r@ == a@,
{
    let r = a.clone();
    assert(r@ =~= a@);
    r
}

} // verus!
