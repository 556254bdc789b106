//! Unsigned integers of any size.
use crate::bytes::{
    be_nat, le_nat, lemma_be_nat_injective, lemma_be_nat_leading_zero,
    lemma_be_nat_leading_zeros, lemma_le_nat_push, pow256, reversed,
};
use vstd::slice::slice_subrange;
use vstd::prelude::*;

verus! {

/// The bitwise exclusive or of two numbers.
pub open spec fn nat_xor(a: nat, b: nat) -> nat
    decreases a + b,
{
    if a == 0 {
        b
    } else if b == 0 {
        a
    } else {
        2 * nat_xor(a / 2, b / 2) + (if a % 2 == b % 2 {
            0nat
        } else {
            1nat
        })
    }
}

/// Whether a byte string is the shortest big-endian form of a number: at least
/// one byte, and no zero in front of others.
pub open spec fn is_minimal(s: Seq<u8>) -> bool {
    s.len() >= 1 && (s.len() == 1 || s[0] != 0)
}

/// The shortest big-endian form of a number.
pub open spec fn minimal_be(v: nat) -> Seq<u8> {
    choose|s: Seq<u8>| is_minimal(s) && be_nat(s) == v
}

/// A number has one shortest big-endian form.
pub proof fn lemma_minimal_unique(a: Seq<u8>, b: Seq<u8>)
    requires
        is_minimal(a),
        is_minimal(b),
        be_nat(a) == be_nat(b),
    ensures
        a == b,
{
    if a.len() <= b.len() {
        lemma_minimal_unique_ordered(a, b);
    } else {
        lemma_minimal_unique_ordered(b, a);
    }
}

proof fn lemma_minimal_unique_ordered(a: Seq<u8>, b: Seq<u8>)
    requires
        is_minimal(a),
        is_minimal(b),
        be_nat(a) == be_nat(b),
        a.len() <= b.len(),
    ensures
        a == b,
{
    let zeros = (b.len() - a.len()) as nat;
    let padded = Seq::new(zeros, |i: int| 0u8) + a;
    lemma_be_nat_leading_zeros(zeros, a);
    lemma_be_nat_injective(padded, b);
    if zeros > 0 {
        assert(padded[0] == 0);
    } else {
        assert(padded =~= a);
    }
}

/// An unsigned integer of any size. Its view is its shortest big-endian form.
#[derive(Debug, PartialEq, Eq)]
pub struct BigNat {
    be: Vec<u8>,
}

impl View for BigNat {
    type V = Seq<u8>;

    closed spec fn view(&self) -> Seq<u8> {
        self.be@
    }
}

impl Clone for BigNat {
    fn clone(&self) -> (copy: Self)
        ensures
            copy@ == self@,
    {
        proof {
            use_type_invariant(self);
        }
        let mut be: Vec<u8> = Vec::new();
        crate::bytes::append(&mut be, self.be.as_slice());
        BigNat { be }
    }
}

impl BigNat {
    /// The number itself.
    pub open spec fn value(&self) -> nat {
        be_nat(self@)
    }

    /// The bytes held are the number's shortest big-endian form.
    #[verifier::type_invariant]
    pub open spec fn wf(self) -> bool {
        is_minimal(self@)
    }

    /// The bytes held are the shortest big-endian form of the number.
    pub proof fn lemma_view(self)
        requires
            self.wf(),
        ensures
            self@ == minimal_be(self.value()),
    {
        lemma_minimal_unique(self@, minimal_be(self.value()));
    }

    /// The number that the bytes denote when read big-endian.
    pub fn from_bytes_be(bytes: &[u8]) -> (n: BigNat)
        ensures
            n.value() == be_nat(bytes@),
    {
        let len: usize = bytes.len();
        let mut be: Vec<u8> = Vec::new();
        if len == 0 {
            be.push(0u8);
            proof {
                assert(be@.drop_last() =~= Seq::<u8>::empty());
                assert(bytes@ =~= Seq::<u8>::empty());
                assert(be_nat(Seq::<u8>::empty()) == 0);
                assert(be_nat(be@) == 0);
            }
            return BigNat { be };
        }
        let mut k: usize = 0;
        proof {
            assert(bytes@.subrange(0, len as int) =~= bytes@);
        }
        while k + 1 < len && bytes[k] == 0
            invariant
                len == bytes.len(),
                k < len,
                be_nat(bytes@.subrange(k as int, len as int)) == be_nat(bytes@),
            decreases len - k,
        {
            proof {
                let tail = bytes@.subrange(k as int, len as int);
                lemma_be_nat_leading_zero(tail);
                assert(tail.subrange(1, tail.len() as int) =~= bytes@.subrange(k + 1, len as int));
            }
            k += 1;
        }
        crate::bytes::append(&mut be, slice_subrange(bytes, k, len));
        assert(be@ =~= bytes@.subrange(k as int, len as int));
        BigNat { be }
    }

    /// The number that the bytes denote when read little-endian.
    pub fn from_bytes_le(bytes: &[u8]) -> (n: BigNat)
        ensures
            n.value() == le_nat(bytes@),
    {
        let be = reversed(bytes);
        BigNat::from_bytes_be(be.as_slice())
    }

    /// The number `v`.
    pub fn from_u64(v: u64) -> (n: BigNat)
        ensures
            n.value() == v as nat,
    {
        let mut be: Vec<u8> = Vec::new();
        let mut rest: u64 = v;
        let mut i: usize = 0;
        let ghost mut weight: nat = 1;
        while i < 8
            invariant
                i <= 8,
                be@.len() == i,
                weight == pow256(i as nat),
                v as nat == rest as nat * weight + le_nat(be@),
                i == 8 ==> rest == 0,
                rest as nat * weight <= u64::MAX,
            decreases 8 - i,
        {
            let digit: u8 = (rest % 256) as u8;
            proof {
                lemma_le_nat_push(be@, digit);
                assert(rest as nat == (rest / 256) as nat * 256 + digit as nat);
                assert((rest / 256) as nat * (weight * 256) + digit as nat * weight + le_nat(be@)
                    == rest as nat * weight + le_nat(be@)) by (nonlinear_arith)
                    requires
                        rest as nat == (rest / 256) as nat * 256 + digit as nat,
                ;
                assert((rest / 256) as nat * (weight * 256) <= rest as nat * weight)
                    by (nonlinear_arith)
                    requires
                        rest as nat == (rest / 256) as nat * 256 + digit as nat,
                ;
                if i == 7 {
                    assert(weight == 0x100_0000_0000_0000) by {
                        reveal_with_fuel(pow256, 8);
                    }
                    assert((rest / 256) as nat * 0x1_0000_0000_0000_0000 <= u64::MAX);
                    assert(rest / 256 == 0);
                }
                assert(pow256((i + 1) as nat) == 256 * pow256(i as nat));
                weight = weight * 256;
            }
            be.push(digit);
            rest = rest / 256;
            i += 1;
        }
        BigNat::from_bytes_le(be.as_slice())
    }

    /// Calls `BitXor` of `num_bigint::BigUint`: the bitwise exclusive or.
    #[verifier::external_body]
    pub(crate) fn xor(&self, rhs: &BigNat) -> (n: BigNat)
        ensures
            n.wf(),
            n.value() == nat_xor(self.value(), rhs.value()),
    {
        let a = num_bigint::BigUint::from_bytes_be(&self.be);
        let b = num_bigint::BigUint::from_bytes_be(&rhs.be);
        BigNat { be: (a ^ b).to_bytes_be() }
    }

    /// The number's shortest big-endian form.
    pub fn to_bytes_be(&self) -> (out: Vec<u8>)
        ensures
            out@ == self@,
    {
        let mut out: Vec<u8> = Vec::new();
        crate::bytes::append(&mut out, self.be.as_slice());
        out
    }

    /// The number's shortest little-endian form.
    pub fn to_bytes_le(&self) -> (out: Vec<u8>)
        ensures
            out@ == self@.reverse(),
    {
        reversed(self.be.as_slice())
    }
}

} // verus!
