//! Scalars of the secp256k1 group: integers modulo the group order.
use crate::bytes::{
    be_nat, lemma_be_nat_injective, lemma_be_nat_leading_zeros, lemma_be_nat_zero, same_bytes,
};
use vstd::pervasive::unreached;
use k256::elliptic_curve::PrimeField;
use vstd::prelude::*;

verus! {

/// The order `n` of the secp256k1 group.
pub open spec fn group_order() -> nat {
    0xFFFFFFFF_FFFFFFFF_FFFFFFFF_FFFFFFFE_BAAEDCE6_AF48A03B_BFD25E8C_D0364141nat
}

/// The 32 big-endian bytes of a number below `2^256`.
pub open spec fn scalar_bytes(v: nat) -> Seq<u8> {
    choose|s: Seq<u8>| s.len() == 32 && be_nat(s) == v
}

/// The standard generator of `rand`, which secrets are drawn from.
#[verifier::external_type_specification]
#[verifier::external_body]
pub struct ExStdRng(rand::rngs::StdRng);

/// An integer modulo the group order, held as its 32 big-endian bytes.
#[derive(Clone, Copy, Debug, PartialEq, Eq)]
pub struct Scalar {
    pub(crate) bytes: [u8; 32],
}

impl View for Scalar {
    type V = Seq<u8>;

    closed spec fn view(&self) -> Seq<u8> {
        self.bytes@
    }
}

impl Scalar {
    /// The integer in `[0, n)` that the scalar stands for.
    pub open spec fn value(&self) -> nat {
        be_nat(self@)
    }

    /// Every scalar is 32 bytes that denote a number below the group order.
    #[verifier::type_invariant]
    pub open spec fn wf(self) -> bool {
        &&& self@.len() == 32
        &&& be_nat(self@) < group_order()
    }

    /// Two well-formed scalars with one value are one scalar.
    pub proof fn lemma_value_determines(self, other: Scalar)
        requires
            self.wf(),
            other.wf(),
            self.value() == other.value(),
        ensures
            self == other,
    {
        lemma_be_nat_injective(self@, other@);
        assert(self.bytes =~= other.bytes);
    }

    /// A well-formed scalar's bytes are the 32 big-endian bytes of its value.
    pub proof fn lemma_bytes(self)
        requires
            self.wf(),
        ensures
            self@ == scalar_bytes(self.value()),
    {
        lemma_be_nat_injective(self@, scalar_bytes(self.value()));
    }

    /// Calls `PrimeField::from_repr` of `k256::Scalar`, which parses 32
    /// big-endian bytes and gives nothing unless they denote a number below
    /// the group order.
    #[verifier::external_body]
    fn parse(bytes: &[u8]) -> (parsed: Option<Scalar>)
        requires
            bytes@.len() == 32,
        ensures
            parsed is Some <==> be_nat(bytes@) < group_order(),
            parsed matches Some(s) ==> s@ == bytes@ && s.wf(),
    {
        let repr = k256::FieldBytes::from_iter(bytes.iter().copied());
        let parsed: Option<k256::Scalar> = k256::Scalar::from_repr(repr).into();
        match parsed {
            Some(s) => Some(Scalar { bytes: s.to_bytes().into() }),
            None => None,
        }
    }

    /// Calls `k256::Scalar::add`: the sum modulo the group order.
    #[verifier::external_body]
    pub(crate) fn add(&self, rhs: &Scalar) -> (sum: Scalar)
        ensures
            sum.wf(),
            sum.value() == (self.value() + rhs.value()) % group_order(),
    {
        let a = k256::Scalar::from_repr(self.bytes.into()).unwrap();
        let b = k256::Scalar::from_repr(rhs.bytes.into()).unwrap();
        Scalar { bytes: a.add(&b).to_bytes().into() }
    }

    /// Calls `k256::Scalar::mul`: the product modulo the group order.
    #[verifier::external_body]
    pub(crate) fn mul(&self, rhs: &Scalar) -> (product: Scalar)
        ensures
            product.wf(),
            product.value() == (self.value() * rhs.value()) % group_order(),
    {
        let a = k256::Scalar::from_repr(self.bytes.into()).unwrap();
        let b = k256::Scalar::from_repr(rhs.bytes.into()).unwrap();
        Scalar { bytes: a.mul(&b).to_bytes().into() }
    }

    /// Calls `NonZeroScalar::random` of `elliptic_curve`, which draws scalars
    /// from the generator until one is not zero.
    #[verifier::external_body]
    pub(crate) fn sample(rng: &mut rand::rngs::StdRng) -> (s: Scalar)
        ensures
            s.wf(),
            s.value() != 0,
    {
        let drawn = k256::NonZeroScalar::random(rng);
        Scalar { bytes: drawn.to_bytes().into() }
    }

    /// The scalar of a number of two bytes.
    pub fn from_u16(v: u16) -> (s: Scalar)
        ensures
            s.value() == v as nat,
    {
        let mut bytes = [0u8; 32];
        bytes[30] = (v / 256) as u8;
        bytes[31] = (v % 256) as u8;
        proof {
            let low = seq![(v / 256) as u8, (v % 256) as u8];
            assert(bytes@ =~= Seq::new(30, |i: int| 0u8) + low);
            lemma_be_nat_leading_zeros(30, low);
            assert(low.drop_last() =~= seq![(v / 256) as u8]);
            assert(low.drop_last().drop_last() =~= Seq::<u8>::empty());
            assert(be_nat(low.drop_last().drop_last()) == 0);
            assert(be_nat(low.drop_last()) == (v / 256) as nat);
            assert(be_nat(low) == (v / 256) as nat * 256 + (v % 256) as nat);
        }
        match Scalar::parse(bytes.as_slice()) {
            Some(s) => s,
            None => unreached(),
        }
    }

    /// The scalar that 32 big-endian bytes denote, if they denote one.
    pub fn from_bytes(bytes: &[u8]) -> (parsed: Option<Scalar>)
        ensures
            parsed is Some <==> bytes@.len() == 32 && be_nat(bytes@) < group_order(),
            parsed matches Some(s) ==> s@ == bytes@,
    {
        if bytes.len() != 32 {
            return None;
        }
        Scalar::parse(bytes)
    }

    /// The 32 big-endian bytes of the scalar.
    pub fn to_bytes(&self) -> (out: Vec<u8>)
        ensures
            out@ == self@,
    {
        let mut out: Vec<u8> = Vec::new();
        let mut i: usize = 0;
        while i < 32
            invariant
                i <= 32,
                out@ == self.bytes@.subrange(0, i as int),
            decreases 32 - i,
        {
            out.push(self.bytes[i]);
            i += 1;
        }
        assert(self.bytes@.subrange(0, 32) =~= self.bytes@);
        out
    }

    /// Whether the scalar is zero.
    pub fn is_zero(&self) -> (zero: bool)
        ensures
            zero == (self.value() == 0),
    {
        let mut i: usize = 0;
        while i < 32
            invariant
                i <= 32,
                forall|j: int| 0 <= j < i ==> self.bytes@[j] == 0,
            decreases 32 - i,
        {
            if self.bytes[i] != 0 {
                proof {
                    lemma_be_nat_zero(self@);
                }
                return false;
            }
            i += 1;
        }
        proof {
            lemma_be_nat_zero(self@);
        }
        true
    }

    /// Whether two scalars stand for the same integer.
    pub fn is_same(&self, other: &Scalar) -> (same: bool)
        ensures
            same == (self.value() == other.value()),
            same == (*self == *other),
    {
        proof {
            use_type_invariant(self);
            use_type_invariant(other);
            if self.value() == other.value() {
                self.lemma_value_determines(*other);
            }
        }
        let same = same_bytes(self.bytes.as_slice(), other.bytes.as_slice());
        proof {
            if same {
                assert(self.bytes =~= other.bytes);
            }
        }
        same
    }
}

} // verus!
