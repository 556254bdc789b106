//! Points of the secp256k1 group, held in their compressed 33-byte encoding.
use crate::scalar::{group_order, Scalar};
use k256::elliptic_curve::group::GroupEncoding;
use k256::elliptic_curve::PrimeField;
use vstd::prelude::*;

verus! {

/// The 33-byte encoding of `k·G`, the `k`-fold multiple of the base point `G`:
/// `0x02` or `0x03` and the 32 big-endian bytes of the x-coordinate, or 33 zero
/// bytes for the point at infinity.
pub uninterp spec fn curve_point(k: nat) -> Seq<u8>;

/// Whether a byte string is the encoding of a point of the group. The group has
/// prime order, so each of its points is a multiple of the base point.
pub open spec fn on_curve(encoding: Seq<u8>) -> bool {
    exists|k: nat| k < group_order() && #[trigger] curve_point(k) == encoding
}

/// The `k` below the group order with `k·G` encoded as given.
pub open spec fn discrete_log(encoding: Seq<u8>) -> nat {
    choose|k: nat| k < group_order() && #[trigger] curve_point(k) == encoding
}

/// Whether 33 bytes begin as a compressed encoding does.
pub open spec fn has_compressed_tag(encoding: Seq<u8>) -> bool {
    encoding.len() == 33 && (encoding[0] == 0 || encoding[0] == 2 || encoding[0] == 3)
}

/// A point of the group.
#[derive(Clone, Copy, Debug, PartialEq, Eq)]
pub struct Point {
    pub(crate) bytes: [u8; 33],
}

impl View for Point {
    type V = Seq<u8>;

    closed spec fn view(&self) -> Seq<u8> {
        self.bytes@
    }
}

impl Point {
    /// The point's discrete logarithm to the base `G`: the point is `log()·G`.
    pub open spec fn log(&self) -> nat {
        discrete_log(self@)
    }

    /// Every point is on the curve.
    #[verifier::type_invariant]
    pub open spec fn wf(self) -> bool {
        &&& self@.len() == 33
        &&& on_curve(self@)
    }

    /// Calls `ProjectivePoint::GENERATOR * k` of `k256` and encodes the product
    /// with `GroupEncoding::to_bytes`. The base point has the order of the
    /// group, so the product of a scalar below it has that scalar as its
    /// logarithm.
    #[verifier::external_body]
    pub(crate) fn base_mul(k: &Scalar) -> (product: Point)
        ensures
            product.wf(),
            product@ == curve_point(k.value()),
            product.log() == k.value(),
    {
        let k = k256::Scalar::from_repr(k.bytes.into()).unwrap();
        let product = k256::ProjectivePoint::GENERATOR * k;
        Point { bytes: product.to_bytes().into() }
    }

    /// Calls `ProjectivePoint + ProjectivePoint` of `k256`, the addition of the
    /// group: the logarithm of a sum is the sum of the logarithms modulo the
    /// group order.
    #[verifier::external_body]
    pub(crate) fn add(&self, rhs: &Point) -> (sum: Point)
        ensures
            sum.wf(),
            sum.log() == (self.log() + rhs.log()) % group_order(),
    {
        let a = k256::CompressedPoint::from_iter(self.bytes.iter().copied());
        let b = k256::CompressedPoint::from_iter(rhs.bytes.iter().copied());
        let a = k256::ProjectivePoint::from_bytes(&a).unwrap();
        let b = k256::ProjectivePoint::from_bytes(&b).unwrap();
        Point { bytes: (a + b).to_bytes().into() }
    }

    /// Calls `ProjectivePoint * Scalar` of `k256`, the multiplication of a
    /// point by a scalar: the logarithm of the product is the product of the
    /// point's logarithm and the scalar modulo the group order.
    #[verifier::external_body]
    pub(crate) fn mul(&self, k: &Scalar) -> (product: Point)
        ensures
            product.wf(),
            product.log() == (self.log() * k.value()) % group_order(),
    {
        let p = k256::CompressedPoint::from_iter(self.bytes.iter().copied());
        let p = k256::ProjectivePoint::from_bytes(&p).unwrap();
        let k = k256::Scalar::from_repr(k.bytes.into()).unwrap();
        Point { bytes: (p * k).to_bytes().into() }
    }

    /// Calls `GroupEncoding::from_bytes` of `k256::AffinePoint`, which accepts
    /// 33 bytes that begin as a compressed encoding does exactly when they
    /// encode a point of the curve.
    #[verifier::external_body]
    fn decode(bytes: &[u8]) -> (decoded: Option<Point>)
        requires
            has_compressed_tag(bytes@),
        ensures
            decoded is Some <==> on_curve(bytes@),
            decoded matches Some(p) ==> p@ == bytes@ && p.wf(),
    {
        let repr = k256::CompressedPoint::from_iter(bytes.iter().copied());
        let decoded: Option<k256::AffinePoint> = k256::AffinePoint::from_bytes(&repr).into();
        match decoded {
            Some(p) => Some(Point { bytes: p.to_bytes().into() }),
            None => None,
        }
    }

    /// A point is the multiple of the base point that its logarithm names.
    pub proof fn lemma_log(self)
        requires
            self.wf(),
        ensures
            self.log() < group_order(),
            curve_point(self.log()) == self@,
    {
    }

    /// Two well-formed points with one logarithm are one point.
    pub proof fn lemma_log_determines(self, other: Point)
        requires
            self.wf(),
            other.wf(),
            self.log() == other.log(),
        ensures
            self == other,
    {
        assert(self.bytes =~= other.bytes);
    }

    /// The point that 33 bytes encode, if they are the compressed encoding of
    /// a point of the curve.
    pub fn from_bytes(bytes: &[u8]) -> (decoded: Option<Point>)
        ensures
            decoded is Some <==> has_compressed_tag(bytes@) && on_curve(bytes@),
            decoded matches Some(p) ==> p@ == bytes@,
    {
        if bytes.len() != 33 {
            return None;
        }
        if bytes[0] != 0 && bytes[0] != 2 && bytes[0] != 3 {
            return None;
        }
        Point::decode(bytes)
    }

    /// The 33 bytes of the point's encoding.
    pub fn to_bytes(&self) -> (out: Vec<u8>)
        ensures
            out@ == self@,
    {
        let mut out: Vec<u8> = Vec::new();
        let mut i: usize = 0;
        while i < 33
            invariant
                i <= 33,
                out@ == self.bytes@.subrange(0, i as int),
            decreases 33 - i,
        {
            out.push(self.bytes[i]);
            i += 1;
        }
        assert(self.bytes@.subrange(0, 33) =~= self.bytes@);
        out
    }

    /// Whether two points are the same point of the group.
    pub fn is_same(&self, other: &Point) -> (same: bool)
        ensures
            same == (*self == *other),
            same == (self.log() == other.log()),
    {
        proof {
            use_type_invariant(self);
            use_type_invariant(other);
            if self.log() == other.log() {
                self.lemma_log_determines(*other);
            }
        }
        let same = crate::bytes::same_bytes(self.bytes.as_slice(), other.bytes.as_slice());
        proof {
            if same {
                assert(self.bytes =~= other.bytes);
            }
        }
        same
    }
}

} // verus!
