//! Hashing to numbers and scalars, and key pairs.
use crate::bignat::BigNat;
use crate::bytes::{be_nat, le_nat, lemma_be_nat_bound, lemma_be_nat_push, pow256};
use crate::modular::{add_mod, lemma_add_mod_reduce, lemma_mul_mod_reduce, mul_mod};
use crate::point::{curve_point, Point};
use crate::scalar::{group_order, Scalar};
use sha2::Digest;
use vstd::prelude::*;

verus! {

/// The SHA-256 digest of a byte string.
pub uninterp spec fn sha256(data: Seq<u8>) -> Seq<u8>;

/// The scalar that a byte string hashes to: its digest, read little-endian,
/// modulo the group order.
pub open spec fn hash_scalar(data: Seq<u8>) -> nat {
    le_nat(sha256(data)) % group_order()
}

/// Calls `Sha256::digest` of `sha2`, whose result has 32 bytes.
#[verifier::external_body]
fn digest(data: &[u8]) -> (out: Vec<u8>)
    ensures
        out@ == sha256(data@),
        out@.len() == 32,
{
    sha2::Sha256::digest(data).to_vec()
}

/// The SHA-256 digest of `binary`, read as a little-endian number: a number
/// of 256 bits.
pub fn hash_sha256(binary: &[u8]) -> (hash: BigNat)
    ensures
        hash.value() == le_nat(sha256(binary@)),
        hash.value() < pow256(32),
{
    let out = digest(binary);
    proof {
        lemma_be_nat_bound(out@.reverse());
    }
    BigNat::from_bytes_le(out.as_slice())
}

/// The number modulo the group order, as a scalar.
pub fn biguint_to_scalar(x: &BigNat) -> (s: Scalar)
    ensures
        s.value() == x.value() % group_order(),
{
    let bytes = x.to_bytes_be();
    let radix = Scalar::from_u16(256);
    let mut acc = Scalar::from_u16(0);
    let mut i: usize = 0;
    proof {
        assert(bytes@.subrange(0, 0) =~= Seq::<u8>::empty());
    }
    while i < bytes.len()
        invariant
            i <= bytes.len(),
            radix.value() == 256,
            acc.value() == be_nat(bytes@.subrange(0, i as int)) % group_order(),
        decreases bytes.len() - i,
    {
        let digit = Scalar::from_u16(bytes[i] as u16);
        let shifted = acc.mul(&radix);
        let next = shifted.add(&digit);
        proof {
            let prefix = bytes@.subrange(0, i as int);
            let a = be_nat(prefix);
            let b = bytes@[i as int] as nat;
            assert(bytes@.subrange(0, i + 1) =~= prefix.push(bytes@[i as int]));
            lemma_be_nat_push(prefix, bytes@[i as int]);
            lemma_mul_mod_reduce(a, 256);
            lemma_add_mod_reduce(a * 256, b);
            assert(shifted.value() == mul_mod(a, 256));
            assert(next.value() == add_mod(a * 256, b));
        }
        acc = next;
        i += 1;
    }
    proof {
        assert(bytes@.subrange(0, bytes.len() as int) =~= bytes@);
    }
    acc
}

/// The scalar that `data` hashes to.
pub fn hash_to_scalar(data: &[u8]) -> (s: Scalar)
    ensures
        s.value() == hash_scalar(data@),
{
    let hash = hash_sha256(data);
    biguint_to_scalar(&hash)
}

/// The public point `k·G` of the secret scalar `k`.
pub fn generate_public_key(k: &Scalar) -> (public_key: Point)
    ensures
        public_key@ == curve_point(k.value()),
        public_key.log() == k.value(),
{
    Point::base_mul(k)
}

/// A secret scalar and its public point.
#[derive(Clone, Copy, Debug, PartialEq, Eq)]
pub struct KeyPair {
    secret_key: Scalar,
    public_key: Point,
}

impl KeyPair {
    /// The secret scalar.
    pub closed spec fn spec_secret_key(&self) -> Scalar {
        self.secret_key
    }

    /// The public point.
    pub closed spec fn spec_public_key(&self) -> Point {
        self.public_key
    }

    /// The public point is the secret scalar's multiple of the base point.
    #[verifier::type_invariant]
    pub open spec fn wf(self) -> bool {
        &&& self.secret_key().wf()
        &&& self.public_key().wf()
        &&& self.public_key().log() == self.secret_key().value()
    }

    /// The key pair of a given secret.
    pub fn from_secret(secret_key: Scalar) -> (pair: KeyPair)
        ensures
            pair.secret_key() == secret_key,
    {
        proof {
            use_type_invariant(&secret_key);
        }
        let public_key = generate_public_key(&secret_key);
        proof {
            use_type_invariant(&public_key);
        }
        KeyPair { secret_key, public_key }
    }

    /// A key pair with a fresh secret, which is not zero.
    pub fn random(rng: rand::rngs::StdRng) -> (pair: KeyPair)
        ensures
            pair.secret_key().value() != 0,
    {
        let mut rng = rng;
        KeyPair::from_secret(Scalar::sample(&mut rng))
    }

    /// The secret scalar.
    #[verifier::when_used_as_spec(spec_secret_key)]
    pub fn secret_key(&self) -> (secret_key: Scalar)
        ensures
            secret_key == self.secret_key(),
    {
        self.secret_key
    }

    /// The public point.
    #[verifier::when_used_as_spec(spec_public_key)]
    pub fn public_key(&self) -> (public_key: Point)
        ensures
            public_key == self.public_key(),
    {
        self.public_key
    }
}

} // verus!
