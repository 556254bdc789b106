use certless_aka::bignat::BigNat;
use certless_aka::scalar::Scalar;
use certless_aka::utils::{
    biguint_to_scalar, generate_public_key, hash_sha256, hash_to_scalar, KeyPair,
};
use k256::elliptic_curve::group::GroupEncoding;
use k256::elliptic_curve::PrimeField;
use rand::rngs::StdRng;
use rand::SeedableRng;

const ORDER: [u8; 32] = [
    0xFF, 0xFF, 0xFF, 0xFF, 0xFF, 0xFF, 0xFF, 0xFF, 0xFF, 0xFF, 0xFF, 0xFF, 0xFF, 0xFF, 0xFF, 0xFE,
    0xBA, 0xAE, 0xDC, 0xE6, 0xAF, 0x48, 0xA0, 0x3B, 0xBF, 0xD2, 0x5E, 0x8C, 0xD0, 0x36, 0x41, 0x41,
];

const HELLO_WORLD: [u8; 32] = [
    0xb9, 0x4d, 0x27, 0xb9, 0x93, 0x4d, 0x3e, 0x08, 0xa5, 0x2e, 0x52, 0xd7, 0xda, 0x7d, 0xab, 0xfa,
    0xc4, 0x84, 0xef, 0xe3, 0x7a, 0x53, 0x80, 0xee, 0x90, 0x88, 0xf7, 0xac, 0xe2, 0xef, 0xcd, 0xe9,
];

const BASE_POINT: [u8; 33] = [
    0x02, 0x79, 0xbe, 0x66, 0x7e, 0xf9, 0xdc, 0xbb, 0xac, 0x55, 0xa0, 0x62, 0x95, 0xce, 0x87, 0x0b,
    0x07, 0x02, 0x9b, 0xfc, 0xdb, 0x2d, 0xce, 0x28, 0xd9, 0x59, 0xf2, 0x81, 0x5b, 0x16, 0xf8, 0x17,
    0x98,
];

fn word(v: u64) -> Vec<u8> {
    let mut bytes = vec![0u8; 24];
    bytes.extend_from_slice(&v.to_be_bytes());
    bytes
}

#[test]
fn test_generate_key_pair() {
    let rng = StdRng::from_entropy();
    let key_pair = KeyPair::random(rng);
    assert!(!key_pair.secret_key().is_zero());
    let raw = k256::Scalar::from_repr(k256::FieldBytes::from_iter(key_pair.secret_key().to_bytes()))
        .unwrap();
    assert_eq!(
        key_pair.public_key().to_bytes(),
        (k256::ProjectivePoint::GENERATOR * raw).to_bytes().to_vec()
    );
}

#[test]
fn test_hash_sha256() {
    let result = hash_sha256(b"hello world");

    assert_eq!(result, BigNat::from_bytes_le(&HELLO_WORLD.to_vec()));
}

#[test]
fn hash_is_the_digest_read_little_endian() {
    let result = hash_sha256(b"hello world");
    let expected = num_bigint::BigUint::from_bytes_le(&HELLO_WORLD);
    assert_eq!(num_bigint::BigUint::from_bytes_be(&result.to_bytes_be()), expected);
    let mut reversed = HELLO_WORLD.to_vec();
    reversed.reverse();
    assert_eq!(result.to_bytes_be(), reversed);
    assert_eq!(result.to_bytes_le(), HELLO_WORLD.to_vec());
}

#[test]
fn hash_of_nothing() {
    let digest: [u8; 32] = [
        0xe3, 0xb0, 0xc4, 0x42, 0x98, 0xfc, 0x1c, 0x14, 0x9a, 0xfb, 0xf4, 0xc8, 0x99, 0x6f, 0xb9,
        0x24, 0x27, 0xae, 0x41, 0xe4, 0x64, 0x9b, 0x93, 0x4c, 0xa4, 0x95, 0x99, 0x1b, 0x78, 0x52,
        0xb8, 0x55,
    ];
    assert_eq!(hash_sha256(b""), BigNat::from_bytes_le(&digest));
}

#[test]
fn hash_to_scalar_reduces_the_hash() {
    let expected = num_bigint::BigUint::from_bytes_le(&HELLO_WORLD)
        % num_bigint::BigUint::from_bytes_be(&ORDER);
    assert_eq!(hash_to_scalar(b"hello world").to_bytes(), expected.to_bytes_be());
    // 0xe9cdef... read little-endian is above the order less often than not:
    // here it is below it, so the scalar is the hash itself.
    let mut reversed = HELLO_WORLD.to_vec();
    reversed.reverse();
    assert_eq!(hash_to_scalar(b"hello world").to_bytes(), reversed);
}

#[test]
fn number_to_scalar_reduces_modulo_the_order() {
    assert_eq!(biguint_to_scalar(&BigNat::from_u64(0)).to_bytes(), word(0));
    assert_eq!(biguint_to_scalar(&BigNat::from_u64(5)).to_bytes(), word(5));
    assert_eq!(biguint_to_scalar(&BigNat::from_u64(u64::MAX)).to_bytes(), word(u64::MAX));
    assert_eq!(biguint_to_scalar(&BigNat::from_bytes_be(&ORDER)).to_bytes(), word(0));

    let mut below = ORDER;
    below[31] -= 1;
    assert_eq!(biguint_to_scalar(&BigNat::from_bytes_be(&below)).to_bytes(), below.to_vec());

    let mut above = ORDER;
    above[31] += 6;
    assert_eq!(biguint_to_scalar(&BigNat::from_bytes_be(&above)).to_bytes(), word(6));

    // 2^256 - 1 = order + 0x14551231950b75fc4402da1732fc9bebe
    assert_eq!(
        biguint_to_scalar(&BigNat::from_bytes_be(&[0xFF; 32])).to_bytes(),
        vec![
            0, 0, 0, 0, 0, 0, 0, 0, 0, 0, 0, 0, 0, 0, 0, 0x01, 0x45, 0x51, 0x23, 0x19, 0x50, 0xb7,
            0x5f, 0xc4, 0x40, 0x2d, 0xa1, 0x73, 0x2f, 0xc9, 0xbe, 0xbe
        ]
    );

    let wide = [0xA7u8; 70];
    let expected =
        num_bigint::BigUint::from_bytes_be(&wide) % num_bigint::BigUint::from_bytes_be(&ORDER);
    assert_eq!(biguint_to_scalar(&BigNat::from_bytes_be(&wide)).to_bytes(), expected.to_bytes_be());
}

#[test]
fn public_key_of_one_is_the_base_point() {
    let one = Scalar::from_bytes(&word(1)).unwrap();
    assert_eq!(generate_public_key(&one).to_bytes(), BASE_POINT.to_vec());
    let zero = Scalar::from_bytes(&word(0)).unwrap();
    assert_eq!(generate_public_key(&zero).to_bytes(), vec![0u8; 33]);
}

#[test]
fn public_key_of_two_and_three() {
    // 2·G and 3·G of secp256k1.
    let two: [u8; 33] = [
        0x02, 0xc6, 0x04, 0x7f, 0x94, 0x41, 0xed, 0x7d, 0x6d, 0x30, 0x45, 0x40, 0x6e, 0x95, 0xc0,
        0x7c, 0xd8, 0x5c, 0x77, 0x8e, 0x4b, 0x8c, 0xef, 0x3c, 0xa7, 0xab, 0xac, 0x09, 0xb9, 0x5c,
        0x70, 0x9e, 0xe5,
    ];
    let three: [u8; 33] = [
        0x02, 0xf9, 0x30, 0x8a, 0x01, 0x92, 0x58, 0xc3, 0x10, 0x49, 0x34, 0x4f, 0x85, 0xf8, 0x9d,
        0x52, 0x29, 0xb5, 0x31, 0xc8, 0x45, 0x83, 0x6f, 0x99, 0xb0, 0x86, 0x01, 0xf1, 0x13, 0xbc,
        0xe0, 0x36, 0xf9,
    ];
    assert_eq!(
        generate_public_key(&Scalar::from_bytes(&word(2)).unwrap()).to_bytes(),
        two.to_vec()
    );
    assert_eq!(
        generate_public_key(&Scalar::from_bytes(&word(3)).unwrap()).to_bytes(),
        three.to_vec()
    );
}

#[test]
fn key_pair_of_a_secret() {
    let secret = Scalar::from_bytes(&word(1)).unwrap();
    let pair = KeyPair::from_secret(secret);
    assert_eq!(pair.secret_key(), secret);
    assert_eq!(pair.public_key().to_bytes(), BASE_POINT.to_vec());
}

#[test]
fn key_pairs_of_one_seed_are_the_same() {
    let one = KeyPair::random(StdRng::from_seed([9; 32]));
    let two = KeyPair::random(StdRng::from_seed([9; 32]));
    let other = KeyPair::random(StdRng::from_seed([10; 32]));
    assert_eq!(one, two);
    assert_ne!(one, other);
    assert_ne!(one.secret_key(), other.secret_key());
}
