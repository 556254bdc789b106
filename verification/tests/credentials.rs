#![allow(non_snake_case)]

use certless_aka::authority::{Authority, ServicerRegister, UserRegister};
use certless_aka::bignat::BigNat;
use certless_aka::error::ProtocolError;
use certless_aka::point::Point;
use certless_aka::scalar::Scalar;
use certless_aka::servicer::{service_binding_hash, Servicer};
use certless_aka::user::{user_binding_hash, User};
use certless_aka::utils::KeyPair;
use k256::elliptic_curve::group::GroupEncoding;
use k256::elliptic_curve::PrimeField;
use rand::rngs::StdRng;
use rand::SeedableRng;
use sha2::Digest;

const ORDER: [u8; 32] = [
    0xFF, 0xFF, 0xFF, 0xFF, 0xFF, 0xFF, 0xFF, 0xFF, 0xFF, 0xFF, 0xFF, 0xFF, 0xFF, 0xFF, 0xFF, 0xFE,
    0xBA, 0xAE, 0xDC, 0xE6, 0xAF, 0x48, 0xA0, 0x3B, 0xBF, 0xD2, 0x5E, 0x8C, 0xD0, 0x36, 0x41, 0x41,
];

fn rng_of(seed: u8) -> StdRng {
    StdRng::from_seed([seed; 32])
}

fn small(v: u64) -> Scalar {
    let mut bytes = [0u8; 32];
    bytes[24..].copy_from_slice(&v.to_be_bytes());
    Scalar::from_bytes(&bytes).unwrap()
}

fn raw(s: &Scalar) -> k256::Scalar {
    k256::Scalar::from_repr(k256::FieldBytes::from_iter(s.to_bytes())).unwrap()
}

fn lib(s: &k256::Scalar) -> Scalar {
    Scalar::from_bytes(&s.to_bytes()).unwrap()
}

fn raw_pt(p: &Point) -> k256::ProjectivePoint {
    let repr = k256::CompressedPoint::from_iter(p.to_bytes());
    k256::ProjectivePoint::from_bytes(&repr).unwrap()
}

fn hash_mod_order(message: &[u8]) -> k256::Scalar {
    let digest = sha2::Sha256::digest(message);
    let reduced =
        num_bigint::BigUint::from_bytes_le(&digest) % num_bigint::BigUint::from_bytes_be(&ORDER);
    let be = reduced.to_bytes_be();
    let mut bytes = [0u8; 32];
    bytes[32 - be.len()..].copy_from_slice(&be);
    k256::Scalar::from_repr(bytes.into()).unwrap()
}

fn flip(bytes: &[u8], bit: usize) -> Vec<u8> {
    let mut out = bytes.to_vec();
    out[bit / 8] ^= 1 << (bit % 8);
    out
}

#[test]
fn registered_service_is_valid() {
    for seed in 0..8u8 {
        let authority = Authority::random(rng_of(seed));
        for id in [0u8, 1, 10, 255] {
            let mut servicer = authority.register_servicer(id, &mut rng_of(seed ^ 0x55)).unwrap();
            assert_eq!(servicer.id, id);
            assert_eq!(servicer.PKas, authority.public_key());
            assert_eq!(servicer.PK, None);
            assert_eq!(servicer.SK, None);
            assert!(!servicer.S.is_zero());
            assert!(servicer.is_valid());
            assert_eq!(servicer.PK, Some(servicer.derive_public_key()));
        }
    }
}

#[test]
fn registered_user_is_valid() {
    for seed in 0..8u8 {
        let authority = Authority::random(rng_of(seed));
        let ids = [
            BigNat::from_u64(0),
            BigNat::from_u64(10),
            BigNat::from_u64(u64::MAX),
            BigNat::from_bytes_be(&[0xAB; 32]),
            BigNat::from_bytes_be(&[0xCD; 40]),
        ];
        for id in ids {
            let h = BigNat::from_u64(10 + seed as u64);
            let mut user =
                authority.register_user(id.clone(), h, &mut rng_of(seed ^ 0xAA)).unwrap();
            assert_eq!(user.id, id);
            assert_eq!(user.PKas, authority.public_key());
            assert_eq!(user.PK, None);
            assert_eq!(user.session, None);
            assert_eq!(user.SK, None);
            assert!(user.is_valid());
            assert_eq!(user.PK, Some(user.derive_public_key()));
        }
    }
}

#[test]
fn issued_service_credential_has_the_stated_parts() {
    let s = small(0x1111_2222_3333);
    let r = small(0x4444_5555_6666);
    let keys = KeyPair::from_secret(s);
    let servicer = Servicer::issue(&keys, 10, &r).unwrap();

    let R = k256::ProjectivePoint::GENERATOR * raw(&r);
    let mut message = R.to_bytes().to_vec();
    message.extend_from_slice(&[0x00, 10]);
    let h = hash_mod_order(&message);
    let S = raw(&r) + h * raw(&s);

    assert_eq!(servicer.id, 10);
    assert_eq!(servicer.R.to_bytes(), R.to_bytes().to_vec());
    assert_eq!(servicer.S.to_bytes(), S.to_bytes().to_vec());
    assert_eq!(servicer.PKas, keys.public_key());
    assert_eq!(servicer.PK, None);
    assert_eq!(servicer.SK, None);
    assert_eq!(service_binding_hash(&servicer.R, 10).to_bytes(), h.to_bytes().to_vec());

    let PK = R + raw_pt(&keys.public_key()) * h;
    assert_eq!(servicer.derive_public_key().to_bytes(), PK.to_bytes().to_vec());
    assert_eq!(PK, k256::ProjectivePoint::GENERATOR * S);
}

#[test]
fn issued_user_credential_has_the_stated_parts() {
    let s = small(0x1111_2222_3333);
    let r = small(0x4444_5555_6666);
    let keys = KeyPair::from_secret(s);
    let id = BigNat::from_u64(10);
    let h = BigNat::from_bytes_be(&[0x01, 0x02, 0x03]);
    let user = User::issue(&keys, &id, &h, &r).unwrap();

    let R = k256::ProjectivePoint::GENERATOR * raw(&r);
    let mut message = R.to_bytes().to_vec();
    message.push(0x00);
    message.extend_from_slice(&keys.public_key().to_bytes());
    let mask = num_bigint::BigUint::from_bytes_le(&sha2::Sha256::digest(&message));
    let PID = num_bigint::BigUint::from(10u32) ^ mask;
    assert_eq!(user.PID.to_bytes_be(), PID.to_bytes_be());

    let pid = PID.to_bytes_be();
    let mut message = R.to_bytes().to_vec();
    message.push(0x00);
    message.extend(std::iter::repeat(0u8).take(32 - pid.len()));
    message.extend_from_slice(&pid);
    let hash = hash_mod_order(&message);
    let S = raw(&r) + hash * raw(&s);
    assert_eq!(user_binding_hash(&user.R, &user.PID).to_bytes(), hash.to_bytes().to_vec());

    let mut message = vec![0x03, 0x02, 0x01];
    message.extend_from_slice(&S.to_bytes());
    let PWV = hash_mod_order(&message);

    assert_eq!(user.id, id);
    assert_eq!(user.R.to_bytes(), R.to_bytes().to_vec());
    assert_eq!(user.S.to_bytes(), S.to_bytes().to_vec());
    assert_eq!(user.PWV.to_bytes(), PWV.to_bytes().to_vec());
    assert_eq!(user.PKas, keys.public_key());
    assert_eq!(user.PK, None);
    assert_eq!(user.session, None);
    assert_eq!(user.SK, None);
    assert_eq!(
        user.derive_public_key().to_bytes(),
        (k256::ProjectivePoint::GENERATOR * S).to_bytes().to_vec()
    );
}

#[test]
fn identity_is_cut_to_the_width_of_the_mask() {
    let keys = KeyPair::from_secret(small(7));
    let r = small(11);
    let h = BigNat::from_u64(10);
    let mut wide = vec![0x5Au8; 8];
    wide.extend_from_slice(&[0xC3; 32]);
    let long = User::issue(&keys, &BigNat::from_bytes_be(&wide), &h, &r).unwrap();
    let short = User::issue(&keys, &BigNat::from_bytes_be(&[0xC3; 32]), &h, &r).unwrap();
    assert_eq!(long.PID, short.PID);
    assert_eq!(long.S, short.S);
    assert!(long.PID.to_bytes_be().len() <= 32);
    assert_ne!(long.id, short.id);
}

#[test]
fn password_hash_enters_the_verifier() {
    let keys = KeyPair::from_secret(small(7));
    let r = small(11);
    let id = BigNat::from_u64(10);
    let one = User::issue(&keys, &id, &BigNat::from_u64(10), &r).unwrap();
    let other = User::issue(&keys, &id, &BigNat::from_u64(11), &r).unwrap();
    assert_eq!(one.S, other.S);
    assert_eq!(one.PID, other.PID);
    assert_ne!(one.PWV, other.PWV);
}

#[test]
fn zero_signature_is_not_issued() {
    let r = small(0x0123_4567_89ab);
    let R = k256::ProjectivePoint::GENERATOR * raw(&r);
    let mut message = R.to_bytes().to_vec();
    message.extend_from_slice(&[0x00, 10]);
    let h = hash_mod_order(&message);
    let s = -(raw(&r) * h.invert().unwrap());
    let keys = KeyPair::from_secret(lib(&s));
    assert_eq!(Servicer::issue(&keys, 10, &r), Err(ProtocolError::DegenerateScalar));
    assert!(Servicer::issue(&keys, 11, &r).is_ok());
    assert!(Servicer::issue(&keys, 10, &small(5)).is_ok());
}

#[test]
fn flipping_a_bit_of_the_signature_invalidates_a_service() {
    let authority = Authority::random(rng_of(1));
    let servicer = authority.register_servicer(10, &mut rng_of(2)).unwrap();
    let bytes = servicer.S.to_bytes();
    let mut checked = 0;
    for bit in 0..256 {
        if let Some(S) = Scalar::from_bytes(&flip(&bytes, bit)) {
            let mut tampered = Servicer { S, ..servicer };
            assert!(!tampered.is_valid());
            checked += 1;
        }
    }
    assert!(checked >= 200);
    let mut untouched = servicer;
    assert!(untouched.is_valid());
}

#[test]
fn flipping_a_bit_of_the_certificate_invalidates_a_service() {
    let authority = Authority::random(rng_of(3));
    let servicer = authority.register_servicer(10, &mut rng_of(4)).unwrap();
    let bytes = servicer.R.to_bytes();
    let mut checked = 0;
    for bit in 0..(33 * 8) {
        if let Some(R) = Point::from_bytes(&flip(&bytes, bit)) {
            let mut tampered = Servicer { R, ..servicer };
            assert!(!tampered.is_valid());
            checked += 1;
        }
    }
    assert!(checked >= 50);
}

#[test]
fn flipping_a_bit_of_the_signature_invalidates_a_user() {
    let authority = Authority::random(rng_of(5));
    let user = authority
        .register_user(BigNat::from_u64(10), BigNat::from_u64(10), &mut rng_of(6))
        .unwrap();
    let bytes = user.S.to_bytes();
    let mut checked = 0;
    for bit in 0..256 {
        if let Some(S) = Scalar::from_bytes(&flip(&bytes, bit)) {
            let mut tampered = user.clone();
            tampered.S = S;
            assert!(!tampered.is_valid());
            checked += 1;
        }
    }
    assert!(checked >= 200);
}

#[test]
fn flipping_a_bit_of_the_certificate_invalidates_a_user() {
    let authority = Authority::random(rng_of(7));
    let user = authority
        .register_user(BigNat::from_u64(10), BigNat::from_u64(10), &mut rng_of(8))
        .unwrap();
    let bytes = user.R.to_bytes();
    let mut checked = 0;
    for bit in 0..(33 * 8) {
        if let Some(R) = Point::from_bytes(&flip(&bytes, bit)) {
            let mut tampered = user.clone();
            tampered.R = R;
            assert!(!tampered.is_valid());
            checked += 1;
        }
    }
    assert!(checked >= 50);
}

#[test]
fn credential_is_invalid_under_another_identifier_or_authority() {
    let authority = Authority::random(rng_of(9));
    let other = Authority::random(rng_of(10));
    let servicer = authority.register_servicer(10, &mut rng_of(11)).unwrap();
    let mut renamed = Servicer { id: 11, ..servicer };
    assert!(!renamed.is_valid());
    let mut moved = Servicer { PKas: other.public_key(), ..servicer };
    assert!(!moved.is_valid());

    let user = authority
        .register_user(BigNat::from_u64(10), BigNat::from_u64(10), &mut rng_of(12))
        .unwrap();
    let mut renamed = user.clone();
    renamed.PID = BigNat::from_u64(10);
    assert!(!renamed.is_valid());
    let mut moved = user.clone();
    moved.PKas = other.public_key();
    assert!(!moved.is_valid());
    let mut relabelled = user.clone();
    relabelled.id = BigNat::from_u64(11);
    assert!(relabelled.is_valid());
}

#[test]
fn validation_keeps_the_derived_point_either_way() {
    let authority = Authority::random(rng_of(13));
    let servicer = authority.register_servicer(10, &mut rng_of(14)).unwrap();
    let mut tampered = Servicer { S: small(1), ..servicer };
    assert!(!tampered.is_valid());
    assert_eq!(tampered.PK, Some(servicer.derive_public_key()));
    assert_eq!(tampered.SK, None);
    assert_eq!(tampered.R, servicer.R);
}

#[test]
fn registration_in_two_steps_gives_valid_credentials() {
    let authority = Authority::random(rng_of(15));
    let mut rng = rng_of(16);
    let register = ServicerRegister::random(authority, 42, &mut rng);
    let mut servicer = register.register(&mut rng).unwrap();
    assert_eq!(servicer.id, 42);
    assert!(servicer.is_valid());

    let register =
        UserRegister::random(authority, BigNat::from_u64(42), BigNat::from_u64(7), &mut rng);
    let mut user = register.register(&mut rng).unwrap();
    assert_eq!(user.id, BigNat::from_u64(42));
    assert!(user.is_valid());
}

#[test]
fn registration_uses_the_first_nonce() {
    let authority = Authority::random(rng_of(17));
    let register = ServicerRegister::random(authority, 42, &mut rng_of(18));
    let servicer = register.register(&mut rng_of(19)).unwrap();
    let drawn = k256::NonZeroScalar::random(&mut rng_of(18));
    let R = k256::ProjectivePoint::GENERATOR * *drawn;
    assert_eq!(servicer.R.to_bytes(), R.to_bytes().to_vec());
    let issued = Servicer::issue(&authority.key_pair(), 42, &lib(&drawn)).unwrap();
    assert_eq!(servicer, issued);
}

#[test]
fn authority_of_a_secret_has_its_public_point() {
    let s = small(12345);
    let authority = Authority::from_secret(s);
    assert_eq!(authority.key_pair().secret_key(), s);
    assert_eq!(
        authority.public_key().to_bytes(),
        (k256::ProjectivePoint::GENERATOR * raw(&s)).to_bytes().to_vec()
    );
    assert_eq!(authority.public_key(), authority.key_pair().public_key());
    let random = Authority::random(rng_of(20));
    assert!(!random.key_pair().secret_key().is_zero());
    assert_eq!(
        random.key_pair().secret_key().to_bytes(),
        k256::NonZeroScalar::random(&mut rng_of(20)).to_bytes().to_vec()
    );
}

#[test]
fn validation_reports_a_changed_credential() {
    let authority = Authority::random(rng_of(21));
    let mut servicer = authority.register_servicer(10, &mut rng_of(22)).unwrap();
    assert_eq!(servicer.validate(), Ok(()));
    assert_eq!(servicer.PK, Some(servicer.derive_public_key()));
    let mut tampered = Servicer { S: small(1), PK: None, ..servicer };
    assert_eq!(tampered.validate(), Err(ProtocolError::RegistrationInvalid));
    assert_eq!(tampered.PK, servicer.PK);
    assert_eq!(tampered.S, small(1));

    let mut user = authority
        .register_user(BigNat::from_u64(10), BigNat::from_u64(10), &mut rng_of(23))
        .unwrap();
    assert_eq!(user.validate(), Ok(()));
    assert_eq!(user.PK, Some(user.derive_public_key()));
    let mut tampered = user.clone();
    tampered.PKas = user.R;
    assert_eq!(tampered.validate(), Err(ProtocolError::RegistrationInvalid));
    assert_eq!(tampered.PK, Some(tampered.derive_public_key()));
    assert_ne!(tampered.PK, user.PK);
}

#[test]
fn pseudo_identity_with_a_leading_zero_byte_is_hashed_in_32_bytes() {
    let s = small(0x0bad_cafe);
    let r = small(0x1234_5678);
    let keys = KeyPair::from_secret(s);

    // The identity takes the first byte of the mask, so that the pseudo-identity
    // begins with a zero byte and its shortest form is shorter than 32 bytes.
    let R = k256::ProjectivePoint::GENERATOR * raw(&r);
    let mut message = R.to_bytes().to_vec();
    message.push(0x00);
    message.extend_from_slice(&keys.public_key().to_bytes());
    let mut mask = sha2::Sha256::digest(&message).to_vec();
    mask.reverse();
    let mut id = [0u8; 32];
    id[0] = mask[0];
    let mut user =
        User::issue(&keys, &BigNat::from_bytes_be(&id), &BigNat::from_u64(10), &r).unwrap();

    let shortest = user.PID.to_bytes_be();
    assert!(shortest.len() < 32);
    let mut expected = mask.clone();
    expected[0] = 0;
    let mut padded = vec![0u8; 32 - shortest.len()];
    padded.extend_from_slice(&shortest);
    assert_eq!(padded, expected);

    let mut message = R.to_bytes().to_vec();
    message.push(0x00);
    message.extend_from_slice(&padded);
    let in_32_bytes = hash_mod_order(&message);
    let mut message = R.to_bytes().to_vec();
    message.push(0x00);
    message.extend_from_slice(&shortest);
    let in_shortest_form = hash_mod_order(&message);
    assert_ne!(in_32_bytes, in_shortest_form);

    assert_eq!(user_binding_hash(&user.R, &user.PID).to_bytes(), in_32_bytes.to_bytes().to_vec());
    assert_eq!(user.S.to_bytes(), (raw(&r) + in_32_bytes * raw(&s)).to_bytes().to_vec());
    assert!(user.is_valid());
    assert_eq!(
        user.derive_public_key().to_bytes(),
        (R + raw_pt(&keys.public_key()) * in_32_bytes).to_bytes().to_vec()
    );
}

#[test]
fn zero_signature_is_invalid_though_the_equation_holds() {
    // With PKas = -(1/h)·R the point R + PKas·h is the point at infinity, which
    // is 0·G: the equation holds of the signature zero.
    let r = small(0x7777);
    let R = k256::ProjectivePoint::GENERATOR * raw(&r);
    let mut message = R.to_bytes().to_vec();
    message.extend_from_slice(&[0x00, 10]);
    let h = hash_mod_order(&message);
    let PKas = R * (-h.invert().unwrap());
    assert_eq!((R + PKas * h).to_bytes().to_vec(), vec![0u8; 33]);

    let issued = Servicer::issue(&KeyPair::from_secret(small(3)), 10, &r).unwrap();
    assert_eq!(issued.R.to_bytes(), R.to_bytes().to_vec());
    let mut forged = Servicer {
        S: Scalar::from_bytes(&[0u8; 32]).unwrap(),
        PKas: Point::from_bytes(&PKas.to_bytes()).unwrap(),
        ..issued
    };
    assert!(!forged.is_valid());
    assert_eq!(forged.PK.unwrap().to_bytes(), vec![0u8; 33]);
    assert_eq!(forged.validate(), Err(ProtocolError::RegistrationInvalid));
}

#[test]
fn user_registration_uses_the_first_nonce() {
    let authority = Authority::random(rng_of(31));
    let id = BigNat::from_u64(42);
    let h = BigNat::from_u64(7);
    let register = UserRegister::random(authority, id.clone(), h.clone(), &mut rng_of(32));
    let user = register.register(&mut rng_of(33)).unwrap();
    let drawn = k256::NonZeroScalar::random(&mut rng_of(32));
    let issued = User::issue(&authority.key_pair(), &id, &h, &lib(&drawn)).unwrap();
    assert_eq!(user, issued);
    assert_eq!(
        user.R.to_bytes(),
        (k256::ProjectivePoint::GENERATOR * *drawn).to_bytes().to_vec()
    );
}
