//! The authority that issues the credentials.
use crate::bignat::BigNat;
use crate::error::{ProtocolError, MAX_REDRAWS};
use crate::point::Point;
use crate::scalar::Scalar;
use crate::servicer::{service_signature, Servicer};
use crate::user::User;
use crate::utils::KeyPair;
use vstd::prelude::*;

verus! {

/// The authority: the master secret and its public point.
#[derive(Clone, Copy, Debug, PartialEq, Eq)]
pub struct Authority {
    keys: KeyPair,
}

impl Authority {
    /// The authority's key pair.
    pub closed spec fn spec_key_pair(&self) -> KeyPair {
        self.keys
    }

    /// The authority of a given master secret.
    pub fn from_secret(s: Scalar) -> (authority: Authority)
        ensures
            authority.key_pair().secret_key() == s,
    {
        Authority { keys: KeyPair::from_secret(s) }
    }

    /// An authority with a fresh master secret, which is not zero.
    pub fn random(rng: rand::rngs::StdRng) -> (authority: Authority)
        ensures
            authority.key_pair().secret_key().value() != 0,
    {
        Authority { keys: KeyPair::random(rng) }
    }

    /// The authority's key pair.
    #[verifier::when_used_as_spec(spec_key_pair)]
    pub fn key_pair(&self) -> (keys: KeyPair)
        ensures
            keys == self.key_pair(),
    {
        self.keys
    }

    /// The authority's public point.
    pub fn public_key(&self) -> (PK: Point)
        ensures
            PK == self.key_pair().public_key(),
    {
        self.keys.public_key()
    }

    /// Issues a service's credential for `id` with nonces drawn from `rng`.
    /// Where the signature comes out zero, the nonce is drawn again; after
    /// `MAX_REDRAWS` redraws the registration gives up.
    pub fn register_servicer(&self, id: u8, rng: &mut rand::rngs::StdRng) -> (issued: Result<
        Servicer,
        ProtocolError,
    >)
        ensures
            issued matches Ok(c) ==> c.R.log() != 0 && c.issued_by(
                self.key_pair(),
                id,
                c.R.log(),
            ) && c.is_bound(),
            issued matches Err(e) ==> e == ProtocolError::DegenerateScalar,
    {
        let register = ServicerRegister::random(*self, id, rng);
        register.register(rng)
    }

    /// Issues a user's credential for `id` and the password hash `h` with
    /// nonces drawn from `rng`. Where the signature or the password verifier
    /// comes out zero, the nonce is drawn again; after `MAX_REDRAWS` redraws the
    /// registration gives up.
    pub fn register_user(&self, id: BigNat, h: BigNat, rng: &mut rand::rngs::StdRng) -> (issued:
        Result<User, ProtocolError>)
        ensures
            issued matches Ok(u) ==> u.R.log() != 0 && u.issued_by(
                self.key_pair(),
                id@,
                h@,
                u.R.log(),
            ) && u.is_bound(),
            issued matches Err(e) ==> e == ProtocolError::DegenerateScalar,
    {
        let register = UserRegister::random(*self, id, h, rng);
        register.register(rng)
    }
}

/// The registration of a service: the identifier, a first nonce and the
/// authority that issues.
#[derive(Clone, Copy, Debug)]
pub struct ServicerRegister {
    id: u8,
    r: Scalar,
    authority: Authority,
}

impl ServicerRegister {
    /// The identifier to register.
    pub closed spec fn id(&self) -> u8 {
        self.id
    }

    /// The authority that issues.
    pub closed spec fn authority(&self) -> Authority {
        self.authority
    }

    /// The first nonce.
    pub closed spec fn nonce(&self) -> Scalar {
        self.r
    }

    /// The first nonce is not zero.
    #[verifier::type_invariant]
    pub open spec fn wf(self) -> bool {
        self.nonce().value() != 0
    }

    /// The signature scalar that the first nonce gives.
    pub open spec fn first_signature(&self) -> nat {
        service_signature(
            self.authority().key_pair().secret_key().value(),
            self.id(),
            self.nonce().value(),
        )
    }

    /// A registration of `id` with a first nonce drawn from `rng`, which is
    /// not zero.
    pub fn random(authority: Authority, id: u8, rng: &mut rand::rngs::StdRng) -> (register: Self)
        ensures
            register.id() == id,
            register.authority() == authority,
            register.nonce().value() != 0,
    {
        Self { id, authority, r: Scalar::sample(rng) }
    }

    /// Issues the credential with the first nonce, which decides the outcome
    /// wherever the signature that it gives is not zero. Only where that
    /// signature is zero is the nonce drawn again from `rng`, `MAX_REDRAWS`
    /// times at most.
    pub fn register(&self, rng: &mut rand::rngs::StdRng) -> (issued: Result<
        Servicer,
        ProtocolError,
    >)
        ensures
            self.first_signature() != 0 ==> (issued matches Ok(c) && c.issued_by(
                self.authority().key_pair(),
                self.id(),
                self.nonce().value(),
            )),
            issued matches Ok(c) ==> c.R.log() != 0 && c.issued_by(
                self.authority().key_pair(),
                self.id(),
                c.R.log(),
            ) && c.is_bound(),
            issued matches Err(e) ==> e == ProtocolError::DegenerateScalar,
    {
        proof {
            use_type_invariant(self);
        }
        let keys = self.authority.key_pair();
        let mut r = self.r;
        let mut draws: usize = 0;
        while draws <= MAX_REDRAWS
            invariant
                keys == self.authority.key_pair(),
                r.value() != 0,
                draws == 0 ==> r == self.nonce(),
                draws > 0 ==> self.first_signature() == 0,
            decreases MAX_REDRAWS + 1 - draws,
        {
            match Servicer::issue(&keys, self.id, &r) {
                Ok(c) => {
                    return Ok(c);
                },
                Err(_) => {},
            }
            r = Scalar::sample(rng);
            draws += 1;
        }
        Err(ProtocolError::DegenerateScalar)
    }
}

/// The registration of a user: the identity, the password hash, a first nonce
/// and the authority that issues.
#[derive(Debug)]
pub struct UserRegister {
    id: BigNat,
    h: BigNat,
    r: Scalar,
    authority: Authority,
}

impl UserRegister {
    /// The identity to register.
    pub closed spec fn id(&self) -> BigNat {
        self.id
    }

    /// The password hash to register.
    pub closed spec fn h(&self) -> BigNat {
        self.h
    }

    /// The authority that issues.
    pub closed spec fn authority(&self) -> Authority {
        self.authority
    }

    /// The first nonce.
    pub closed spec fn nonce(&self) -> Scalar {
        self.r
    }

    /// The first nonce is not zero.
    #[verifier::type_invariant]
    pub open spec fn wf(self) -> bool {
        self.nonce().value() != 0
    }

    /// Whether the first nonce gives a credential: neither the signature nor
    /// the password verifier that it gives is zero.
    pub open spec fn first_nonce_serves(&self) -> bool {
        &&& User::issued_signature(
            self.authority().key_pair(),
            self.id()@,
            self.nonce().value(),
        ) != 0
        &&& User::issued_verifier(
            self.authority().key_pair(),
            self.id()@,
            self.h()@,
            self.nonce().value(),
        ) != 0
    }

    /// A registration of `id` and the password hash `h` with a first nonce
    /// drawn from `rng`, which is not zero.
    pub fn random(
        authority: Authority,
        id: BigNat,
        h: BigNat,
        rng: &mut rand::rngs::StdRng,
    ) -> (register: Self)
        ensures
            register.id() == id,
            register.h() == h,
            register.authority() == authority,
            register.nonce().value() != 0,
    {
        Self { id, h, authority, r: Scalar::sample(rng) }
    }

    /// Issues the credential with the first nonce, which decides the outcome
    /// wherever neither the signature nor the password verifier that it gives
    /// is zero. Only where one of them is zero is the nonce drawn again from
    /// `rng`, `MAX_REDRAWS` times at most.
    pub fn register(&self, rng: &mut rand::rngs::StdRng) -> (issued: Result<User, ProtocolError>)
        ensures
            self.first_nonce_serves() ==> (issued matches Ok(u) && u.issued_by(
                self.authority().key_pair(),
                self.id()@,
                self.h()@,
                self.nonce().value(),
            )),
            issued matches Ok(u) ==> u.R.log() != 0 && u.issued_by(
                self.authority().key_pair(),
                self.id()@,
                self.h()@,
                u.R.log(),
            ) && u.is_bound(),
            issued matches Err(e) ==> e == ProtocolError::DegenerateScalar,
    {
        proof {
            use_type_invariant(self);
        }
        let keys = self.authority.key_pair();
        let mut r = self.r;
        let mut draws: usize = 0;
        while draws <= MAX_REDRAWS
            invariant
                keys == self.authority.key_pair(),
                r.value() != 0,
                draws == 0 ==> r == self.nonce(),
                draws > 0 ==> !self.first_nonce_serves(),
            decreases MAX_REDRAWS + 1 - draws,
        {
            match User::issue(&keys, &self.id, &self.h, &r) {
                Ok(u) => {
                    return Ok(u);
                },
                Err(_) => {},
            }
            r = Scalar::sample(rng);
            draws += 1;
        }
        Err(ProtocolError::DegenerateScalar)
    }
}

} // verus!
