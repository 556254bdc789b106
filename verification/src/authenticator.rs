//! Registration of a service by the holder of a bare key pair.
use crate::error::ProtocolError;
use crate::scalar::Scalar;
use crate::servicer::{service_signature, Servicer};
use crate::utils::KeyPair;
use vstd::prelude::*;

verus! {

/// The holder of a key pair that credentials are issued under.
#[derive(Clone, Copy, Debug, PartialEq, Eq)]
pub struct Authenticator {
    pub key_pair: KeyPair,
}

impl Authenticator {
    /// An authenticator with a fresh key pair, whose secret is not zero.
    pub fn random(rng: rand::rngs::StdRng) -> (authenticator: Self)
        ensures
            authenticator.key_pair.secret_key().value() != 0,
    {
        Self { key_pair: KeyPair::random(rng) }
    }
}

/// The registration of a service: the identifier and the nonce.
#[derive(Clone, Copy, Debug)]
pub struct ServicerRegistration {
    id: u8,
    r: Scalar,
}

impl ServicerRegistration {
    /// The identifier to register.
    pub closed spec fn id(&self) -> u8 {
        self.id
    }

    /// The nonce.
    pub closed spec fn r(&self) -> Scalar {
        self.r
    }

    /// A registration of `id` with a nonce drawn from `rng`, which is not zero.
    pub fn random(id: u8, rng: rand::rngs::StdRng) -> (registration: Self)
        ensures
            registration.id() == id,
            registration.r().value() != 0,
    {
        let mut rng = rng;
        ServicerRegistration { id, r: Scalar::sample(&mut rng) }
    }

    /// Issues the credential under a key pair. A signature of zero is not
    /// issued.
    pub fn register(&self, key_pair: &KeyPair) -> (issued: Result<Servicer, ProtocolError>)
        ensures
            issued is Ok <==> service_signature(
                key_pair.secret_key().value(),
                self.id(),
                self.r().value(),
            ) != 0,
            issued matches Ok(c) ==> c.issued_by(*key_pair, self.id(), self.r().value())
                && c.is_bound(),
            issued matches Err(e) ==> e == ProtocolError::DegenerateScalar,
    {
        Servicer::issue(key_pair, self.id, &self.r)
    }
}

} // verus!
