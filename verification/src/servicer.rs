//! The credential of a service, and the service's side of the handshake.
use crate::auth::{
    confirmation_hash, derive_confirmation, derive_session_key, session_key_hash, AuthRequest,
    AuthResponse,
};
use crate::error::{ProtocolError, MAX_REDRAWS};
use crate::modular::{add_mod, lemma_add_mod_reduce, lemma_mul_mod_reduce, mul_mod};
use crate::point::{curve_point, Point};
use crate::scalar::{scalar_bytes, Scalar};
use crate::utils::{hash_scalar, hash_to_scalar, KeyPair};
use vstd::prelude::*;

verus! {

/// The bytes that bind a service's certificate point to its identifier: the
/// point, a zero byte, the identifier.
pub open spec fn service_binding_message(R: Seq<u8>, id: u8) -> Seq<u8> {
    R + seq![0u8, id]
}

/// The signature scalar that an authority with the secret `s` issues for the
/// identifier `id` with the nonce `r`: `r + H(r·G ‖ 0 ‖ id)·s`.
pub open spec fn service_signature(s: nat, id: u8, r: nat) -> nat {
    add_mod(r, mul_mod(hash_scalar(service_binding_message(curve_point(r), id)), s))
}

/// The scalar `H(R ‖ 0 ‖ id)` that binds a service's certificate point to its
/// identifier.
pub fn service_binding_hash(R: &Point, id: u8) -> (h: Scalar)
    ensures
        h.value() == hash_scalar(service_binding_message(R@, id)),
{
    let mut message = R.to_bytes();
    message.push(0u8);
    message.push(id);
    assert(message@ =~= service_binding_message(R@, id));
    hash_to_scalar(message.as_slice())
}

/// A service's credential.
#[derive(Clone, Copy, Debug, PartialEq, Eq)]
pub struct Servicer {
    /// The service's identifier.
    pub id: u8,
    /// The certificate point.
    pub R: Point,
    /// The signature scalar, which the service keeps to itself.
    pub S: Scalar,
    /// The service's public point, once it has been derived.
    pub PK: Option<Point>,
    /// The authority's public point.
    pub PKas: Point,
    /// The session key of the last handshake.
    pub SK: Option<Scalar>,
}

impl Servicer {
    /// Whether the credential's parts are well-formed.
    pub open spec fn wf(self) -> bool {
        &&& self.R.wf()
        &&& self.S.wf()
        &&& self.PKas.wf()
        &&& self.PK matches Some(pk) ==> pk.wf()
        &&& self.SK matches Some(sk) ==> sk.wf()
    }

    /// The scalar `H(R ‖ 0 ‖ id)` that binds the certificate to the identifier.
    pub open spec fn binding_hash(self) -> nat {
        hash_scalar(service_binding_message(self.R@, self.id))
    }

    /// The logarithm of the service's public point `R + PKas·H(R ‖ 0 ‖ id)`.
    pub open spec fn key_log(self) -> nat {
        add_mod(self.R.log(), mul_mod(self.PKas.log(), self.binding_hash()))
    }

    /// Whether the signature is not zero and fits the certificate:
    /// `S·G == R + PKas·H(R ‖ 0 ‖ id)`.
    pub open spec fn is_bound(self) -> bool {
        &&& self.S.value() != 0
        &&& self.S.value() == self.key_log()
    }

    /// Whether the credential is the one that the key pair issues for `id`
    /// with the nonce `r`.
    pub open spec fn issued_by(self, key_pair: KeyPair, id: u8, r: nat) -> bool {
        &&& self.wf()
        &&& self.id == id
        &&& self.R.log() == r
        &&& self.S.value() == service_signature(key_pair.secret_key().value(), id, r)
        &&& self.S.value() != 0
        &&& self.PKas == key_pair.public_key()
        &&& self.PK is None
        &&& self.SK is None
    }

    /// The logarithm of the point `A·S + (R' + PKas·P)·b` that the service
    /// shares with the sender of a request, for the ephemeral secret `b`.
    pub open spec fn shared_log(self, req: AuthRequest, b: nat) -> nat {
        add_mod(mul_mod(req.A.log(), self.S.value()), mul_mod(req.masked_key_log(self.PKas), b))
    }

    /// The session key that the service derives from a request.
    pub open spec fn session_key(self, req: AuthRequest, b: nat) -> nat {
        session_key_hash(req.P@, self.id, curve_point(self.shared_log(req, b)))
    }

    /// The tag by which the service confirms the session key.
    pub open spec fn confirmation(self, req: AuthRequest, b: nat) -> nat {
        confirmation_hash(scalar_bytes(self.session_key(req, b)), req.A@)
    }

    /// The logarithm of the public point that the service answers with: the
    /// one it holds, or else the one that its certificate gives.
    pub open spec fn response_key_log(self) -> nat {
        match self.PK {
            Some(pk) => pk.log(),
            None => self.key_log(),
        }
    }

    /// Whether the service answers a request with the ephemeral secret `b`:
    /// the request stands, and neither the session key nor its tag is zero.
    pub open spec fn can_answer(self, req: AuthRequest, b: nat) -> bool {
        &&& req.accepts(self.PKas)
        &&& self.session_key(req, b) != 0
        &&& self.confirmation(req, b) != 0
    }

    /// Whether `res` and `after` are the answer of this service to a request
    /// with the ephemeral secret `b`, and the service after it.
    pub open spec fn answers(
        self,
        after: Servicer,
        res: AuthResponse,
        req: AuthRequest,
        b: nat,
    ) -> bool {
        &&& res.wf()
        &&& after.wf()
        &&& res.Ver.value() == self.confirmation(req, b)
        &&& res.B.log() == b
        &&& res.id == self.id
        &&& res.R == self.R
        &&& res.PK.log() == self.response_key_log()
        &&& after.SK is Some
        &&& after.SK->0.value() == self.session_key(req, b)
        &&& after.PK == Some(res.PK)
        &&& after.id == self.id
        &&& after.R == self.R
        &&& after.S == self.S
        &&& after.PKas == self.PKas
    }

    /// A credential at hand is well-formed: its scalars and points are.
    pub(crate) fn note_wf(&self)
        ensures
            self.wf(),
    {
        proof {
            use_type_invariant(&self.R);
            use_type_invariant(&self.S);
            use_type_invariant(&self.PKas);
        }
        match &self.PK {
            Some(pk) => {
                proof {
                    use_type_invariant(pk);
                }
            },
            None => {},
        }
        match &self.SK {
            Some(sk) => {
                proof {
                    use_type_invariant(sk);
                }
            },
            None => {},
        }
    }

    /// Issues the credential for `id` with the nonce `r`. A signature of zero
    /// is not issued.
    pub fn issue(key_pair: &KeyPair, id: u8, r: &Scalar) -> (issued: Result<
        Servicer,
        ProtocolError,
    >)
        ensures
            issued is Ok <==> service_signature(key_pair.secret_key().value(), id, r.value())
                != 0,
            issued matches Ok(c) ==> c.issued_by(*key_pair, id, r.value()) && c.is_bound(),
            issued matches Err(e) ==> e == ProtocolError::DegenerateScalar,
    {
        let R = Point::base_mul(r);
        let h = service_binding_hash(&R, id);
        let S = r.add(&h.mul(&key_pair.secret_key()));
        proof {
            use_type_invariant(key_pair);
            let s = key_pair.secret_key().value();
            lemma_mul_mod_reduce(h.value(), s);
            lemma_add_mod_reduce(r.value(), h.value() * s);
        }
        if S.is_zero() {
            return Err(ProtocolError::DegenerateScalar);
        }
        let issued = Servicer { id, R, S, PK: None, PKas: key_pair.public_key(), SK: None };
        issued.note_wf();
        Ok(issued)
    }

    /// The service's public point `R + PKas·H(R ‖ 0 ‖ id)`.
    pub fn derive_public_key(&self) -> (pk: Point)
        ensures
            pk.log() == self.key_log(),
    {
        let h = service_binding_hash(&self.R, self.id);
        self.R.add(&self.PKas.mul(&h))
    }

    /// Checks the credential as `is_valid` does, and gives the outcome as a
    /// result that cannot be passed over.
    pub fn validate(&mut self) -> (outcome: Result<(), ProtocolError>)
        ensures
            outcome is Ok <==> old(self).is_bound(),
            outcome matches Err(e) ==> e == ProtocolError::RegistrationInvalid,
            *final(self) == (Servicer { PK: final(self).PK, ..*old(self) }),
            final(self).PK is Some,
            final(self).PK->0.log() == old(self).key_log(),
    {
        if self.is_valid() {
            Ok(())
        } else {
            Err(ProtocolError::RegistrationInvalid)
        }
    }

    /// Checks the signature against the certificate and keeps the service's
    /// public point.
    #[must_use]
    pub fn is_valid(&mut self) -> (valid: bool)
        ensures
            valid == old(self).is_bound(),
            final(self).PK matches Some(pk) && pk.log() == old(self).key_log(),
            final(self).id == old(self).id,
            final(self).R == old(self).R,
            final(self).S == old(self).S,
            final(self).PKas == old(self).PKas,
            final(self).SK == old(self).SK,
            final(self).wf(),
    {
        let left = Point::base_mul(&self.S);
        let right = self.derive_public_key();
        self.PK = Some(right);
        self.note_wf();
        !self.S.is_zero() && left.is_same(&right)
    }

    /// Answers a request that stands, with the ephemeral secret `b`.
    fn respond(&mut self, req: &AuthRequest, b: &Scalar) -> (answered: Result<
        AuthResponse,
        ProtocolError,
    >)
        requires
            req.accepts(old(self).PKas),
        ensures
            answered is Ok <==> old(self).can_answer(*req, b.value()),
            answered matches Ok(res) ==> old(self).answers(*final(self), res, *req, b.value()),
            answered matches Err(e) ==> e == ProtocolError::DegenerateScalar,
            answered is Err ==> *final(self) == *old(self),
    {
        let B = Point::base_mul(b);
        let PKmu = req.calc_PKmu(&self.PKas);
        let K = req.A.mul(&self.S).add(&PKmu.mul(b));
        let SK = derive_session_key(&req.P, self.id, &K);
        proof {
            use_type_invariant(&K);
            use_type_invariant(&SK);
            K.lemma_log();
            SK.lemma_bytes();
        }
        if SK.is_zero() {
            return Err(ProtocolError::DegenerateScalar);
        }
        let Ver = derive_confirmation(&SK, &req.A);
        if Ver.is_zero() {
            return Err(ProtocolError::DegenerateScalar);
        }
        let PK = match self.PK {
            Some(pk) => pk,
            None => self.derive_public_key(),
        };
        self.PK = Some(PK);
        self.SK = Some(SK);
        let res = AuthResponse { Ver, B, id: self.id, R: self.R, PK };
        self.note_wf();
        res.note_wf();
        Ok(res)
    }

    /// Answers a request with the ephemeral secret `b`: checks the request,
    /// derives the session key and keeps it, and confirms it in the response.
    /// A request that does not stand is not answered, and the service stays as
    /// it was.
    pub fn authenticate(&mut self, req: &AuthRequest, b: &Scalar) -> (answered: Result<
        AuthResponse,
        ProtocolError,
    >)
        ensures
            answered is Ok <==> old(self).can_answer(*req, b.value()),
            answered matches Ok(res) ==> old(self).answers(*final(self), res, *req, b.value()),
            answered is Err ==> *final(self) == *old(self),
            answered matches Err(e) ==> (e == ProtocolError::RequestInvalid <==> !req.accepts(
                old(self).PKas,
            )),
            answered matches Err(e) ==> e == ProtocolError::RequestInvalid || e
                == ProtocolError::DegenerateScalar,
    {
        if !req.is_valid(&self.PKas) {
            return Err(ProtocolError::RequestInvalid);
        }
        self.respond(req, b)
    }

    /// Answers a request with an ephemeral secret drawn from `rng`. Where the
    /// session key or its tag comes out zero, the secret is drawn again.
    pub fn auth(&mut self, req: &AuthRequest, rng: &mut rand::rngs::StdRng) -> (answered: Result<
        AuthResponse,
        ProtocolError,
    >)
        ensures
            answered matches Ok(res) ==> res.B.log() != 0 && old(self).can_answer(
                *req,
                res.B.log(),
            ) && old(self).answers(*final(self), res, *req, res.B.log()),
            answered is Err ==> *final(self) == *old(self),
            answered matches Err(e) ==> (e == ProtocolError::RequestInvalid <==> !req.accepts(
                old(self).PKas,
            )),
            answered matches Err(e) ==> e == ProtocolError::RequestInvalid || e
                == ProtocolError::DegenerateScalar,
    {
        if !req.is_valid(&self.PKas) {
            return Err(ProtocolError::RequestInvalid);
        }
        let mut draws: usize = 0;
        while draws <= MAX_REDRAWS
            invariant
                *self == *old(self),
                req.accepts(self.PKas),
            decreases MAX_REDRAWS + 1 - draws,
        {
            let b = Scalar::sample(rng);
            match self.respond(req, &b) {
                Ok(res) => {
                    return Ok(res);
                },
                Err(_) => {},
            }
            draws += 1;
        }
        Err(ProtocolError::DegenerateScalar)
    }
}

} // verus!
