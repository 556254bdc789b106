//! The credential of a user, and the user's side of the handshake.
use crate::auth::{
    challenge_hash, confirmation_hash, derive_session_key, session_key_hash, AuthRequest,
    AuthResponse,
};
use crate::bignat::{minimal_be, nat_xor, BigNat};
use crate::bytes::{append, be_nat, le_nat, pad_left, padded_left};
use crate::error::{ProtocolError, MAX_REDRAWS};
use crate::modular::{add_mod, lemma_add_mod_reduce, lemma_mul_mod_reduce, mul_mod};
use crate::point::{curve_point, Point};
use crate::scalar::{group_order, scalar_bytes, Scalar};
use crate::utils::{hash_scalar, hash_sha256, hash_to_scalar, sha256, KeyPair};
use vstd::prelude::*;

verus! {

/// The bytes whose digest masks a user's identity: the certificate point, a
/// zero byte, the authority's public point.
pub open spec fn mask_message(R: Seq<u8>, PK: Seq<u8>) -> Seq<u8> {
    R + seq![0u8] + PK
}

/// The pseudo-identity of a user: the identity, brought to the digest's 32
/// bytes, exclusive-or the digest of the mask message.
pub open spec fn pseudo_identity(id: Seq<u8>, R: Seq<u8>, PK: Seq<u8>) -> nat {
    nat_xor(be_nat(pad_left(id, 32)), le_nat(sha256(mask_message(R, PK))))
}

/// The bytes that bind a user's certificate point to the pseudo-identity: the
/// point, a zero byte, the pseudo-identity in 32 bytes.
pub open spec fn user_binding_message(R: Seq<u8>, PID: Seq<u8>) -> Seq<u8> {
    R + seq![0u8] + pad_left(PID, 32)
}

/// The signature scalar that an authority with the secret `s` issues for a
/// pseudo-identity with the nonce `r`: `r + H(r·G ‖ 0 ‖ PID)·s`.
pub open spec fn user_signature(s: nat, r: nat, PID: Seq<u8>) -> nat {
    add_mod(r, mul_mod(hash_scalar(user_binding_message(curve_point(r), PID)), s))
}

/// The password verifier: the hash of the password hash, in its shortest
/// little-endian form, and the signature scalar.
pub open spec fn password_verifier(h: Seq<u8>, S: Seq<u8>) -> nat {
    hash_scalar(h.reverse() + S)
}

/// The scalar `H(R ‖ 0 ‖ PID)` that binds a user's certificate point to the
/// pseudo-identity.
pub fn user_binding_hash(R: &Point, PID: &BigNat) -> (h: Scalar)
    ensures
        h.value() == hash_scalar(user_binding_message(R@, PID@)),
{
    let mut message = R.to_bytes();
    message.push(0u8);
    let pid = PID.to_bytes_be();
    let pid = padded_left(pid.as_slice(), 32);
    append(&mut message, pid.as_slice());
    assert(message@ =~= user_binding_message(R@, PID@));
    hash_to_scalar(message.as_slice())
}

/// What a user keeps of a handshake between the request and the response.
#[derive(Clone, Copy, Debug, PartialEq, Eq)]
pub struct Session {
    /// The ephemeral secret.
    pub a: Scalar,
    /// The ephemeral public point `a·G`.
    pub A: Point,
    /// The pseudo-session scalar.
    pub P: Scalar,
    /// The blinded signature scalar `c·S`.
    pub S_dash: Scalar,
}

impl Session {
    /// Whether the session's parts are well-formed.
    pub open spec fn wf(self) -> bool {
        &&& self.a.wf()
        &&& self.A.wf()
        &&& self.P.wf()
        &&& self.S_dash.wf()
    }

    /// A session at hand is well-formed: its scalars and its point are.
    pub(crate) fn note_wf(&self)
        ensures
            self.wf(),
    {
        proof {
            use_type_invariant(&self.a);
            use_type_invariant(&self.A);
            use_type_invariant(&self.P);
            use_type_invariant(&self.S_dash);
        }
    }

    /// The logarithm of the point `B·S' + PK·a` that the user shares with the
    /// service.
    pub open spec fn shared_log(self, res: AuthResponse) -> nat {
        add_mod(
            mul_mod(res.B.log(), self.S_dash.value()),
            mul_mod(res.PK.log(), self.a.value()),
        )
    }

    /// The session key that the user derives from a response.
    pub open spec fn session_key(self, res: AuthResponse) -> nat {
        session_key_hash(self.P@, res.id, curve_point(self.shared_log(res)))
    }

    /// Whether a response confirms the session key that the user derives from
    /// it.
    pub open spec fn confirmed_by(self, res: AuthResponse) -> bool {
        &&& res.Ver.value() != 0
        &&& res.Ver.value() == confirmation_hash(scalar_bytes(self.session_key(res)), self.A@)
    }

    /// Whether a response confirms the session key that the user derives from
    /// it, which is not zero.
    pub open spec fn accepts(self, res: AuthResponse) -> bool {
        self.session_key(res) != 0 && self.confirmed_by(res)
    }

    /// Derives the session key from a response and checks the response's tag
    /// against it. A key that is zero or that the tag does not confirm is not
    /// given out.
    pub fn finalize(&self, res: &AuthResponse) -> (key: Result<Scalar, ProtocolError>)
        ensures
            key is Ok <==> self.accepts(*res),
            key matches Ok(sk) ==> sk.value() == self.session_key(*res),
            key matches Err(e) ==> (e == ProtocolError::DegenerateScalar <==> self.session_key(*res)
                == 0),
            key matches Err(e) ==> (e == ProtocolError::ResponseInvalid <==> self.session_key(*res)
                != 0),
    {
        let K = res.B.mul(&self.S_dash).add(&res.PK.mul(&self.a));
        let SK = derive_session_key(&self.P, res.id, &K);
        proof {
            use_type_invariant(&SK);
            SK.lemma_bytes();
        }
        if SK.is_zero() {
            return Err(ProtocolError::DegenerateScalar);
        }
        if !res.is_valid(&SK, &self.A) {
            return Err(ProtocolError::ResponseInvalid);
        }
        Ok(SK)
    }
}

/// A user's credential, and what the user keeps of the handshake in flight.
#[derive(Debug, PartialEq, Eq)]
pub struct User {
    /// The user's identity.
    pub id: BigNat,
    /// The certificate point.
    pub R: Point,
    /// The signature scalar, which the user keeps to itself.
    pub S: Scalar,
    /// The pseudo-identity that hides the identity.
    pub PID: BigNat,
    /// The password verifier.
    pub PWV: Scalar,
    /// The authority's public point.
    pub PKas: Point,
    /// The user's public point, once it has been derived.
    pub PK: Option<Point>,
    /// The handshake in flight.
    pub session: Option<Session>,
    /// The session key of the last handshake that came to its end.
    pub SK: Option<Scalar>,
}

impl Clone for User {
    fn clone(&self) -> (copy: Self)
        ensures
            copy.id@ == self.id@,
            copy.R == self.R,
            copy.S == self.S,
            copy.PID@ == self.PID@,
            copy.PWV == self.PWV,
            copy.PKas == self.PKas,
            copy.PK == self.PK,
            copy.session == self.session,
            copy.SK == self.SK,
    {
        User {
            id: self.id.clone(),
            R: self.R,
            S: self.S,
            PID: self.PID.clone(),
            PWV: self.PWV,
            PKas: self.PKas,
            PK: self.PK,
            session: self.session,
            SK: self.SK,
        }
    }
}

impl User {
    /// Whether the credential's parts are well-formed.
    pub open spec fn wf(self) -> bool {
        &&& self.id.wf()
        &&& self.R.wf()
        &&& self.S.wf()
        &&& self.PID.wf()
        &&& self.PWV.wf()
        &&& self.PKas.wf()
        &&& self.PK matches Some(pk) ==> pk.wf()
        &&& self.session matches Some(session) ==> session.wf()
        &&& self.SK matches Some(sk) ==> sk.wf()
    }

    /// A credential at hand is well-formed: its numbers, scalars and points
    /// are.
    pub(crate) fn note_wf(&self)
        ensures
            self.wf(),
    {
        proof {
            use_type_invariant(&self.id);
            use_type_invariant(&self.R);
            use_type_invariant(&self.S);
            use_type_invariant(&self.PID);
            use_type_invariant(&self.PWV);
            use_type_invariant(&self.PKas);
        }
        match &self.PK {
            Some(pk) => {
                proof {
                    use_type_invariant(pk);
                }
            },
            None => {},
        }
        match &self.session {
            Some(session) => {
                session.note_wf();
            },
            None => {},
        }
        match &self.SK {
            Some(sk) => {
                proof {
                    use_type_invariant(sk);
                }
            },
            None => {},
        }
    }

    /// The scalar `H(R ‖ 0 ‖ PID)` that binds the certificate to the
    /// pseudo-identity.
    pub open spec fn binding_hash(self) -> nat {
        hash_scalar(user_binding_message(self.R@, self.PID@))
    }

    /// The logarithm of the user's public point `R + PKas·H(R ‖ 0 ‖ PID)`.
    pub open spec fn key_log(self) -> nat {
        add_mod(self.R.log(), mul_mod(self.PKas.log(), self.binding_hash()))
    }

    /// Whether the signature is not zero and fits the certificate:
    /// `S·G == R + PKas·H(R ‖ 0 ‖ PID)`.
    pub open spec fn is_bound(self) -> bool {
        &&& self.S.value() != 0
        &&& self.S.value() == self.key_log()
    }

    /// The pseudo-identity that the key pair issues for `id` with the nonce
    /// `r`.
    pub open spec fn issued_pseudo_identity(key_pair: KeyPair, id: Seq<u8>, r: nat) -> nat {
        pseudo_identity(id, curve_point(r), key_pair.public_key()@)
    }

    /// The signature scalar that the key pair issues for `id` with the nonce
    /// `r`.
    pub open spec fn issued_signature(key_pair: KeyPair, id: Seq<u8>, r: nat) -> nat {
        user_signature(
            key_pair.secret_key().value(),
            r,
            minimal_be(User::issued_pseudo_identity(key_pair, id, r)),
        )
    }

    /// The password verifier that the key pair issues for `id` and the
    /// password hash `h` with the nonce `r`.
    pub open spec fn issued_verifier(key_pair: KeyPair, id: Seq<u8>, h: Seq<u8>, r: nat) -> nat {
        password_verifier(h, scalar_bytes(User::issued_signature(key_pair, id, r)))
    }

    /// Whether the credential is the one that the key pair issues for `id` and
    /// the password hash `h` with the nonce `r`.
    pub open spec fn issued_by(self, key_pair: KeyPair, id: Seq<u8>, h: Seq<u8>, r: nat) -> bool {
        &&& self.wf()
        &&& self.id@ == id
        &&& self.R.log() == r
        &&& self.PID.value() == User::issued_pseudo_identity(key_pair, id, r)
        &&& self.S.value() == User::issued_signature(key_pair, id, r)
        &&& self.S.value() != 0
        &&& self.PWV.value() == User::issued_verifier(key_pair, id, h, r)
        &&& self.PWV.value() != 0
        &&& self.PKas == key_pair.public_key()
        &&& self.PK is None
        &&& self.session is None
        &&& self.SK is None
    }

    /// The pseudo-session scalar `c·H(R ‖ 0 ‖ PID)` of a request blinded by `c`.
    pub open spec fn request_P(self, c: nat) -> nat {
        mul_mod(c, self.binding_hash())
    }

    /// The logarithm of the blinded certificate point `c·R`.
    pub open spec fn request_R_dash_log(self, c: nat) -> nat {
        mul_mod(self.R.log(), c)
    }

    /// The blinded signature scalar `c·S`.
    pub open spec fn request_S_dash(self, c: nat) -> nat {
        mul_mod(self.S.value(), c)
    }

    /// The challenge of the request for the timestamp `ts` with the ephemeral
    /// secret `a`, blinded by `c`.
    pub open spec fn request_challenge(self, ts: Seq<u8>, a: nat, c: nat) -> nat {
        challenge_hash(
            scalar_bytes(self.request_P(c)),
            ts,
            curve_point(self.request_R_dash_log(c)),
            curve_point(a),
        )
    }

    /// The scalar `a + S'·challenge` that proves the request.
    pub open spec fn request_Ver(self, ts: Seq<u8>, a: nat, c: nat) -> nat {
        add_mod(a, mul_mod(self.request_S_dash(c), self.request_challenge(ts, a, c)))
    }

    /// Whether a request of this user with the ephemeral secret `a`, blinded
    /// by `c`, can be built: none of its scalars is zero.
    pub open spec fn can_request(self, ts: Seq<u8>, a: nat, c: nat) -> bool {
        &&& self.request_P(c) != 0
        &&& self.request_S_dash(c) != 0
        &&& self.request_Ver(ts, a, c) != 0
    }

    /// Whether a request and a session are those that the user builds for the
    /// timestamp `ts` with the session's ephemeral secret, which is not zero,
    /// blinded by some scalar that is not zero.
    pub open spec fn has_built(self, req: AuthRequest, session: Session, ts: Seq<u8>) -> bool {
        &&& session.a.value() != 0
        &&& exists|c: nat|
            0 < c < group_order() && #[trigger] req.built_from(
                session,
                self,
                ts,
                session.a.value(),
                c,
            ) && self.can_request(ts, session.a.value(), c)
    }

    /// Whether a handshake is in flight and a response confirms the session
    /// key that the user derives from it, which is not zero.
    pub open spec fn agrees_with(self, res: AuthResponse) -> bool {
        self.session matches Some(session) && session.accepts(res)
    }

    /// Whether a handshake is in flight and the session key that the user
    /// derives from a response is zero.
    pub open spec fn derives_zero_key(self, res: AuthResponse) -> bool {
        self.session matches Some(session) && session.session_key(res) == 0
    }

    /// Issues the credential for `id` and the password hash `h` with the nonce
    /// `r`. A signature or a password verifier of zero is not issued.
    pub fn issue(key_pair: &KeyPair, id: &BigNat, h: &BigNat, r: &Scalar) -> (issued: Result<
        User,
        ProtocolError,
    >)
        ensures
            issued is Ok <==> User::issued_signature(*key_pair, id@, r.value()) != 0
                && User::issued_verifier(*key_pair, id@, h@, r.value()) != 0,
            issued matches Ok(u) ==> u.issued_by(*key_pair, id@, h@, r.value()) && u.is_bound(),
            issued matches Err(e) ==> e == ProtocolError::DegenerateScalar,
    {
        let PKas = key_pair.public_key();
        let R = Point::base_mul(r);
        let mut message = R.to_bytes();
        message.push(0u8);
        let pk = PKas.to_bytes();
        append(&mut message, pk.as_slice());
        assert(message@ =~= mask_message(R@, PKas@));
        let mask = hash_sha256(message.as_slice());
        let id_bytes = id.to_bytes_be();
        let id_bytes = padded_left(id_bytes.as_slice(), 32);
        let PID = BigNat::from_bytes_be(id_bytes.as_slice()).xor(&mask);
        let hash = user_binding_hash(&R, &PID);
        let S = r.add(&hash.mul(&key_pair.secret_key()));
        proof {
            use_type_invariant(key_pair);
            use_type_invariant(&PID);
            use_type_invariant(&S);
            PID.lemma_view();
            S.lemma_bytes();
            let s = key_pair.secret_key().value();
            lemma_mul_mod_reduce(hash.value(), s);
            lemma_add_mod_reduce(r.value(), hash.value() * s);
        }
        if S.is_zero() {
            return Err(ProtocolError::DegenerateScalar);
        }
        let mut password = h.to_bytes_le();
        let s_bytes = S.to_bytes();
        append(&mut password, s_bytes.as_slice());
        let PWV = hash_to_scalar(password.as_slice());
        if PWV.is_zero() {
            return Err(ProtocolError::DegenerateScalar);
        }
        let issued =
            User { id: id.clone(), R, S, PID, PWV, PKas, PK: None, session: None, SK: None };
        issued.note_wf();
        Ok(issued)
    }

    /// The user's public point `R + PKas·H(R ‖ 0 ‖ PID)`.
    pub fn derive_public_key(&self) -> (pk: Point)
        ensures
            pk.log() == self.key_log(),
    {
        let h = user_binding_hash(&self.R, &self.PID);
        self.R.add(&self.PKas.mul(&h))
    }

    /// Checks the credential as `is_valid` does, and gives the outcome as a
    /// result that cannot be passed over.
    pub fn validate(&mut self) -> (outcome: Result<(), ProtocolError>)
        ensures
            outcome is Ok <==> old(self).is_bound(),
            outcome matches Err(e) ==> e == ProtocolError::RegistrationInvalid,
            *final(self) == (User { PK: final(self).PK, ..*old(self) }),
            final(self).PK is Some,
            final(self).PK->0.log() == old(self).key_log(),
    {
        if self.is_valid() {
            Ok(())
        } else {
            Err(ProtocolError::RegistrationInvalid)
        }
    }

    /// Checks the signature against the certificate and keeps the user's
    /// public point.
    #[must_use]
    pub fn is_valid(&mut self) -> (valid: bool)
        ensures
            valid == old(self).is_bound(),
            final(self).PK matches Some(pk) && pk.log() == old(self).key_log(),
            final(self).id == old(self).id,
            final(self).R == old(self).R,
            final(self).S == old(self).S,
            final(self).PID == old(self).PID,
            final(self).PWV == old(self).PWV,
            final(self).PKas == old(self).PKas,
            final(self).session == old(self).session,
            final(self).SK == old(self).SK,
            final(self).wf(),
    {
        let left = Point::base_mul(&self.S);
        let right = self.derive_public_key();
        self.PK = Some(right);
        self.note_wf();
        !self.S.is_zero() && left.is_same(&right)
    }

    /// Opens a handshake: draws an ephemeral secret from `rng1` and a blinding
    /// scalar from `rng2`, builds the request for the timestamp `ts` and keeps
    /// the session. Where a scalar of the request comes out zero, both are
    /// drawn again.
    pub fn generate_auth_request(
        &mut self,
        ts: &BigNat,
        rng1: &mut rand::rngs::StdRng,
        rng2: &mut rand::rngs::StdRng,
    ) -> (built: Result<AuthRequest, ProtocolError>)
        ensures
            built matches Ok(req) ==> (final(self).session matches Some(session) && old(
                self,
            ).has_built(req, session, ts@)),
            built matches Err(e) ==> e == ProtocolError::DegenerateScalar && final(self).session
                == old(self).session,
            old(self).S.value() == 0 || old(self).binding_hash() == 0 ==> built is Err,
            final(self).id == old(self).id,
            final(self).R == old(self).R,
            final(self).S == old(self).S,
            final(self).PID == old(self).PID,
            final(self).PWV == old(self).PWV,
            final(self).PKas == old(self).PKas,
            final(self).PK == old(self).PK,
            final(self).SK == old(self).SK,
            final(self).wf(),
    {
        self.note_wf();
        let mut draws: usize = 0;
        while draws <= MAX_REDRAWS
            invariant
                *self == *old(self),
                self.wf(),
            decreases MAX_REDRAWS + 1 - draws,
        {
            let a = Scalar::sample(rng1);
            let c = Scalar::sample(rng2);
            proof {
                use_type_invariant(&c);
            }
            match AuthRequest::generate(self, ts, &a, &c) {
                Ok((request, session)) => {
                    proof {
                        assert(request.built_from(
                            session,
                            *old(self),
                            ts@,
                            session.a.value(),
                            c.value(),
                        ));
                        assert(old(self).has_built(request, session, ts@));
                        lemma_mul_mod_reduce(c.value(), old(self).binding_hash());
                        assert(0 * c.value() == 0 && c.value() * 0 == 0);
                    }
                    self.session = Some(session);
                    return Ok(request);
                },
                Err(_) => {},
            }
            draws += 1;
        }
        Err(ProtocolError::DegenerateScalar)
    }

    /// Closes the handshake in flight with the service's response: derives the
    /// session key, checks the response's tag against it and keeps the key
    /// only if the tag confirms it.
    pub fn calc_session_key(&mut self, res: &AuthResponse) -> (outcome: Result<(), ProtocolError>)
        ensures
            outcome is Ok <==> old(self).agrees_with(*res),
            outcome is Ok ==> (final(self).SK matches Some(sk) && sk.value() == old(
                self,
            ).session->0.session_key(*res)),
            outcome is Err ==> final(self).SK is None,
            outcome matches Err(e) ==> (e == ProtocolError::DegenerateScalar <==> old(
                self,
            ).derives_zero_key(*res)),
            outcome matches Err(e) ==> e == ProtocolError::DegenerateScalar || e
                == ProtocolError::ResponseInvalid,
            final(self).id == old(self).id,
            final(self).R == old(self).R,
            final(self).S == old(self).S,
            final(self).PID == old(self).PID,
            final(self).PWV == old(self).PWV,
            final(self).PKas == old(self).PKas,
            final(self).PK == old(self).PK,
            final(self).session == old(self).session,
            final(self).wf(),
    {
        self.SK = None;
        self.note_wf();
        let session = match self.session {
            Some(session) => session,
            None => {
                return Err(ProtocolError::ResponseInvalid);
            },
        };
        match session.finalize(res) {
            Ok(SK) => {
                self.SK = Some(SK);
                self.note_wf();
                Ok(())
            },
            Err(e) => Err(e),
        }
    }
}

} // verus!
