//! The two messages of the handshake and the checks made on them.
use crate::bignat::BigNat;
use crate::bytes::append;
use crate::error::ProtocolError;
use crate::modular::{add_mod, lemma_add_mod_reduce, lemma_mul_mod_reduce, mul_mod};
use crate::point::Point;
use crate::scalar::Scalar;
use crate::user::{user_binding_hash, Session, User};
use crate::utils::{hash_scalar, hash_to_scalar};
use vstd::prelude::*;

verus! {

/// The scalar that a request is challenged with: the hash of the
/// pseudo-session scalar, the timestamp, the blinded certificate point and the
/// ephemeral point, in this order.
pub open spec fn challenge_hash(P: Seq<u8>, ts: Seq<u8>, R_dash: Seq<u8>, A: Seq<u8>) -> nat {
    hash_scalar(P + ts + R_dash + A)
}

/// The session key: the hash of the pseudo-session scalar, the service's
/// identifier and the shared point, in this order.
pub open spec fn session_key_hash(P: Seq<u8>, id: u8, K: Seq<u8>) -> nat {
    hash_scalar(P + seq![id] + K)
}

/// The tag that confirms a session key: the hash of the key and the user's
/// ephemeral point.
pub open spec fn confirmation_hash(SK: Seq<u8>, A: Seq<u8>) -> nat {
    hash_scalar(SK + A)
}

/// The scalar that a request with these parts is challenged with.
pub fn derive_challenge(P: &Scalar, ts: &BigNat, R_dash: &Point, A: &Point) -> (h: Scalar)
    ensures
        h.value() == challenge_hash(P@, ts@, R_dash@, A@),
{
    let mut message = P.to_bytes();
    let ts = ts.to_bytes_be();
    let r = R_dash.to_bytes();
    let a = A.to_bytes();
    append(&mut message, ts.as_slice());
    append(&mut message, r.as_slice());
    append(&mut message, a.as_slice());
    hash_to_scalar(message.as_slice())
}

/// The session key for a pseudo-session scalar, a service and a shared point.
pub fn derive_session_key(P: &Scalar, id: u8, K: &Point) -> (sk: Scalar)
    ensures
        sk.value() == session_key_hash(P@, id, K@),
{
    let mut message = P.to_bytes();
    message.push(id);
    let k = K.to_bytes();
    append(&mut message, k.as_slice());
    assert(message@ =~= P@ + seq![id] + K@);
    hash_to_scalar(message.as_slice())
}

/// The tag that confirms the session key `SK` to the owner of `A`.
pub fn derive_confirmation(SK: &Scalar, A: &Point) -> (tag: Scalar)
    ensures
        tag.value() == confirmation_hash(SK@, A@),
{
    let mut message = SK.to_bytes();
    let a = A.to_bytes();
    append(&mut message, a.as_slice());
    hash_to_scalar(message.as_slice())
}

/// What a user sends to a service to open a handshake.
#[derive(Debug, PartialEq, Eq)]
pub struct AuthRequest {
    /// The pseudo-session scalar `c·H(R ‖ 0 ‖ PID)`.
    pub P: Scalar,
    /// The blinded certificate point `c·R`.
    pub R_dash: Point,
    /// The ephemeral public point `a·G`.
    pub A: Point,
    /// The timestamp.
    pub ts: BigNat,
    /// The scalar `a + S'·challenge` that proves the request.
    pub Ver: Scalar,
}

/// What a service answers.
#[derive(Clone, Copy, Debug, PartialEq, Eq)]
pub struct AuthResponse {
    /// The tag that confirms the session key.
    pub Ver: Scalar,
    /// The service's ephemeral public point `b·G`.
    pub B: Point,
    /// The service's identifier.
    pub id: u8,
    /// The service's certificate point.
    pub R: Point,
    /// The service's public point.
    pub PK: Point,
}

impl Clone for AuthRequest {
    fn clone(&self) -> (copy: Self)
        ensures
            copy.P == self.P,
            copy.R_dash == self.R_dash,
            copy.A == self.A,
            copy.ts@ == self.ts@,
            copy.Ver == self.Ver,
    {
        AuthRequest {
            P: self.P,
            R_dash: self.R_dash,
            A: self.A,
            ts: self.ts.clone(),
            Ver: self.Ver,
        }
    }
}

impl AuthRequest {
    /// Whether the request's parts are well-formed.
    pub open spec fn wf(self) -> bool {
        &&& self.P.wf()
        &&& self.R_dash.wf()
        &&& self.A.wf()
        &&& self.ts.wf()
        &&& self.Ver.wf()
    }

    /// A request at hand is well-formed: its scalars, points and timestamp
    /// are.
    pub(crate) fn note_wf(&self)
        ensures
            self.wf(),
    {
        proof {
            use_type_invariant(&self.P);
            use_type_invariant(&self.R_dash);
            use_type_invariant(&self.A);
            use_type_invariant(&self.ts);
            use_type_invariant(&self.Ver);
        }
    }

    /// The scalar that the request is challenged with.
    pub open spec fn challenge(self) -> nat {
        challenge_hash(self.P@, self.ts@, self.R_dash@, self.A@)
    }

    /// The logarithm of the user's masked public point `R' + PKas·P`.
    pub open spec fn masked_key_log(self, PKas: Point) -> nat {
        add_mod(self.R_dash.log(), mul_mod(PKas.log(), self.P.value()))
    }

    /// Whether the request stands under the authority's public point:
    /// neither `P` nor `Ver` is zero, and
    /// `Ver·G == A + (R' + PKas·P)·challenge`.
    pub open spec fn accepts(self, PKas: Point) -> bool {
        &&& self.P.value() != 0
        &&& self.Ver.value() != 0
        &&& self.Ver.value() == add_mod(
            self.A.log(),
            mul_mod(self.masked_key_log(PKas), self.challenge()),
        )
    }

    /// Whether the request and the session are those that `user` builds for
    /// the timestamp `ts` with the ephemeral secret `a`, blinded by `c`.
    pub open spec fn built_from(
        self,
        session: Session,
        user: User,
        ts: Seq<u8>,
        a: nat,
        c: nat,
    ) -> bool {
        &&& self.wf()
        &&& session.wf()
        &&& self.ts@ == ts
        &&& self.A.log() == a
        &&& self.P.value() == user.request_P(c)
        &&& self.P.value() != 0
        &&& self.R_dash.log() == user.request_R_dash_log(c)
        &&& self.Ver.value() == user.request_Ver(ts, a, c)
        &&& self.Ver.value() != 0
        &&& session.a.value() == a
        &&& session.A == self.A
        &&& session.P == self.P
        &&& session.S_dash.value() == user.request_S_dash(c)
    }

    /// Builds the request of `user` for the timestamp `ts` with the ephemeral
    /// secret `a`, blinded by `c`, and the session that awaits the response.
    /// No request is built where one of its scalars would be zero.
    pub fn generate(user: &User, ts: &BigNat, a: &Scalar, c: &Scalar) -> (built: Result<
        (AuthRequest, Session),
        ProtocolError,
    >)
        ensures
            built is Ok <==> user.can_request(ts@, a.value(), c.value()),
            built matches Ok((req, session)) ==> req.built_from(
                session,
                *user,
                ts@,
                a.value(),
                c.value(),
            ),
            built matches Err(e) ==> e == ProtocolError::DegenerateScalar,
    {
        let A = Point::base_mul(a);
        let hash = user_binding_hash(&user.R, &user.PID);
        let P = c.mul(&hash);
        if P.is_zero() {
            return Err(ProtocolError::DegenerateScalar);
        }
        let R_dash = user.R.mul(c);
        let S_dash = user.S.mul(c);
        if S_dash.is_zero() {
            return Err(ProtocolError::DegenerateScalar);
        }
        let H = derive_challenge(&P, ts, &R_dash, &A);
        let Ver = a.add(&S_dash.mul(&H));
        proof {
            use_type_invariant(&P);
            use_type_invariant(&R_dash);
            use_type_invariant(&A);
            use_type_invariant(a);
            P.lemma_bytes();
            R_dash.lemma_log();
            A.lemma_log();
            lemma_mul_mod_reduce(S_dash.value(), H.value());
            lemma_add_mod_reduce(a.value(), S_dash.value() * H.value());
        }
        if Ver.is_zero() {
            return Err(ProtocolError::DegenerateScalar);
        }
        let request = AuthRequest { P, R_dash, A, ts: ts.clone(), Ver };
        let session = Session { a: *a, A, P, S_dash };
        request.note_wf();
        session.note_wf();
        Ok((request, session))
    }

    /// The user's masked public point `R' + PKas·P`.
    pub fn calc_PKmu(&self, PKas: &Point) -> (PKmu: Point)
        ensures
            PKmu.log() == self.masked_key_log(*PKas),
    {
        self.R_dash.add(&PKas.mul(&self.P))
    }

    /// Checks the request against the authority's public point. A request
    /// whose `P` or `Ver` is zero does not stand, whatever else it holds.
    #[must_use]
    pub fn is_valid(&self, PKas: &Point) -> (valid: bool)
        ensures
            valid == self.accepts(*PKas),
    {
        if self.P.is_zero() || self.Ver.is_zero() {
            return false;
        }
        let PKmu = self.calc_PKmu(PKas);
        let Hmu = derive_challenge(&self.P, &self.ts, &self.R_dash, &self.A);
        let left = Point::base_mul(&self.Ver);
        let right = self.A.add(&PKmu.mul(&Hmu));
        left.is_same(&right)
    }
}

impl AuthResponse {
    /// Whether the response's parts are well-formed.
    pub open spec fn wf(self) -> bool {
        &&& self.Ver.wf()
        &&& self.B.wf()
        &&& self.R.wf()
        &&& self.PK.wf()
    }

    /// A response at hand is well-formed: its scalar and points are.
    pub(crate) fn note_wf(&self)
        ensures
            self.wf(),
    {
        proof {
            use_type_invariant(&self.Ver);
            use_type_invariant(&self.B);
            use_type_invariant(&self.R);
            use_type_invariant(&self.PK);
        }
    }

    /// Whether the response confirms the session key `SK` to the owner of
    /// `A`: its tag is not zero and is the hash of the key and the point.
    pub open spec fn confirms(self, SK: Scalar, A: Point) -> bool {
        &&& self.Ver.value() != 0
        &&& self.Ver.value() == confirmation_hash(SK@, A@)
    }

    /// Checks the response's tag against a session key.
    #[must_use]
    pub fn is_valid(&self, SK: &Scalar, A: &Point) -> (valid: bool)
        ensures
            valid == self.confirms(*SK, *A),
    {
        let tag = derive_confirmation(SK, A);
        !self.Ver.is_zero() && self.Ver.is_same(&tag)
    }
}

} // verus!
