//! What holds of the protocol as a whole.
use crate::auth::{AuthRequest, AuthResponse};
use crate::bytes::le_nat;
use crate::modular::{
    is_prime, lemma_add_mod_associates, lemma_mul_mod_associates, lemma_mul_mod_distributes,
    lemma_mul_mod_reduce, lemma_prime_order_cancels, mul_mod,
};
use crate::scalar::{group_order, Scalar};
use crate::servicer::Servicer;
use crate::user::{user_binding_message, Session, User};
use crate::utils::{sha256, KeyPair};
use vstd::arithmetic::div_mod::lemma_mod_pos_bound;
use vstd::prelude::*;

verus! {

/// A service's credential that a key pair issues is valid: its signature fits
/// its certificate under the key pair's public point.
pub proof fn lemma_issued_service_credential_is_valid(
    key_pair: KeyPair,
    id: u8,
    r: nat,
    c: Servicer,
)
    requires
        key_pair.wf(),
        c.issued_by(key_pair, id, r),
    ensures
        c.is_bound(),
{
    c.R.lemma_log();
    lemma_mul_mod_reduce(c.binding_hash(), key_pair.secret_key().value());
}

/// A user's credential that a key pair issues is valid: its signature fits its
/// certificate under the key pair's public point.
pub proof fn lemma_issued_user_credential_is_valid(
    key_pair: KeyPair,
    id: Seq<u8>,
    h: Seq<u8>,
    r: nat,
    u: User,
)
    requires
        key_pair.wf(),
        u.issued_by(key_pair, id, h, r),
    ensures
        u.is_bound(),
{
    u.R.lemma_log();
    u.PID.lemma_view();
    lemma_mul_mod_reduce(u.binding_hash(), key_pair.secret_key().value());
}

/// A valid service's credential whose signature scalar is changed is not
/// valid.
pub proof fn lemma_changed_service_signature_is_rejected(c: Servicer, S: Scalar)
    requires
        c.wf(),
        S.wf(),
        c.is_bound(),
        S != c.S,
    ensures
        !(Servicer { S, ..c }).is_bound(),
{
    if S.value() == c.S.value() {
        S.lemma_value_determines(c.S);
    }
}

/// A valid user's credential whose signature scalar is changed is not valid.
pub proof fn lemma_changed_user_signature_is_rejected(u: User, S: Scalar)
    requires
        u.wf(),
        S.wf(),
        u.is_bound(),
        S != u.S,
    ensures
        !(User { S, ..u }).is_bound(),
{
    if S.value() == u.S.value() {
        S.lemma_value_determines(u.S);
    }
}

/// The masked public point of a request that a valid user builds is the base
/// point's multiple by the blinded signature scalar: `R' + PKas·P == S'·G`.
pub proof fn lemma_masked_key_is_blinded_signature(
    user: User,
    req: AuthRequest,
    session: Session,
    ts: Seq<u8>,
    a: nat,
    c: nat,
)
    requires
        user.is_bound(),
        req.built_from(session, user, ts, a, c),
    ensures
        req.masked_key_log(user.PKas) == session.S_dash.value(),
{
    let r = user.R.log();
    let pk = user.PKas.log();
    let h = user.binding_hash();
    lemma_mul_mod_distributes(r, mul_mod(pk, h), c);
    lemma_mul_mod_associates(pk, h, c);
    lemma_mul_mod_reduce(h, c);
}

/// A request that a valid user builds stands under the authority's public
/// point that the user holds, and so under every copy of that point.
pub proof fn lemma_built_request_is_accepted(
    user: User,
    req: AuthRequest,
    session: Session,
    ts: Seq<u8>,
    a: nat,
    c: nat,
)
    requires
        user.is_bound(),
        req.built_from(session, user, ts, a, c),
    ensures
        req.accepts(user.PKas),
{
    lemma_masked_key_is_blinded_signature(user, req, session, ts, a, c);
    req.P.lemma_bytes();
    req.R_dash.lemma_log();
    req.A.lemma_log();
}

/// Key agreement. Where a valid user builds a request, and a valid service
/// under the same authority that holds no public point but its own answers
/// it, the user derives from the answer the session key that the service
/// keeps, and the answer confirms that key to the user.
pub proof fn lemma_key_agreement(
    user: User,
    service: Servicer,
    after: Servicer,
    req: AuthRequest,
    session: Session,
    res: AuthResponse,
    ts: Seq<u8>,
    a: nat,
    c: nat,
    b: nat,
)
    requires
        user.is_bound(),
        service.is_bound(),
        user.PKas == service.PKas,
        service.response_key_log() == service.key_log(),
        req.built_from(session, user, ts, a, c),
        service.can_answer(req, b),
        service.answers(after, res, req, b),
    ensures
        session.session_key(res) == service.session_key(req, b),
        session.accepts(res),
        after.SK->0.value() == session.session_key(res),
        res.confirms(after.SK->0, session.A),
{
    lemma_masked_key_is_blinded_signature(user, req, session, ts, a, c);
    let s_ws = service.S.value();
    let s_dash = session.S_dash.value();
    lemma_mul_mod_reduce(a, s_ws);
    lemma_mul_mod_reduce(s_dash, b);
    lemma_add_mod_associates(mul_mod(a, s_ws), mul_mod(s_dash, b), 0);
    assert(session.shared_log(res) == service.shared_log(req, b));
    after.SK->0.lemma_bytes();
}

/// Two requests that a user builds with different ephemeral secrets differ in
/// their ephemeral points.
pub proof fn lemma_fresh_secret_gives_fresh_point(
    user: User,
    req1: AuthRequest,
    session1: Session,
    ts1: Seq<u8>,
    a1: nat,
    c1: nat,
    req2: AuthRequest,
    session2: Session,
    ts2: Seq<u8>,
    a2: nat,
    c2: nat,
)
    requires
        req1.built_from(session1, user, ts1, a1, c1),
        req2.built_from(session2, user, ts2, a2, c2),
        a1 != a2,
    ensures
        req1.A != req2.A,
{
}

/// Two requests that a user builds with different blinding scalars differ in
/// their pseudo-session scalars, where the group order is prime.
pub proof fn lemma_fresh_blinding_gives_fresh_scalar(
    user: User,
    req1: AuthRequest,
    session1: Session,
    ts1: Seq<u8>,
    a1: nat,
    c1: nat,
    req2: AuthRequest,
    session2: Session,
    ts2: Seq<u8>,
    a2: nat,
    c2: nat,
)
    requires
        is_prime(group_order()),
        req1.built_from(session1, user, ts1, a1, c1),
        req2.built_from(session2, user, ts2, a2, c2),
        c1 < group_order(),
        c2 < group_order(),
        c1 != c2,
    ensures
        req1.P != req2.P,
{
    let h = user.binding_hash();
    lemma_mod_pos_bound(le_nat(sha256(user_binding_message(user.R@, user.PID@))) as int,
        group_order() as int);
    if h == 0 {
        assert(c1 * h == 0) by (nonlinear_arith)
            requires
                h == 0,
        ;
    }
    if req1.P.value() == req2.P.value() {
        lemma_prime_order_cancels(c1, c2, h);
    }
}

/// Two requests that a user builds with different blinding scalars differ in
/// their blinded certificate points, where the group order is prime and the
/// user's certificate point is not the point at infinity.
pub proof fn lemma_fresh_blinding_gives_fresh_certificate(
    user: User,
    req1: AuthRequest,
    session1: Session,
    ts1: Seq<u8>,
    a1: nat,
    c1: nat,
    req2: AuthRequest,
    session2: Session,
    ts2: Seq<u8>,
    a2: nat,
    c2: nat,
)
    requires
        is_prime(group_order()),
        user.R.wf(),
        user.R.log() != 0,
        req1.built_from(session1, user, ts1, a1, c1),
        req2.built_from(session2, user, ts2, a2, c2),
        c1 < group_order(),
        c2 < group_order(),
        c1 != c2,
    ensures
        req1.R_dash != req2.R_dash,
{
    user.R.lemma_log();
    if req1.R_dash.log() == req2.R_dash.log() {
        lemma_mul_mod_reduce(user.R.log(), c1);
        lemma_mul_mod_reduce(user.R.log(), c2);
        lemma_prime_order_cancels(c1, c2, user.R.log());
    }
}

/// A handshake leaves no trace that a later check could see: after an answer
/// the service accepts and answers the very requests that it accepted and
/// answered before, the answered one among them.
pub proof fn lemma_answer_keeps_acceptance(
    before: Servicer,
    after: Servicer,
    res: AuthResponse,
    answered: AuthRequest,
    b: nat,
    req: AuthRequest,
    b2: nat,
)
    requires
        before.answers(after, res, answered, b),
    ensures
        req.accepts(after.PKas) == req.accepts(before.PKas),
        after.can_answer(req, b2) == before.can_answer(req, b2),
{
}

} // verus!
