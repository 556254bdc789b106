//! Three-party certificateless authenticated key agreement over secp256k1.
//!
//! An authority issues identity-bound credentials to services and users; a user
//! and a service then run a handshake that authenticates both and leaves them
//! with one session key, without the authority taking part.
//!
//! The steps are `Authority::random`, then `register_servicer` and
//! `register_user`, then `User::generate_auth_request`, `Servicer::auth` and
//! `User::calc_session_key`. Each step that draws secrets has a counterpart
//! that takes them as arguments and says exactly what it gives: `Servicer::issue`,
//! `User::issue`, `AuthRequest::generate`, `Servicer::authenticate`.
//!
//! Scalars are modelled as numbers below the group order, and points by their
//! logarithms to the base point, so that the protocol's equations are equations
//! modulo the group order; `laws` proves from them that issued credentials are
//! valid, that requests of valid users stand, and that both sides of a
//! handshake derive one key.
//!
//! Group arithmetic is `k256`'s, the digest is `sha2`'s, and the exclusive or of
//! big numbers is `num_bigint`'s: what is taken on trust of them is said where
//! they are called, in `scalar`, `point`, `utils` and `bignat`.
#![allow(non_snake_case)]

pub mod auth;
pub mod authenticator;
pub mod authority;
pub mod bignat;
pub mod bytes;
pub mod error;
pub mod laws;
pub mod modular;
pub mod point;
pub mod scalar;
pub mod servicer;
pub mod user;
pub mod utils;
