//! The ways in which a registration or a handshake ends without a result.
use vstd::prelude::*;

verus! {

/// Why a step of the protocol gave no result.
#[derive(Clone, Copy, Debug, PartialEq, Eq, Structural)]
pub enum ProtocolError {
    /// A credential failed its own binding check: it was forged or changed.
    RegistrationInvalid,
    /// An authentication request failed its check: the service goes no further.
    RequestInvalid,
    /// An authentication response failed its check: the user's session key is
    /// dropped.
    ResponseInvalid,
    /// A scalar that must not be zero came out zero: the step is to be taken
    /// again with fresh randomness.
    DegenerateScalar,
}

/// How many times a step that ended in a zero scalar is taken again with fresh
/// randomness before it gives up.
pub const MAX_REDRAWS: usize = 16;

} // verus!
