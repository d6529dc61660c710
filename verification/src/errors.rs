//! The error taxonomy of the authentication subsystem. Every failure inside
//! resolution and login collapses to `Unauthorized` on purpose: a caller
//! (and so a client) cannot tell a bad signature from an unknown user.
use vstd::prelude::*;

verus! {

/// `Unauthorized` maps to HTTP 401 at the boundary, `Internal` to 500.
#[derive(Clone, Copy, Debug, PartialEq, Eq, Structural)]
pub enum AuthError {
    Unauthorized,
    Internal,
}

/// The one error every authentication failure is reported as.
pub fn build_unauth_err() -> (e: AuthError)
    ensures
        e == AuthError::Unauthorized,
{
    AuthError::Unauthorized
}

/// The error for signing and storage faults.
pub fn build_generic_err() -> (e: AuthError)
    ensures
        e == AuthError::Internal,
{
    AuthError::Internal
}

} // verus!
