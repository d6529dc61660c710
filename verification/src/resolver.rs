//! Turning a request's `Authorization` header into a verified identity.
//! The header must carry exactly the `Bearer ` prefix; the remainder is
//! verified as a token, and the subject is then looked up by the caller's
//! store. Every failure, of any step, is the same `Unauthorized`: a client
//! cannot learn which check refused it.
use vstd::prelude::*;
use vstd::utf8::*;

use crate::auth::{spec_verify_outcome, AuthService, Claims};
use crate::errors::{build_unauth_err, AuthError};
use crate::models::{spec_satisfy, Role, User};
use crate::payload::match_at;
use crate::strings::{bytes_to_string, is_ascii_bytes};

verus! {

/// The bytes of `Bearer `, the one accepted (case-sensitive) scheme prefix.
pub open spec fn bearer_prefix() -> Seq<u8> {
    seq![66u8, 101u8, 97u8, 114u8, 101u8, 114u8, 32u8]
}

/// The token carried by a header value, if the header opens with exactly
/// the `Bearer ` prefix: what follows the prefix.
pub open spec fn bearer_token_of(h: Seq<u8>) -> Option<Seq<u8>> {
    if h.len() >= 7 && h.subrange(0, 7) == bearer_prefix() {
        Some(h.subrange(7, h.len() as int))
    } else {
        None
    }
}

fn bearer_prefix_vec() -> (r: Vec<u8>)
    ensures
        r@ == bearer_prefix(),
{
    let mut p: Vec<u8> = Vec::new();
    p.push(66);
    p.push(101);
    p.push(97);
    p.push(114);
    p.push(101);
    p.push(114);
    p.push(32);
    assert(p@ =~= bearer_prefix());
    p
}

/// Strip the bearer prefix from the header, if the header is there and
/// carries it; anything else is `Unauthorized`.
pub fn extract_bearer(header: Option<&Vec<u8>>) -> (r: Result<Vec<u8>, AuthError>)
    ensures
        header is None ==> r == Err::<Vec<u8>, AuthError>(AuthError::Unauthorized),
        header matches Some(h) ==> match bearer_token_of(h@) {
            Some(t) => r matches Ok(tv) && tv@ == t,
            None => r == Err::<Vec<u8>, AuthError>(AuthError::Unauthorized),
        },
{
    let h = match header {
        Some(h) => h,
        None => {
            return Err(build_unauth_err());
        },
    };
    if h.len() < 7 {
        return Err(build_unauth_err());
    }
    let pre = bearer_prefix_vec();
    if !match_at(h, 0, &pre) {
        return Err(build_unauth_err());
    }
    Ok(crate::bytes::sub_vec(h, 7, h.len()))
}

impl AuthService {
    /// Resolve a request's `Authorization` header to verified claims at
    /// time `now`. Accepted exactly when the header is present, opens with
    /// `Bearer `, and the remainder is a well-formed token under this
    /// service's secret that has not expired; every failure is the same
    /// `Unauthorized`.
    pub fn resolve_subject_at(&self, header: Option<&Vec<u8>>, now: u64) -> (r: Result<
        Claims,
        AuthError,
    >)
        ensures
            r matches Ok(c) ==> (header matches Some(h) && (bearer_token_of(h@) matches Some(t)
                && spec_verify_outcome(self.jwt_secret@, t, now) == Some(
                (encode_utf8(c.user_id@), c.exp),
            ))),
            r matches Err(e) ==> e == AuthError::Unauthorized,
            header is None ==> r is Err,
            header matches Some(h) ==> (bearer_token_of(h@) is None ==> r is Err),
            header matches Some(h) ==> (bearer_token_of(h@) matches Some(t) ==> (
            spec_verify_outcome(self.jwt_secret@, t, now) is None ==> r is Err)),
            header matches Some(h) ==> (bearer_token_of(h@) matches Some(t) ==> (valid_utf8(t)
                ==> (spec_verify_outcome(self.jwt_secret@, t, now) matches Some(pr) ==> (
            valid_utf8(pr.0) ==> r is Ok)))),
            header matches Some(h) ==> (bearer_token_of(h@) matches Some(t) ==> (!is_ascii_bytes(
                t,
            ) ==> r is Err)),
    {
        let tv = match extract_bearer(header) {
            Ok(tv) => tv,
            Err(e) => {
                return Err(e);
            },
        };
        let ghost gt = tv@;
        let token_str = match bytes_to_string(tv) {
            Some(s) => s,
            None => {
                return Err(build_unauth_err());
            },
        };
        proof {
            decode_utf8_encode_utf8(gt);
        }
        self.decode_token_at(token_str.as_str(), now)
    }

    /// Resolve a request's `Authorization` header against the clock.
    /// Returned claims are ones the carried token proves under this
    /// service's secret; every failure is the same `Unauthorized`.
    pub fn resolve_subject(&self, header: Option<&Vec<u8>>) -> (r: Result<Claims, AuthError>)
        ensures
            r matches Ok(c) ==> (header matches Some(h) && (bearer_token_of(h@) matches Some(t)
                && crate::auth::spec_decode(self.jwt_secret@, t) == Some(
                (encode_utf8(c.user_id@), c.exp),
            ))),
            r matches Err(e) ==> e == AuthError::Unauthorized,
            header is None ==> r is Err,
            header matches Some(h) ==> (bearer_token_of(h@) is None ==> r is Err),
    {
        let now = crate::auth::now_seconds();
        self.resolve_subject_at(header, now)
    }
}

/// The lookup collaborator's answer decides the last resolution step: a
/// found record passes through, an unknown subject is `Unauthorized`.
pub fn require_user(user: Option<User>) -> (r: Result<User, AuthError>)
    ensures
        user matches Some(u) ==> r matches Ok(ru) && ru == u,
        user is None ==> r == Err::<User, AuthError>(AuthError::Unauthorized),
{
    match user {
        Some(u) => Ok(u),
        None => Err(build_unauth_err()),
    }
}

/// Let a resolved identity through exactly when its role satisfies the
/// required one; a mismatch reads the same as any other resolution failure.
pub fn require_role(user: User, required: Role) -> (r: Result<User, AuthError>)
    ensures
        spec_satisfy(user.role, required) ==> (r matches Ok(u) && u == user),
        !spec_satisfy(user.role, required) ==> r == Err::<User, AuthError>(AuthError::Unauthorized),
{
    if user.role.satisfy(required) {
        Ok(user)
    } else {
        Err(build_unauth_err())
    }
}

} // verus!
