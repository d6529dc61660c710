//! The decisions of registration and login. The document store itself is a
//! collaborator: the caller performs each insert or lookup and hands its
//! answer to these functions, which build the records, derive the stored
//! digest, and decide the outcome. Login failures all collapse to
//! `Unauthorized`, so an unknown email reads exactly like a wrong password;
//! registration's storage faults surface as `Internal`.
use vstd::prelude::*;
use vstd::string::StringSliceAdditionalSpecFns;

use crate::auth::{hash_hex_of, AuthService};
use crate::errors::{build_generic_err, build_unauth_err, AuthError};
use crate::models::{Role, User, UserAuth};

verus! {

/// What a registration request carries; a login presents the same pair.
pub struct CreateUserData {
    pub email: String,
    pub password: String,
}

/// The identity record a registration creates: the given id and email, at
/// the minimum role.
pub fn new_user(id: String, email: String) -> (u: User)
    ensures
        u._id == id,
        u.email == email,
        u.role == Role::User,
{
    User { _id: id, role: Role::User, email }
}

impl AuthService {
    /// The credential record linked to a freshly created identity: it
    /// stores the digest of the password, never the password itself.
    pub fn new_user_auth(&self, id: String, user_id: String, password: &str) -> (a: UserAuth)
        ensures
            a._id == id,
            a.user_id == user_id,
            a.password_hash@ == hash_hex_of(password.spec_bytes(), self.hash_salt@),
    {
        let password_hash = self.generate_hash(password);
        UserAuth { _id: id, user_id, password_hash }
    }
}

/// The store's answer to a credential lookup decides a login: a record
/// matching the identity and digest lets the identity through, no record
/// is the same `Unauthorized` an unknown email gives.
pub fn require_credential(user: User, credential: Option<UserAuth>) -> (r: Result<User, AuthError>)
    ensures
        credential is Some ==> (r matches Ok(u) && u == user),
        credential is None ==> r == Err::<User, AuthError>(AuthError::Unauthorized),
{
    match credential {
        Some(_) => Ok(user),
        None => Err(build_unauth_err()),
    }
}

/// The reload that ends a registration: the persisted identity passes
/// through, a record that cannot be read back is a storage fault.
pub fn require_created(reloaded: Option<User>) -> (r: Result<User, AuthError>)
    ensures
        reloaded matches Some(u) ==> (r matches Ok(ru) && ru == u),
        reloaded is None ==> r == Err::<User, AuthError>(AuthError::Internal),
{
    match reloaded {
        Some(u) => Ok(u),
        None => Err(build_generic_err()),
    }
}

} // verus!
