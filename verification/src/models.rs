//! The data the authentication subsystem works on: user records, stored
//! credentials, posts, and the two-level role order.
use vstd::prelude::*;

verus! {

/// Access tier of an identity. `User < Admin` is the whole hierarchy.
#[derive(Clone, Copy, Debug, PartialEq, Eq, Structural)]
pub enum Role {
    User,
    Admin,
}

/// Rank of a role in the total order that access decisions compare by.
pub open spec fn role_rank(r: Role) -> nat {
    match r {
        Role::User => 0,
        Role::Admin => 1,
    }
}

/// What `Role::satisfy` decides: the minimum tier admits everyone,
/// the admin tier admits only admins.
pub open spec fn spec_satisfy(actual: Role, required: Role) -> bool {
    match required {
        Role::User => true,
        Role::Admin => actual == Role::Admin,
    }
}

impl Role {
    /// Does this role meet the `another` requirement?
    pub fn satisfy(&self, another: Role) -> (r: bool)
        ensures
            r == spec_satisfy(*self, another),
    {
        if another == Role::Admin {
            return *self == Role::Admin;
        }
        true
    }
}

/// The two-level policy is exactly a rank comparison, so a richer role set
/// can generalize `satisfy` to `role_rank(actual) >= role_rank(required)`.
pub proof fn lemma_satisfy_is_rank_order(actual: Role, required: Role)
    ensures
        spec_satisfy(actual, required) == (role_rank(actual) >= role_rank(required)),
{
}

/// An authenticated-user record. Owned by the persistence layer; this
/// subsystem only reads it.
#[derive(Debug, Clone)]
pub struct User {
    pub _id: String,
    pub role: Role,
    pub email: String,
}

/// The stored password-hash record linked to a `User` by `user_id`.
/// Never exposed outside the credential flow.
#[derive(Debug, Clone)]
pub struct UserAuth {
    pub _id: String,
    pub user_id: String,
    pub password_hash: String,
}

/// A stored post; carried through untouched by the auth layer.
#[derive(Debug, Clone)]
pub struct Post {
    pub _id: String,
    pub title: String,
    pub content: String,
    pub user_id: String,
}

/// What a post-creation request carries; the author comes from the
/// resolved identity, never from the request body.
pub struct CreatePostData {
    pub title: String,
    pub content: String,
}

} // verus!
