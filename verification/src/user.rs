//! A user record and its builder.

use vstd::prelude::*;

verus! {

/// An account: who it belongs to and how to reach them.
pub struct User {
    pub username: String,
    pub email: String,
    pub id: usize,
}

/// Builds a user from its parts, each stored unchanged.
pub fn build_user(email: String, username: String, id: usize) -> (u: User)
    ensures
        u.email == email,
        u.username == username,
        u.id == id,
{
    User { email, username, id }
}

} // verus!
