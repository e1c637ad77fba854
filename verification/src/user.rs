//! A plain record of a user account, and its builder.

use vstd::prelude::*;

verus! {

/// A user account: whether it is active, its names, and how often it has
/// signed in.
#[derive(Debug)]
pub struct User {
    pub active: bool,
    pub username: String,
    pub email: String,
    pub sign_in_count: u64,
}

/// Build an active user with the given email and username and a single
/// sign-in on record.
pub fn build_user(email: String, username: String) -> (u: User)
    ensures
        u.active == true,
        u.username == username,
        u.email == email,
        u.sign_in_count == 1,
{
    User { active: true, username, email, sign_in_count: 1 }
}

} // verus!
