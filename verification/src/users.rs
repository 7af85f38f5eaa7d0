//! Accounts of users.

use vstd::prelude::*;

verus! {

/// The account of a user.
pub struct User {
    pub active: bool,
    pub username: String,
    pub email: String,
    pub sign_in_count: u64,
}

/// The account of a new user: active, and signed in once.
pub fn build_user(email: String, username: String) -> (user: User)
    ensures
        user.active,
        user.username == username,
        user.email == email,
        user.sign_in_count == 1,
{
    User { active: true, username, email, sign_in_count: 1 }
}

} // verus!
