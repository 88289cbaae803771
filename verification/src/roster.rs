//! The growable list of users.

use crate::users::{new_user, Role, User};
use vstd::prelude::*;
use vstd::string::*;

verus! {

/// The list that a roster starts from: one ordinary user.
pub fn get_users() -> (users: Vec<User>)
    ensures
        users@.len() == 1,
        users@[0]@ == new_user("user"@, "user"@, "password"@, Role::User),
{
    let mut users: Vec<User> = Vec::new();
    users.push(User::new("user", "user", "password", Role::User));
    users
}

} // verus!
