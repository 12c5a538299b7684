//! User accounts.

use vstd::prelude::*;

verus! {

/// The account of a user.
pub struct User {
    pub is_active: bool,
    pub username: String,
    pub password: String,
    pub login_count: u64,
}

/// A colour, by its red, green and blue parts.
pub struct Color(pub i32, pub i32, pub i32);

/// A point in space, by its three coordinates.
pub struct Point(pub i32, pub i32, pub i32);

/// A value without content.
pub struct AlwaysEqual;

/// The account with the given state, name, password and number of logins.
pub fn create_user(
    new_active: bool,
    new_user: String,
    new_password: String,
    new_login_count: u64,
) -> (user: User)
    ensures
        user.is_active == new_active,
        user.username@ == new_user@,
        user.password@ == new_password@,
        user.login_count == new_login_count,
{
    User {
        is_active: new_active,
        username: new_user,
        password: new_password,
        login_count: new_login_count,
    }
}

/// The account of a user who has just logged in for the first time: it is
/// active and counts one login.
pub fn create_user_two(password: String, username: String) -> (user: User)
    ensures
        user.is_active,
        user.username@ == username@,
        user.password@ == password@,
        user.login_count == 1,
{
    User { is_active: true, username, password, login_count: 1 }
}

} // verus!
