//! A user account record.

use vstd::prelude::*;
use vstd::string::StringExecFns;
use crate::text::{bool_text, decimal, push_bool, push_decimal};

verus! {

/// An account: its name, its email address, how often it signed in and
/// whether it is active.
pub struct User {
    pub username: String,
    pub email: String,
    pub sign_in_count: u64,
    pub active: bool,
}

/// The text of a user, as `User::to_string` gives it.
pub open spec fn user_text(u: User) -> Seq<char> {
    "email "@ + u.email@ + ", username "@ + u.username@ + ", sign in count "@ + decimal(
        u.sign_in_count as nat,
    ) + ", active "@ + bool_text(u.active)
}

/// A new active user who has signed in once.
pub fn build_user(email: String, username: String) -> (r: User)
    ensures
        r.email == email,
        r.username == username,
        r.active,
        r.sign_in_count == 1,
{
    User { email, username, active: true, sign_in_count: 1 }
}

impl User {
    /// A user with every field given.
    pub fn new(email: String, username: String, sign_in_count: u64, active: bool) -> (r: Self)
        ensures
            r.email == email,
            r.username == username,
            r.sign_in_count == sign_in_count,
            r.active == active,
    {
        Self { email, username, sign_in_count, active }
    }

    /// `email E, username U, sign in count N, active A`.
    pub fn to_string(&self) -> (r: String)
        ensures
            r@ == user_text(*self),
    {
        let mut s = String::from_str("email ");
        s.append(self.email.as_str());
        s.append(", username ");
        s.append(self.username.as_str());
        s.append(", sign in count ");
        push_decimal(&mut s, self.sign_in_count);
        s.append(", active ");
        push_bool(&mut s, self.active);
        assert(s@ =~= user_text(*self));
        s
    }
}

} // verus!
