//! User records and the ways to build them.
use vstd::prelude::*;
use vstd::string::*;

verus! {

/// Mathematical model of a [`User`].
pub struct UserView {
    pub username: Seq<char>,
    pub email: Seq<char>,
    pub sign_in_count: int,
    pub active: bool,
}

/// An account: who it belongs to, how often it was used, and whether it is
/// active.
pub struct User {
    pub username: String,
    email: String,
    sign_in_count: i64,
    active: bool,
}

impl View for User {
    type V = UserView;

    closed spec fn view(&self) -> UserView {
        UserView {
            username: self.username@,
            email: self.email@,
            sign_in_count: self.sign_in_count as int,
            active: self.active,
        }
    }
}

impl User {
    /// The e-mail address of the account.
    pub fn email(&self) -> (email: &String)
        ensures
            email@ == self@.email,
    {
        &self.email
    }

    /// How often the user has signed in.
    pub fn sign_in_count(&self) -> (count: i64)
        ensures
            count == self@.sign_in_count,
    {
        self.sign_in_count
    }

    /// Whether the account is active.
    pub fn active(&self) -> (active: bool)
        ensures
            active == self@.active,
    {
        self.active
    }
}

/// The sample account: active, with ten sign-ins.
pub fn init_user() -> (user: User)
    ensures
        user@ == (UserView {
            username: "someone_username"@,
            email: "someone@example.com"@,
            sign_in_count: 10,
            active: true,
        }),
{
    User {
        email: String::from_str("someone@example.com"),
        username: String::from_str("someone_username"),
        sign_in_count: 10,
        active: true,
    }
}

/// A new active account with the given address and name and a hundred
/// sign-ins.
pub fn build_user(email: String, username: String) -> (user: User)
    ensures
        user@ == (UserView {
            username: username@,
            email: email@,
            sign_in_count: 100,
            active: true,
        }),
{
    User { username, email, sign_in_count: 100, active: true }
}

/// An account with the given address and name that takes its sign-in count
/// and its activity from `user`.
pub fn build_with_other_user(email: String, username: String, user: &User) -> (built: User)
    ensures
        built@ == (UserView { username: username@, email: email@, ..user@ }),
{
    User { username, email, sign_in_count: user.sign_in_count, active: user.active }
}

} // verus!
