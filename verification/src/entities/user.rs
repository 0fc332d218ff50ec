//! Users: an opaque string identifier and the record that carries it.

use vstd::prelude::*;

use crate::entities::auth::Claims;

verus! {

/// An opaque user identifier; equality is value equality on the string.
#[derive(Debug, PartialEq, Eq)]
pub struct UserID(pub String);

impl View for UserID {
    type V = Seq<char>;

    open spec fn view(&self) -> Seq<char> {
        self.0@
    }
}

impl Clone for UserID {
    fn clone(&self) -> (r: Self)
        ensures
            r@ == self@,
    {
        UserID(self.0.clone())
    }
}

impl UserID {
    pub fn new(id: &str) -> (r: Self)
        ensures
            r@ == id@,
    {
        UserID(id.to_owned())
    }

    /// The identifier as an owned string.
    pub fn to_string(&self) -> (r: String)
        ensures
            r@ == self@,
    {
        self.0.clone()
    }

    pub fn eq_id(&self, other: &UserID) -> (r: bool)
        ensures
            r == (self@ == other@),
    {
        self.0 == other.0
    }
}

/// The mathematical shape of a `User`.
pub struct UserView {
    pub id: Seq<char>,
}

/// A user record; its identifier is derived from the verified subject claim
/// of the caller who created it.
#[derive(Debug, PartialEq, Eq)]
pub struct User {
    pub id: UserID,
}

impl View for User {
    type V = UserView;

    open spec fn view(&self) -> UserView {
        UserView { id: self.id@ }
    }
}

impl Clone for User {
    fn clone(&self) -> (r: Self)
        ensures
            r@ == self@,
    {
        User { id: self.id.clone() }
    }
}

impl User {
    /// A new user record for the authenticated caller: its identifier is the
    /// caller's verified subject claim, so user records exist one-to-one
    /// with authenticated identities.
    pub fn new(auth: &Claims) -> (u: User)
        ensures
            u@.id == auth@.sub,
    {
        User { id: UserID(auth.sub.clone()) }
    }
}

} // verus!
