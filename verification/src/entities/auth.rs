//! The authenticated caller: verified token claims and the binary
//! authorization state every use-case decision branches on.
//!
//! Identity resolution itself (token parsing, key fetching, signature
//! checks) happens outside this library; any failure there collapses to
//! `UnAuthorized` before the engine ever sees it.

use vstd::prelude::*;

verus! {

/// The mathematical shape of `Claims`.
pub struct ClaimsView {
    pub iss: Seq<char>,
    pub sub: Seq<char>,
    pub aud: Seq<Seq<char>>,
    pub iat: int,
    pub exp: int,
    pub azp: Seq<char>,
    pub scope: Seq<char>,
}

/// The verified payload of an authentication token. The engine reads only
/// `sub`, the subject identifier.
#[derive(Debug)]
pub struct Claims {
    pub iss: String,
    pub sub: String,
    pub aud: Vec<String>,
    pub iat: u64,
    pub exp: u64,
    pub azp: String,
    pub scope: String,
}

impl View for Claims {
    type V = ClaimsView;

    open spec fn view(&self) -> ClaimsView {
        ClaimsView {
            iss: self.iss@,
            sub: self.sub@,
            aud: self.aud@.map_values(|a: String| a@),
            iat: self.iat as int,
            exp: self.exp as int,
            azp: self.azp@,
            scope: self.scope@,
        }
    }
}

/// The mathematical shape of `AuthState`.
pub enum AuthStateView {
    Authorized(ClaimsView),
    UnAuthorized,
}

impl AuthStateView {
    /// Whether the caller presented a verified identity.
    pub open spec fn is_authorized(self) -> bool {
        self is Authorized
    }

    /// The verified subject identifier of an authorized caller.
    pub open spec fn subject(self) -> Seq<char>
        recommends
            self.is_authorized(),
    {
        match self {
            AuthStateView::Authorized(c) => c.sub,
            AuthStateView::UnAuthorized => Seq::empty(),
        }
    }
}

/// The single input every authorization decision branches on: either a
/// verified identity, or nothing.
#[derive(Debug)]
pub enum AuthState {
    Authorized(Claims),
    UnAuthorized,
}

impl View for AuthState {
    type V = AuthStateView;

    open spec fn view(&self) -> AuthStateView {
        match self {
            AuthState::Authorized(c) => AuthStateView::Authorized(c@),
            AuthState::UnAuthorized => AuthStateView::UnAuthorized,
        }
    }
}

} // verus!
