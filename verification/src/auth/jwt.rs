//! Bearer tokens and their claims. The token wrappers keep the secret
//! string out of casual reach: neither derives a printable form.

use vstd::prelude::*;

verus! {

/// An access token: a short-lived bearer secret.
#[derive(Clone)]
pub struct AccessToken(String);

impl AccessToken {
    /// The wrapped secret, for contracts.
    pub closed spec fn spec_token(&self) -> Seq<char> {
        self.0@
    }

    /// Wrap a token string.
    pub fn new(token: String) -> (r: AccessToken)
        ensures
            r.spec_token() == token@,
    {
        AccessToken(token)
    }

    /// Unwrap the token string.
    pub fn into_inner(self) -> (r: String)
        ensures
            r@ == self.spec_token(),
    {
        self.0
    }
}

/// A refresh token: a long-lived bearer secret.
pub struct RefreshToken(String);

impl RefreshToken {
    /// The wrapped secret, for contracts.
    pub closed spec fn spec_token(&self) -> Seq<char> {
        self.0@
    }

    /// Wrap a token string.
    pub fn new(token: String) -> (r: RefreshToken)
        ensures
            r.spec_token() == token@,
    {
        RefreshToken(token)
    }

    /// Unwrap the token string.
    pub fn into_inner(self) -> (r: String)
        ensures
            r@ == self.spec_token(),
    {
        self.0
    }
}

/// Claims carried by an access token.
#[derive(Clone)]
pub struct AccessTokenClaims {
    /// User ID.
    pub sub: uuid::Uuid,
    pub exp: i64,
    pub iss: String,
    pub aud: String,
}

/// Claims carried by a refresh token.
pub struct RefreshTokenClaims {
    /// Session ID.
    pub sub: uuid::Uuid,
    pub exp: i64,
    pub iss: String,
    pub aud: String,
}

} // verus!
