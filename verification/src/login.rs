//! Logging in with an identity provider: what is asked of the claims that the
//! provider makes, and what is answered when a login fails.

use crate::session::{Identity, IdentityView};
use vstd::prelude::*;
use vstd::string::*;

verus! {

/// Why a login fails.
#[derive(Clone, Copy, Debug, PartialEq, Eq, Structural)]
pub enum LoginError {
    /// The store failed.
    DbError,
    /// The provider is not configured.
    NoProviderConfigured,
    /// The visitor brought no state of a login.
    NoOAuthState,
    /// The state of the login cannot be read.
    BadOAuthState,
    /// The code cannot be exchanged.
    BadExchangeCode,
    /// The provider gave no token.
    FailedAuthToken,
    /// The token does not match what the provider claims of it.
    BadAuthToken,
    /// The provider vouches for no email address.
    NoVerifiedEmail,
    /// The provider names no name.
    NoName,
}

impl LoginError {
    /// The status that the error is answered with.
    pub fn status(&self) -> (r: u16)
        ensures
            r == match self {
                LoginError::DbError => 500u16,
                LoginError::NoProviderConfigured => 500u16,
                LoginError::NoOAuthState => 400u16,
                LoginError::BadOAuthState => 400u16,
                LoginError::BadExchangeCode => 401u16,
                LoginError::FailedAuthToken => 500u16,
                LoginError::BadAuthToken => 401u16,
                LoginError::NoVerifiedEmail => 401u16,
                LoginError::NoName => 401u16,
            },
    {
        match self {
            LoginError::DbError => 500,
            LoginError::NoProviderConfigured => 500,
            LoginError::NoOAuthState => 400,
            LoginError::BadOAuthState => 400,
            LoginError::BadExchangeCode => 401,
            LoginError::FailedAuthToken => 500,
            LoginError::BadAuthToken => 401,
            LoginError::NoVerifiedEmail => 401,
            LoginError::NoName => 401,
        }
    }

    /// The text that the error is answered with; for a provider that is not
    /// configured the caller puts the name of the provider in.
    pub fn message(&self) -> (r: &'static str)
        ensures
            r@ == match self {
                LoginError::DbError => "Database error"@,
                LoginError::NoProviderConfigured => "Provider not configured"@,
                LoginError::NoOAuthState => "Missing oauth state"@,
                LoginError::BadOAuthState => "Invalid oauth state"@,
                LoginError::BadExchangeCode => "Bad exchange code"@,
                LoginError::FailedAuthToken => "Couldn't get auth token"@,
                LoginError::BadAuthToken => "Couldn't get auth token"@,
                LoginError::NoVerifiedEmail => "A verified email is required"@,
                LoginError::NoName => "A user name is required"@,
            },
    {
        match self {
            LoginError::DbError => "Database error",
            LoginError::NoProviderConfigured => "Provider not configured",
            LoginError::NoOAuthState => "Missing oauth state",
            LoginError::BadOAuthState => "Invalid oauth state",
            LoginError::BadExchangeCode => "Bad exchange code",
            LoginError::FailedAuthToken => "Couldn't get auth token",
            LoginError::BadAuthToken => "Couldn't get auth token",
            LoginError::NoVerifiedEmail => "A verified email is required",
            LoginError::NoName => "A user name is required",
        }
    }
}

/// What a provider claims of a person.
#[derive(Debug, PartialEq, Eq)]
pub struct Claims {
    pub subject: String,
    pub email: Option<String>,
    pub email_verified: Option<bool>,
    /// The name in English.
    pub name_en: Option<String>,
    /// The name in no named language.
    pub name_plain: Option<String>,
}

/// The identity that the claims make out: the provider must vouch for the
/// email address, and must name a name, of which the English one is taken
/// first.
pub fn identity_of(claims: Claims) -> (r: Result<Identity, LoginError>)
    ensures
        match r {
            Ok(id) => {
                &&& claims.email matches Some(email)
                &&& claims.email_verified == Some(true)
                &&& (claims.name_en is Some || claims.name_plain is Some)
                &&& id@ == (IdentityView {
                    sub: claims.subject@,
                    email: email@,
                    name: match claims.name_en {
                        Some(n) => n@,
                        None => claims.name_plain->0@,
                    },
                })
            },
            Err(e) => if claims.email is None || claims.email_verified != Some(true) {
                e == LoginError::NoVerifiedEmail
            } else {
                e == LoginError::NoName && claims.name_en is None && claims.name_plain is None
            },
        },
{
    let email = match claims.email {
        Some(e) => e,
        None => {
            return Err(LoginError::NoVerifiedEmail);
        },
    };
    match claims.email_verified {
        Some(true) => {},
        _ => {
            return Err(LoginError::NoVerifiedEmail);
        },
    }
    let name = match claims.name_en {
        Some(n) => n,
        None => match claims.name_plain {
            Some(n) => n,
            None => {
                return Err(LoginError::NoName);
            },
        },
    };
    Ok(Identity { sub: claims.subject, email, name })
}

} // verus!
