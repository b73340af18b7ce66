//! Identities and session data, as the HTTP layer hands them in.
//!
//! Token issuing and verification live outside the engine; what crosses
//! into it are these plain values: the authenticated user's identifier,
//! the admin marker the role check produced, and the row shapes the
//! account endpoints exchange.

use vstd::prelude::*;

verus! {

/// The columns the login flow reads to identify an account.
pub struct UserAuthDetails {
    pub id: String,
    pub email: String,
    pub role: String,
}

/// The full account payload the profile endpoints return.
pub struct UserResponse {
    pub id: String,
    pub email: String,
    pub name: Option<String>,
    pub picture: Option<String>,
    pub role: String,
    pub status: String,
    pub points: i32,
    pub level: String,
    pub phone: Option<String>,
    pub address: Option<String>,
}

/// The login request body: the identity token of the external provider.
pub struct LoginPayload {
    pub credential: Option<String>,
}

/// The claims carried in a session token.
pub struct Claims {
    pub sub: String,
    pub email: String,
    pub role: String,
    pub exp: usize,
}

/// An authenticated caller: the user identifier a verified session
/// token named.
pub struct AuthUser {
    pub user_id: String,
}

/// An authenticated caller whose stored role passed the admin check.
pub struct AdminUser(pub String);

} // verus!
