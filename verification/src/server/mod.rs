//! The logic of the FABA Cloud service: accounts and sessions, playlist
//! validation, library assembly, and audio upload rules. The HTTP routes,
//! the PostgreSQL queries and the audio volume stay with the program that
//! serves them; they hand plain values to these functions.
use vstd::prelude::*;

pub mod auth;
pub mod config;
pub mod library;
pub mod storage;

verus! {

/// Errors the service answers with.
pub enum ApiError {
    /// A request field is invalid; the message explains which.
    Validation(String),
    /// The bearer token or the credentials are missing or wrong.
    Unauthorized,
    /// The e-mail address already has an account.
    AccountExists,
    /// The resource does not exist; the message says which.
    NotFound(String),
    /// A size limit is exceeded; the message says which.
    PayloadTooLarge(String),
    /// An internal failure, with its description.
    Internal(String),
}

/// An authenticated account, as the sessions table resolves it.
pub struct AuthUser {
    pub id: String,
    pub email: String,
    pub display_name: String,
    pub library_version: i64,
}

/// The account part of a session response.
pub struct AccountResponse {
    pub id: String,
    pub email: String,
    pub display_name: String,
    pub library_version: i64,
}

/// The answer to a registration or a login.
pub struct SessionResponse {
    pub token: String,
    pub expires_at: String,
    pub account: AccountResponse,
}

impl AccountResponse {
    /// The public view of an authenticated account.
    pub fn from_user(user: AuthUser) -> (result: AccountResponse)
        ensures
            result.id == user.id,
            result.email == user.email,
            result.display_name == user.display_name,
            result.library_version == user.library_version,
    {
        AccountResponse {
            id: user.id,
            email: user.email,
            display_name: user.display_name,
            library_version: user.library_version,
        }
    }
}

} // verus!
