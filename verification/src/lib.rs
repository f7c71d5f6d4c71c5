//! Credential and session lifecycle management: signed bearer tokens
//! (access + refresh), a store of outstanding refresh tokens and revoked
//! access-token ids, and the session flows (register, login, refresh
//! rotation, logout, password reset) built on top of them.

use vstd::prelude::*;

pub mod base64;
pub mod claims;
pub mod config;
pub mod crypto;
pub mod dto;
pub mod errors;
pub mod hashing;
pub mod laws;
pub mod profile;
pub mod ratelimit;
pub mod session;
pub mod store;
pub mod sweeper;
pub mod text;
pub mod tokens;

verus! {

/// Seconds an access token stays valid after issuance.
pub const ACCESS_TOKEN_TTL_SECS: i64 = 900;

/// Seconds a refresh token stays valid after issuance.
pub const REFRESH_TOKEN_TTL_SECS: i64 = 604800;

/// Seconds a password-reset token stays valid after issuance.
pub const RESET_TOKEN_TTL_SECS: i64 = 3600;

} // verus!
