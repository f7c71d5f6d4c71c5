//! The request and response shapes of the session flows.

use vstd::prelude::*;

verus! {

pub struct RegisterRequest {
    pub first_name: String,
    pub last_name: String,
    pub email: String,
    pub password: String,
}

pub struct LoginRequest {
    pub email: String,
    pub password: String,
}

pub struct RefreshTokenRequest {
    pub refresh_token: String,
}

pub struct ForgotPasswordRequest {
    pub email: String,
}

pub struct ResetPasswordRequest {
    pub token: String,
    pub new_password: String,
}

/// The public view of a user returned with a token pair.
pub struct UserInfo {
    pub id: u64,
    pub first_name: String,
    pub last_name: String,
    pub email: String,
}

/// What a successful register, login or rotation returns.
pub struct AuthResponse {
    pub access_token: String,
    pub refresh_token: String,
    pub user: UserInfo,
}

} // verus!
