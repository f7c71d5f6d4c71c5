//! The error taxonomy every flow answers with. Nothing below the session
//! layer leaks its own errors past it.

use vstd::prelude::*;

verus! {

#[derive(Debug)]
pub enum ApiError {
    BadRequest(String),
    Unauthorized(String),
    Forbidden(String),
    NotFound(String),
    ResourceAlreadyExists(String),
    ValidationError(String),
    InternalServerError(String),
    DatabaseError(String),
}

pub type ApiResult<T> = Result<T, ApiError>;

/// The HTTP status of each error kind.
pub open spec fn spec_status_code(e: ApiError) -> u16 {
    match e {
        ApiError::BadRequest(_) => 400,
        ApiError::Unauthorized(_) => 401,
        ApiError::Forbidden(_) => 403,
        ApiError::NotFound(_) => 404,
        ApiError::ResourceAlreadyExists(_) => 409,
        ApiError::ValidationError(_) => 400,
        ApiError::InternalServerError(_) => 500,
        ApiError::DatabaseError(_) => 500,
    }
}

/// The machine-readable code of each error kind.
pub open spec fn spec_error_code(e: ApiError) -> Seq<char> {
    match e {
        ApiError::BadRequest(_) => "BAD_REQUEST"@,
        ApiError::Unauthorized(_) => "UNAUTHORIZED"@,
        ApiError::Forbidden(_) => "FORBIDDEN"@,
        ApiError::NotFound(_) => "NOT_FOUND"@,
        ApiError::ResourceAlreadyExists(_) => "RESOURCE_ALREADY_EXISTS"@,
        ApiError::ValidationError(_) => "VALIDATION_ERROR"@,
        ApiError::InternalServerError(_) => "INTERNAL_SERVER_ERROR"@,
        ApiError::DatabaseError(_) => "DATABASE_ERROR"@,
    }
}

impl ApiError {
    pub fn status_code(&self) -> (r: u16)
        ensures
            r == spec_status_code(*self),
    {
        match self {
            ApiError::BadRequest(_) => 400,
            ApiError::Unauthorized(_) => 401,
            ApiError::Forbidden(_) => 403,
            ApiError::NotFound(_) => 404,
            ApiError::ResourceAlreadyExists(_) => 409,
            ApiError::ValidationError(_) => 400,
            ApiError::InternalServerError(_) => 500,
            ApiError::DatabaseError(_) => 500,
        }
    }

    pub fn error_code(&self) -> (r: String)
        ensures
            r@ == spec_error_code(*self),
    {
        match self {
            ApiError::BadRequest(_) => String::from_str("BAD_REQUEST"),
            ApiError::Unauthorized(_) => String::from_str("UNAUTHORIZED"),
            ApiError::Forbidden(_) => String::from_str("FORBIDDEN"),
            ApiError::NotFound(_) => String::from_str("NOT_FOUND"),
            ApiError::ResourceAlreadyExists(_) => String::from_str("RESOURCE_ALREADY_EXISTS"),
            ApiError::ValidationError(_) => String::from_str("VALIDATION_ERROR"),
            ApiError::InternalServerError(_) => String::from_str("INTERNAL_SERVER_ERROR"),
            ApiError::DatabaseError(_) => String::from_str("DATABASE_ERROR"),
        }
    }

    /// The per-field problems of a validation failure; nothing for the
    /// other kinds.
    pub fn details(&self) -> (r: Option<&String>)
        ensures
            match *self {
                ApiError::ValidationError(_) => r is Some,
                _ => r is None,
            },
    {
        match self {
            ApiError::ValidationError(d) => Some(d),
            _ => None,
        }
    }

    /// The human message carried by the error.
    pub fn message(&self) -> (r: &String)
        ensures
            r@ == spec_message(*self),
    {
        match self {
            ApiError::BadRequest(m) => m,
            ApiError::Unauthorized(m) => m,
            ApiError::Forbidden(m) => m,
            ApiError::NotFound(m) => m,
            ApiError::ResourceAlreadyExists(m) => m,
            ApiError::ValidationError(m) => m,
            ApiError::InternalServerError(m) => m,
            ApiError::DatabaseError(m) => m,
        }
    }
}

/// The message carried by an error, whatever its kind.
pub open spec fn spec_message(e: ApiError) -> Seq<char> {
    match e {
        ApiError::BadRequest(m) => m@,
        ApiError::Unauthorized(m) => m@,
        ApiError::Forbidden(m) => m@,
        ApiError::NotFound(m) => m@,
        ApiError::ResourceAlreadyExists(m) => m@,
        ApiError::ValidationError(m) => m@,
        ApiError::InternalServerError(m) => m@,
        ApiError::DatabaseError(m) => m@,
    }
}

} // verus!
