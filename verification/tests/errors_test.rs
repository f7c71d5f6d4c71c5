use auth_core::errors::ApiError;

#[test]
fn test_status_codes_cover_the_taxonomy() {
    let cases = [
        (ApiError::BadRequest("m".to_string()), 400, "BAD_REQUEST"),
        (ApiError::Unauthorized("m".to_string()), 401, "UNAUTHORIZED"),
        (ApiError::Forbidden("m".to_string()), 403, "FORBIDDEN"),
        (ApiError::NotFound("m".to_string()), 404, "NOT_FOUND"),
        (
            ApiError::ResourceAlreadyExists("m".to_string()),
            409,
            "RESOURCE_ALREADY_EXISTS",
        ),
        (ApiError::ValidationError("m".to_string()), 400, "VALIDATION_ERROR"),
        (
            ApiError::InternalServerError("m".to_string()),
            500,
            "INTERNAL_SERVER_ERROR",
        ),
        (ApiError::DatabaseError("m".to_string()), 500, "DATABASE_ERROR"),
    ];
    for (err, status, code) in cases {
        assert_eq!(err.status_code(), status);
        assert_eq!(err.error_code(), code);
        assert_eq!(err.message(), "m");
    }
}
