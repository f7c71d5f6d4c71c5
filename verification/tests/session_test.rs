use auth_core::config::AuthConfig;
use auth_core::dto::{
    ForgotPasswordRequest, LoginRequest, RefreshTokenRequest, RegisterRequest,
    ResetPasswordRequest,
};
use auth_core::errors::ApiError;
use auth_core::session::{
    authorize_request, forgot_password, login, logout, refresh_token, register, reset_password,
};
use auth_core::store::AuthStore;
use auth_core::tokens::validate_access_token;

fn test_config() -> AuthConfig {
    AuthConfig::new(
        b"access-secret-for-tests".to_vec(),
        b"refresh-secret-for-tests".to_vec(),
        b"password-secret-for-tests".to_vec(),
    )
}

fn register_request(email: &str, password: &str) -> RegisterRequest {
    RegisterRequest {
        first_name: "Ada".to_string(),
        last_name: "Lovelace".to_string(),
        email: email.to_string(),
        password: password.to_string(),
    }
}

fn login_request(email: &str, password: &str) -> LoginRequest {
    LoginRequest { email: email.to_string(), password: password.to_string() }
}

#[test]
fn test_register_then_login_scenario() {
    let cfg = test_config();
    let mut store = AuthStore::new();
    let now: i64 = 1_000_000;

    let registered = register(&mut store, &cfg, register_request("a@x.com", "secret123"), now)
        .expect("registration succeeds");
    assert_eq!(registered.user.email, "a@x.com");
    assert!(!registered.access_token.is_empty());
    assert!(!registered.refresh_token.is_empty());

    let logged_in = login(&mut store, &cfg, login_request("a@x.com", "secret123"), now)
        .expect("login with the right password succeeds");
    assert_eq!(logged_in.user.id, registered.user.id);
    assert!(!logged_in.access_token.is_empty());
    assert!(!logged_in.refresh_token.is_empty());

    let wrong_password = match login(&mut store, &cfg, login_request("a@x.com", "wrong"), now) {
        Err(e) => e,
        Ok(_) => panic!("wrong password must be rejected"),
    };
    let unknown_email = match login(&mut store, &cfg, login_request("b@x.com", "secret123"), now) {
        Err(e) => e,
        Ok(_) => panic!("unknown email must be rejected"),
    };
    assert_eq!(wrong_password.status_code(), 401);
    assert_eq!(unknown_email.status_code(), 401);
    assert_eq!(wrong_password.error_code(), unknown_email.error_code());
    assert_eq!(wrong_password.message(), unknown_email.message());
}

#[test]
fn test_second_registration_conflicts() {
    let cfg = test_config();
    let mut store = AuthStore::new();
    let now: i64 = 1_000_000;
    register(&mut store, &cfg, register_request("a@x.com", "secret123"), now).unwrap();
    let second = register(&mut store, &cfg, register_request("a@x.com", "otherpass1"), now);
    match second {
        Err(e @ ApiError::ResourceAlreadyExists(_)) => {
            assert_eq!(e.status_code(), 409);
            assert_eq!(e.error_code(), "RESOURCE_ALREADY_EXISTS");
        }
        other => panic!("expected a conflict, got {:?}", other.is_ok()),
    }
}

#[test]
fn test_refresh_rotation_is_single_use() {
    let cfg = test_config();
    let mut store = AuthStore::new();
    let now: i64 = 1_000_000;
    let registered =
        register(&mut store, &cfg, register_request("a@x.com", "secret123"), now).unwrap();
    let token_a = registered.refresh_token;

    let first = refresh_token(
        &mut store,
        &cfg,
        RefreshTokenRequest { refresh_token: token_a.clone() },
        now + 1,
    )
    .expect("first rotation succeeds");
    let token_b = first.refresh_token;
    assert_ne!(token_a, token_b);

    let replay = refresh_token(
        &mut store,
        &cfg,
        RefreshTokenRequest { refresh_token: token_a.clone() },
        now + 2,
    );
    assert!(matches!(replay, Err(ApiError::Unauthorized(_))));

    let second = refresh_token(
        &mut store,
        &cfg,
        RefreshTokenRequest { refresh_token: token_b },
        now + 3,
    );
    assert!(second.is_ok());
}

#[test]
fn test_logout_invalidates_all_refresh_tokens() {
    let cfg = test_config();
    let mut store = AuthStore::new();
    let now: i64 = 1_000_000;
    let registered =
        register(&mut store, &cfg, register_request("a@x.com", "secret123"), now).unwrap();
    let extra = login(&mut store, &cfg, login_request("a@x.com", "secret123"), now).unwrap();

    logout(&mut store, registered.user.id).unwrap();

    for token in [registered.refresh_token, extra.refresh_token] {
        let r = refresh_token(
            &mut store,
            &cfg,
            RefreshTokenRequest { refresh_token: token },
            now + 1,
        );
        assert!(matches!(r, Err(ApiError::Unauthorized(_))));
    }
}

#[test]
fn test_password_reset_invalidates_sessions_and_old_password() {
    let cfg = test_config();
    let mut store = AuthStore::new();
    let now: i64 = 1_000_000;
    let registered =
        register(&mut store, &cfg, register_request("a@x.com", "secret123"), now).unwrap();
    let old_refresh = registered.refresh_token;

    forgot_password(
        &mut store,
        ForgotPasswordRequest { email: "a@x.com".to_string() },
        now,
    )
    .unwrap();
    let reset_tok = store
        .find_user_by_email("a@x.com")
        .unwrap()
        .password_reset_token
        .expect("forgot-password stamps a reset token");
    assert_eq!(reset_tok.len(), 32);
    assert!(reset_tok.chars().all(|c| c.is_ascii_lowercase()));

    reset_password(
        &mut store,
        &cfg,
        ResetPasswordRequest { token: reset_tok, new_password: "newpassword123".to_string() },
        now + 10,
    )
    .expect("reset with a live token succeeds");

    let old_login = login(&mut store, &cfg, login_request("a@x.com", "secret123"), now + 20);
    assert!(matches!(old_login, Err(ApiError::Unauthorized(_))));
    let new_login = login(&mut store, &cfg, login_request("a@x.com", "newpassword123"), now + 20);
    assert!(new_login.is_ok());

    let replay = refresh_token(
        &mut store,
        &cfg,
        RefreshTokenRequest { refresh_token: old_refresh },
        now + 20,
    );
    assert!(matches!(replay, Err(ApiError::Unauthorized(_))));
}

#[test]
fn test_forgot_password_does_not_reveal_accounts() {
    let cfg = test_config();
    let mut store = AuthStore::new();
    let now: i64 = 1_000_000;
    register(&mut store, &cfg, register_request("a@x.com", "secret123"), now).unwrap();

    let known = forgot_password(
        &mut store,
        ForgotPasswordRequest { email: "a@x.com".to_string() },
        now,
    );
    let unknown = forgot_password(
        &mut store,
        ForgotPasswordRequest { email: "nonexistent@example.com".to_string() },
        now,
    );
    assert!(known.is_ok());
    assert!(unknown.is_ok());
}

#[test]
fn test_reset_password_with_invalid_token() {
    let cfg = test_config();
    let mut store = AuthStore::new();
    let now: i64 = 1_000_000;
    register(&mut store, &cfg, register_request("a@x.com", "secret123"), now).unwrap();
    let r = reset_password(
        &mut store,
        &cfg,
        ResetPasswordRequest {
            token: "invalid_token".to_string(),
            new_password: "newpassword123".to_string(),
        },
        now,
    );
    assert!(matches!(r, Err(ApiError::BadRequest(_))));
}

#[test]
fn test_reset_password_with_expired_token() {
    let cfg = test_config();
    let mut store = AuthStore::new();
    let now: i64 = 1_000_000;
    register(&mut store, &cfg, register_request("a@x.com", "secret123"), now).unwrap();
    forgot_password(
        &mut store,
        ForgotPasswordRequest { email: "a@x.com".to_string() },
        now,
    )
    .unwrap();
    let reset_tok = store
        .find_user_by_email("a@x.com")
        .unwrap()
        .password_reset_token
        .unwrap();
    let after_expiry = now + auth_core::RESET_TOKEN_TTL_SECS + 1;
    let r = reset_password(
        &mut store,
        &cfg,
        ResetPasswordRequest { token: reset_tok, new_password: "newpassword123".to_string() },
        after_expiry,
    );
    assert!(matches!(r, Err(ApiError::BadRequest(_))));
}

#[test]
fn test_authorize_request_paths() {
    let cfg = test_config();
    let mut store = AuthStore::new();
    let now: i64 = 1_000_000;
    let registered =
        register(&mut store, &cfg, register_request("a@x.com", "secret123"), now).unwrap();

    let header = format!("Bearer {}", registered.access_token);
    let user = authorize_request(&store, &cfg, Some(header.as_str()), now)
        .expect("a fresh bearer token authorizes");
    assert_eq!(user.0, registered.user.id);

    let missing = authorize_request(&store, &cfg, None, now);
    assert!(matches!(missing, Err(ApiError::Unauthorized(_))));

    let malformed = authorize_request(&store, &cfg, Some("InvalidFormat token"), now);
    assert!(matches!(malformed, Err(ApiError::Unauthorized(_))));

    let invalid = authorize_request(&store, &cfg, Some("Bearer invalid_token"), now);
    assert!(matches!(invalid, Err(ApiError::Unauthorized(_))));

    let expired = authorize_request(
        &store,
        &cfg,
        Some(header.as_str()),
        now + auth_core::ACCESS_TOKEN_TTL_SECS + 1,
    );
    assert!(matches!(expired, Err(ApiError::Unauthorized(_))));
}

#[test]
fn test_revoked_access_token_is_rejected() {
    let cfg = test_config();
    let mut store = AuthStore::new();
    let now: i64 = 1_000_000;
    let registered =
        register(&mut store, &cfg, register_request("a@x.com", "secret123"), now).unwrap();
    let claims = validate_access_token(&cfg, registered.access_token.as_str(), now).unwrap();

    let header = format!("Bearer {}", registered.access_token);
    assert!(authorize_request(&store, &cfg, Some(header.as_str()), now).is_ok());

    store.add_revoked_token(auth_core::store::NewRevokedToken {
        token_jti: claims.jti,
        user_id: claims.sub,
        expiry: claims.exp,
    });
    let r = authorize_request(&store, &cfg, Some(header.as_str()), now);
    assert!(matches!(r, Err(ApiError::Unauthorized(_))));
}

#[test]
fn test_expired_refresh_token_cannot_rotate() {
    let cfg = test_config();
    let mut store = AuthStore::new();
    let now: i64 = 1_000_000;
    let registered =
        register(&mut store, &cfg, register_request("a@x.com", "secret123"), now).unwrap();
    let after_expiry = now + auth_core::REFRESH_TOKEN_TTL_SECS + 1;
    let r = refresh_token(
        &mut store,
        &cfg,
        RefreshTokenRequest { refresh_token: registered.refresh_token },
        after_expiry,
    );
    assert!(matches!(r, Err(ApiError::Unauthorized(_))));
}
