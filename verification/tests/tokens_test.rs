use auth_core::config::AuthConfig;
use auth_core::tokens::{
    generate_access_token, generate_refresh_token, validate_access_token, validate_refresh_token,
    TokenError,
};
use auth_core::ACCESS_TOKEN_TTL_SECS;

fn test_config() -> AuthConfig {
    AuthConfig::new(
        b"access-secret-for-tests".to_vec(),
        b"refresh-secret-for-tests".to_vec(),
        b"password-secret-for-tests".to_vec(),
    )
}

#[test]
fn test_issue_and_validate_access_token() {
    let cfg = test_config();
    let now: i64 = 1_000_000;
    let token = generate_access_token(&cfg, 7, now);
    let claims = validate_access_token(&cfg, token.as_str(), now).expect("fresh token validates");
    assert_eq!(claims.sub, 7);
    assert_eq!(claims.iat, now);
    assert_eq!(claims.exp, now + ACCESS_TOKEN_TTL_SECS);
    assert_eq!(claims.jti.len(), 36);
}

#[test]
fn test_access_token_expiry_edge() {
    let cfg = test_config();
    let now: i64 = 1_000_000;
    let token = generate_access_token(&cfg, 7, now);
    let at_edge = validate_access_token(&cfg, token.as_str(), now + ACCESS_TOKEN_TTL_SECS);
    assert!(at_edge.is_ok());
    let past_edge = validate_access_token(&cfg, token.as_str(), now + ACCESS_TOKEN_TTL_SECS + 1);
    assert!(matches!(past_edge, Err(TokenError::Expired)));
}

#[test]
fn test_validate_rejects_garbage() {
    let cfg = test_config();
    let r = validate_access_token(&cfg, "not a token", 0);
    assert!(matches!(r, Err(TokenError::Invalid)));
    let r = validate_access_token(&cfg, "", 0);
    assert!(matches!(r, Err(TokenError::Invalid)));
}

#[test]
fn test_validate_rejects_tampered_token() {
    let cfg = test_config();
    let now: i64 = 1_000_000;
    let token = generate_access_token(&cfg, 7, now);
    let mut tampered: Vec<char> = token.chars().collect();
    let last = tampered.len() - 1;
    tampered[last] = if tampered[last] == 'A' { 'B' } else { 'A' };
    let tampered: String = tampered.into_iter().collect();
    let r = validate_access_token(&cfg, tampered.as_str(), now);
    assert!(matches!(r, Err(TokenError::Invalid)));
}

#[test]
fn test_validate_rejects_wrong_secret() {
    let cfg = test_config();
    let other = AuthConfig::new(
        b"another-access-secret".to_vec(),
        b"another-refresh-secret".to_vec(),
        b"another-password-secret".to_vec(),
    );
    let now: i64 = 1_000_000;
    let token = generate_access_token(&cfg, 7, now);
    let r = validate_access_token(&other, token.as_str(), now);
    assert!(matches!(r, Err(TokenError::Invalid)));
}

#[test]
fn test_access_and_refresh_secrets_are_distinct() {
    let cfg = test_config();
    let now: i64 = 1_000_000;
    let access = generate_access_token(&cfg, 7, now);
    let r = validate_refresh_token(&cfg, access.as_str(), now);
    assert!(matches!(r, Err(TokenError::Invalid)));
    let refresh = generate_refresh_token(&cfg, 7, now);
    let claims = validate_refresh_token(&cfg, refresh.as_str(), now).expect("refresh validates");
    assert_eq!(claims.sub, 7);
}

#[test]
fn test_token_decodes_with_jwt_library() {
    let cfg = test_config();
    let now = std::time::SystemTime::now()
        .duration_since(std::time::UNIX_EPOCH)
        .unwrap()
        .as_secs() as i64;
    let token = generate_access_token(&cfg, 42, now);
    let key = jsonwebtoken::DecodingKey::from_secret(b"access-secret-for-tests");
    let validation = jsonwebtoken::Validation::new(jsonwebtoken::Algorithm::HS256);
    let decoded = jsonwebtoken::decode::<serde_json::Value>(token.as_str(), &key, &validation)
        .expect("library-issued token decodes under the JWT library");
    assert_eq!(decoded.claims.get("sub").and_then(|v| v.as_i64()), Some(42));
    assert_eq!(decoded.claims.get("iat").and_then(|v| v.as_i64()), Some(now));
    assert_eq!(
        decoded.claims.get("exp").and_then(|v| v.as_i64()),
        Some(now + ACCESS_TOKEN_TTL_SECS)
    );
    let jti = decoded.claims.get("jti").and_then(|v| v.as_str()).unwrap();
    assert_eq!(jti.len(), 36);
}
