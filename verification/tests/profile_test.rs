use auth_core::config::AuthConfig;
use auth_core::dto::RegisterRequest;
use auth_core::errors::ApiError;
use auth_core::profile::{get_user_profile, update_user_profile, UpdateUserProfileRequest};
use auth_core::session::register;
use auth_core::store::AuthStore;

fn test_config() -> AuthConfig {
    AuthConfig::new(
        b"access-secret-for-tests".to_vec(),
        b"refresh-secret-for-tests".to_vec(),
        b"password-secret-for-tests".to_vec(),
    )
}

fn register_user(store: &mut AuthStore, cfg: &AuthConfig, email: &str) -> u64 {
    let request = RegisterRequest {
        first_name: "Ada".to_string(),
        last_name: "Lovelace".to_string(),
        email: email.to_string(),
        password: "secret123".to_string(),
    };
    register(store, cfg, request, 1_000_000).unwrap().user.id
}

#[test]
fn test_get_profile_of_registered_user() {
    let cfg = test_config();
    let mut store = AuthStore::new();
    let id = register_user(&mut store, &cfg, "a@x.com");
    let profile = get_user_profile(&store, id).unwrap();
    assert_eq!(profile.id, id);
    assert_eq!(profile.email, "a@x.com");
    assert_eq!(profile.first_name, "Ada");
    assert!(profile.is_active);
    assert!(!profile.is_verified);
}

#[test]
fn test_get_profile_of_unknown_user() {
    let store = AuthStore::new();
    let r = get_user_profile(&store, 12345);
    assert!(matches!(r, Err(ApiError::NotFound(_))));
}

#[test]
fn test_update_profile_fields() {
    let cfg = test_config();
    let mut store = AuthStore::new();
    let id = register_user(&mut store, &cfg, "a@x.com");
    let updated = update_user_profile(
        &mut store,
        id,
        UpdateUserProfileRequest {
            first_name: Some("Grace".to_string()),
            last_name: None,
            email: None,
        },
    )
    .unwrap();
    assert_eq!(updated.first_name, "Grace");
    assert_eq!(updated.last_name, "Lovelace");
    assert_eq!(updated.email, "a@x.com");
}

#[test]
fn test_update_profile_to_taken_email_conflicts() {
    let cfg = test_config();
    let mut store = AuthStore::new();
    let id = register_user(&mut store, &cfg, "a@x.com");
    register_user(&mut store, &cfg, "b@x.com");
    let r = update_user_profile(
        &mut store,
        id,
        UpdateUserProfileRequest {
            first_name: None,
            last_name: None,
            email: Some("b@x.com".to_string()),
        },
    );
    assert!(matches!(r, Err(ApiError::ResourceAlreadyExists(_))));
}
