use auth_core::store::{AuthStore, NewRefreshToken, NewRevokedToken, StoreError};
use auth_core::sweeper::run_sweep;

fn row(user_id: u64, token: &str, expires_at: i64) -> NewRefreshToken {
    NewRefreshToken { user_id, token: token.to_string(), expires_at }
}

#[test]
fn test_refresh_token_lifecycle() {
    let mut store = AuthStore::new();
    let created = store.create_refresh_token(row(1, "tok-a", 1000), 10).unwrap();
    assert_eq!(created.user_id, 1);
    assert_eq!(created.expires_at, 1000);
    let found = store.find_refresh_token("tok-a", 10).expect("live row is found");
    assert_eq!(found.token, "tok-a");
    let removed = store.delete_refresh_token("tok-a");
    assert_eq!(removed, 1);
    assert!(store.find_refresh_token("tok-a", 10).is_none());
    let removed_again = store.delete_refresh_token("tok-a");
    assert_eq!(removed_again, 0);
}

#[test]
fn test_expired_row_is_treated_as_absent() {
    let mut store = AuthStore::new();
    store.create_refresh_token(row(1, "tok-b", 100), 0).unwrap();
    assert!(store.find_refresh_token("tok-b", 99).is_some());
    assert!(store.find_refresh_token("tok-b", 100).is_none());
    assert!(store.find_refresh_token("tok-b", 101).is_none());
}

#[test]
fn test_duplicate_token_string_is_refused() {
    let mut store = AuthStore::new();
    store.create_refresh_token(row(1, "tok-c", 1000), 0).unwrap();
    let second = store.create_refresh_token(row(2, "tok-c", 2000), 0);
    assert!(matches!(second, Err(StoreError::Conflict)));
    assert_eq!(store.refresh_tokens.len(), 1);
}

#[test]
fn test_delete_all_rows_of_one_user() {
    let mut store = AuthStore::new();
    store.create_refresh_token(row(1, "u1-a", 1000), 0).unwrap();
    store.create_refresh_token(row(2, "u2-a", 1000), 0).unwrap();
    store.create_refresh_token(row(1, "u1-b", 1000), 0).unwrap();
    let removed = store.delete_user_refresh_tokens(1);
    assert_eq!(removed, 2);
    assert!(store.find_refresh_token("u1-a", 0).is_none());
    assert!(store.find_refresh_token("u1-b", 0).is_none());
    assert!(store.find_refresh_token("u2-a", 0).is_some());
}

#[test]
fn test_sweeper_removes_exactly_the_expired_row() {
    let mut store = AuthStore::new();
    store.create_refresh_token(row(1, "expired", 50), 0).unwrap();
    store.create_refresh_token(row(1, "live", 5000), 0).unwrap();
    let (removed_refresh, removed_revoked) = run_sweep(&mut store, 100);
    assert_eq!(removed_refresh, 1);
    assert_eq!(removed_revoked, 0);
    assert!(store.find_refresh_token("live", 100).is_some());
    assert!(store.find_refresh_token("expired", 100).is_none());
    assert_eq!(store.refresh_tokens.len(), 1);
}

#[test]
fn test_revocation_entries() {
    let mut store = AuthStore::new();
    assert!(!store.is_token_revoked("jti-1", 10));
    store.add_revoked_token(NewRevokedToken {
        token_jti: "jti-1".to_string(),
        user_id: 1,
        expiry: 100,
    });
    assert!(store.is_token_revoked("jti-1", 10));
    assert!(!store.is_token_revoked("jti-1", 100));
    assert!(!store.is_token_revoked("jti-2", 10));
    let removed = store.clean_expired_revoked_tokens(200);
    assert_eq!(removed, 1);
    assert_eq!(store.revoked_tokens.len(), 0);
}
