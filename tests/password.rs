use academy_auth::auth::{AuthServiceConfig, AuthServiceImpl, AuthenticateByPasswordError};
use academy_auth::ids::UserId;
use academy_auth::users::{hash_password, User, UserStore};

fn sut() -> AuthServiceImpl {
    AuthServiceImpl::new(
        AuthServiceConfig { access_token_ttl: 300, refresh_token_ttl: 3600, refresh_token_length: 32, internal_token_ttl: 10 },
        b"key".to_vec(),
    )
}

fn user(id: u128) -> User {
    User { id: UserId(id), admin: false, enabled: true, email_verified: false }
}

#[test]
fn no_password_hash_is_invalid_credentials() {
    let mut users = UserStore::new();
    assert!(users.create(user(1), None));
    assert_eq!(
        sut().authenticate_by_password(&users, UserId(1), "anything"),
        Err(AuthenticateByPasswordError::InvalidCredentials)
    );
    assert_eq!(
        sut().authenticate_by_password(&users, UserId(2), "anything"),
        Err(AuthenticateByPasswordError::InvalidCredentials)
    );
}

#[test]
fn password_is_checked_against_its_hash() {
    let mut users = UserStore::new();
    let hash = hash_password("foo password").unwrap();
    assert!(hash.starts_with("$argon2"));
    assert!(users.create(user(1), Some(hash)));
    assert_eq!(sut().authenticate_by_password(&users, UserId(1), "foo password"), Ok(()));
    assert_eq!(
        sut().authenticate_by_password(&users, UserId(1), "wrong password"),
        Err(AuthenticateByPasswordError::InvalidCredentials)
    );
}

#[test]
fn malformed_hash_is_invalid_credentials() {
    let mut users = UserStore::new();
    assert!(users.create(user(1), Some("not a hash".to_string())));
    assert_eq!(
        sut().authenticate_by_password(&users, UserId(1), "not a hash"),
        Err(AuthenticateByPasswordError::InvalidCredentials)
    );
}

#[test]
fn user_store_keeps_ids_unique() {
    let mut users = UserStore::new();
    assert!(users.create(user(1), None));
    assert!(!users.create(user(1), None));
    assert!(users.contains(UserId(1)));
    assert!(users.save_password_hash(UserId(1), "h".to_string()));
    assert_eq!(users.get_password_hash(UserId(1)).map(|s| s.as_str()), Some("h"));
    assert!(!users.save_password_hash(UserId(2), "h".to_string()));
    assert!(users.delete(UserId(1)));
    assert!(!users.delete(UserId(1)));
    assert_eq!(users.get(UserId(1)), None);
}
