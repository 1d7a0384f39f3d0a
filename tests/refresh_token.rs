use academy_auth::auth::{
    hash_refresh_token, AuthServiceConfig, AuthServiceImpl, AuthenticateByRefreshTokenError,
};
use academy_auth::ids::{SessionId, UserId};
use academy_auth::session::{Session, SessionStore};

const DAY: u64 = 24 * 60 * 60;
const UPDATED_AT: u64 = 1_710_510_000;

fn config() -> AuthServiceConfig {
    AuthServiceConfig {
        access_token_ttl: 300,
        refresh_token_ttl: 30 * DAY,
        refresh_token_length: 64,
        internal_token_ttl: 10,
    }
}

fn foo_1() -> Session {
    Session {
        id: SessionId(0x2b3a_6a7e_1f4c_4f0a_9d1e_3b5c_7a9e_0f12),
        user_id: UserId(0xa8d9_5e0f_71ae_4c49_995e_695b_7c93_848c),
        device_name: None,
        created_at: UPDATED_AT - DAY,
        updated_at: UPDATED_AT,
    }
}

fn store_with_foo_1() -> SessionStore {
    let mut store = SessionStore::new();
    store
        .create(foo_1(), hash_refresh_token("the refresh token"))
        .unwrap();
    store
}

#[test]
fn authenticate_by_refresh_token_ok() {
    let config = config();
    let sut = AuthServiceImpl::new(config, b"key".to_vec());
    let sessions = store_with_foo_1();
    let now = foo_1().updated_at + config.refresh_token_ttl - 1;

    let result = sut.authenticate_by_refresh_token(&sessions, "the refresh token", now);

    assert_eq!(result.unwrap(), foo_1().id);
}

#[test]
fn authenticate_by_refresh_token_invalid() {
    let sut = AuthServiceImpl::new(config(), b"key".to_vec());
    let sessions = SessionStore::new();

    let result = sut.authenticate_by_refresh_token(&sessions, "the refresh token", UPDATED_AT);

    assert!(matches!(result, Err(AuthenticateByRefreshTokenError::Invalid)));
}

#[test]
fn authenticate_by_refresh_token_expired() {
    let config = config();
    let sut = AuthServiceImpl::new(config, b"key".to_vec());
    let sessions = store_with_foo_1();
    let now = foo_1().updated_at + config.refresh_token_ttl + 2;

    let result = sut.authenticate_by_refresh_token(&sessions, "the refresh token", now);

    assert!(matches!(result, Err(AuthenticateByRefreshTokenError::Expired(x)) if x == foo_1().id));
}

#[test]
fn refresh_token_at_29_and_31_days() {
    let sut = AuthServiceImpl::new(config(), b"key".to_vec());
    let sessions = store_with_foo_1();
    let s1 = foo_1();

    let early = sut.authenticate_by_refresh_token(&sessions, "the refresh token", s1.updated_at + 29 * DAY);
    let late = sut.authenticate_by_refresh_token(&sessions, "the refresh token", s1.updated_at + 31 * DAY);

    assert_eq!(early, Ok(s1.id));
    assert_eq!(late, Err(AuthenticateByRefreshTokenError::Expired(s1.id)));
}

#[test]
fn refresh_token_expires_exactly_at_ttl() {
    let config = config();
    let sut = AuthServiceImpl::new(config, b"key".to_vec());
    let sessions = store_with_foo_1();
    let now = UPDATED_AT + config.refresh_token_ttl;
    assert_eq!(
        sut.authenticate_by_refresh_token(&sessions, "the refresh token", now),
        Err(AuthenticateByRefreshTokenError::Expired(foo_1().id))
    );
}

#[test]
fn another_refresh_token_is_invalid() {
    let sut = AuthServiceImpl::new(config(), b"key".to_vec());
    let sessions = store_with_foo_1();
    assert_eq!(
        sut.authenticate_by_refresh_token(&sessions, "another token", UPDATED_AT),
        Err(AuthenticateByRefreshTokenError::Invalid)
    );
}

#[test]
fn refresh_token_hash_is_sha256() {
    let h = hash_refresh_token("abc");
    let hex: String = h.0.iter().map(|b| format!("{:02x}", b)).collect();
    assert_eq!(hex, "ba7816bf8f01cfea414140de5dae2223b00361a396177a9cb410ff61f20015ad");
}
