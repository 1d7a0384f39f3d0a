use academy_auth::access_token::{AccessToken, AccessTokenCodec, Authentication, VerifyJwtError};
use academy_auth::auth::{
    hash_refresh_token, AuthError, AuthServiceConfig, AuthServiceImpl, AuthenticateError,
    AuthorizeError,
};
use academy_auth::ids::{SessionId, UserId};
use academy_auth::revocation::RevocationCache;
use academy_auth::session::{Session, SessionStore};
use academy_auth::users::User;

const NOW: u64 = 1_720_000_000;

fn config() -> AuthServiceConfig {
    AuthServiceConfig {
        access_token_ttl: 300,
        refresh_token_ttl: 30 * 24 * 3600,
        refresh_token_length: 64,
        internal_token_ttl: 10,
    }
}

fn user(id: u128, admin: bool) -> User {
    User { id: UserId(id), admin, enabled: true, email_verified: true }
}

fn auth_for(user_id: u128, session_id: u128, token: &str, admin: bool) -> Authentication {
    Authentication {
        user_id: UserId(user_id),
        session_id: SessionId(session_id),
        refresh_token_hash: hash_refresh_token(token),
        admin,
        email_verified: false,
    }
}

#[test]
fn verify_returns_issued_claims_before_expiry() {
    let codec = AccessTokenCodec::new(b"signing key".to_vec(), 300);
    let auth = auth_for(7, 9, "rt", true);
    let token = codec.issue(&auth, NOW);

    let got = codec.verify(&token, NOW + 299).unwrap();
    assert_eq!(got.user_id, UserId(7));
    assert_eq!(got.session_id, SessionId(9));
    assert_eq!(got.refresh_token_hash.0, hash_refresh_token("rt").0);
    assert!(got.admin);
    assert!(!got.email_verified);
}

#[test]
fn verify_refuses_expired_token() {
    let codec = AccessTokenCodec::new(b"signing key".to_vec(), 300);
    let token = codec.issue(&auth_for(7, 9, "rt", false), NOW);
    assert!(codec.verify(&token, NOW + 300).is_none());
    match codec.decode(&token, NOW + 301) {
        Err(VerifyJwtError::Expired(a)) => assert_eq!(a.user_id, UserId(7)),
        other => panic!("expected Expired, got {:?}", other),
    }
}

#[test]
fn verify_refuses_tampered_token() {
    let codec = AccessTokenCodec::new(b"signing key".to_vec(), 300);
    let mut token = codec.issue(&auth_for(7, 9, "rt", false), NOW);
    token.0[64] = 1;
    assert!(codec.verify(&token, NOW).is_none());
    assert!(matches!(codec.decode(&token, NOW), Err(VerifyJwtError::Invalid)));
}

#[test]
fn verify_refuses_other_key_and_garbage() {
    let codec = AccessTokenCodec::new(b"signing key".to_vec(), 300);
    let other = AccessTokenCodec::new(b"another key".to_vec(), 300);
    let token = codec.issue(&auth_for(7, 9, "rt", false), NOW);
    assert!(other.verify(&token, NOW).is_none());
    assert!(codec.verify(&AccessToken(vec![]), NOW).is_none());
    assert!(codec.verify(&AccessToken(vec![0u8; 106]), NOW).is_none());
}

#[test]
fn token_layout_has_claims_then_tag() {
    let codec = AccessTokenCodec::new(b"k".to_vec(), 300);
    let token = codec.issue(&auth_for(1, 2, "rt", true), 100);
    assert_eq!(token.0.len(), 74 + 32);
    assert_eq!(token.0[0], 1);
    assert_eq!(token.0[16], 2);
    assert_eq!(token.0[64], 1);
    assert_eq!(&token.0[66..74], &400u64.to_le_bytes());
}

#[test]
fn issue_tokens_binds_access_token_to_new_refresh_token() {
    let sut = AuthServiceImpl::new(config(), b"key".to_vec());
    let tokens = sut.issue_tokens(&user(5, false), SessionId(6), NOW);
    assert_eq!(tokens.refresh_token.len(), 64);
    assert!(tokens.refresh_token.chars().all(|c| c.is_ascii_alphanumeric()));
    assert_eq!(tokens.refresh_token_hash.0, hash_refresh_token(&tokens.refresh_token).0);

    let cache = RevocationCache::new();
    let auth = sut.authenticate(&cache, &tokens.access_token, NOW + 10).unwrap();
    assert_eq!(auth.user_id, UserId(5));
    assert_eq!(auth.session_id, SessionId(6));
    assert_eq!(auth.refresh_token_hash.0, tokens.refresh_token_hash.0);

    let again = sut.issue_tokens(&user(5, false), SessionId(6), NOW);
    assert_ne!(again.refresh_token, tokens.refresh_token);
}

#[test]
fn revocation_is_sticky_until_it_lapses() {
    let sut = AuthServiceImpl::new(config(), b"key".to_vec());
    let tokens = sut.issue_tokens_with(&user(5, false), SessionId(6), "refresh".to_string(), NOW);
    let mut cache = RevocationCache::new();
    assert!(sut.authenticate(&cache, &tokens.access_token, NOW + 1).is_ok());

    cache.invalidate(&tokens.refresh_token_hash, NOW + 1 + 300);
    for t in [NOW + 1, NOW + 2, NOW + 2, NOW + 299] {
        assert_eq!(
            sut.authenticate(&cache, &tokens.access_token, t).unwrap_err(),
            AuthenticateError::InvalidToken
        );
    }
    cache.invalidate(&hash_refresh_token("unrelated"), NOW + 10);
    cache.purge(NOW + 50);
    assert!(cache.is_invalidated(&tokens.refresh_token_hash, NOW + 50));
    assert!(sut.authenticate(&cache, &tokens.access_token, NOW + 60).is_err());
    assert!(!cache.is_invalidated(&tokens.refresh_token_hash, NOW + 301));
    assert!(!cache.is_invalidated(&hash_refresh_token("unrelated"), NOW + 50));
}

fn session(id: u128, user_id: u128) -> Session {
    Session { id: SessionId(id), user_id: UserId(user_id), device_name: None, created_at: NOW, updated_at: NOW }
}

#[test]
fn invalidate_access_tokens_revokes_every_session_of_the_user() {
    let sut = AuthServiceImpl::new(config(), b"key".to_vec());
    let mut sessions = SessionStore::new();
    let a = sut.issue_tokens_with(&user(5, false), SessionId(1), "first".to_string(), NOW);
    let b = sut.issue_tokens_with(&user(5, false), SessionId(2), "second".to_string(), NOW);
    let c = sut.issue_tokens_with(&user(8, false), SessionId(3), "third".to_string(), NOW);
    sessions.create(session(1, 5), a.refresh_token_hash).unwrap();
    sessions.create(session(2, 5), b.refresh_token_hash).unwrap();
    sessions.create(session(3, 8), c.refresh_token_hash).unwrap();
    assert_eq!(sessions.list_refresh_token_hashes_by_user(UserId(5)).len(), 2);

    let mut cache = RevocationCache::new();
    sut.invalidate_access_tokens(&sessions, &mut cache, UserId(5), NOW + 5);

    assert!(sut.authenticate(&cache, &a.access_token, NOW + 6).is_err());
    assert!(sut.authenticate(&cache, &b.access_token, NOW + 6).is_err());
    assert!(sut.authenticate(&cache, &c.access_token, NOW + 6).is_ok());
}

#[test]
fn authorize_self_or_admin() {
    let sut = AuthServiceImpl::new(config(), b"key".to_vec());
    let cache = RevocationCache::new();
    let plain = sut.issue_tokens_with(&user(5, false), SessionId(1), "p".to_string(), NOW);
    let admin = sut.issue_tokens_with(&user(6, true), SessionId(2), "a".to_string(), NOW);

    assert_eq!(sut.authorize_self_or_admin(&cache, &plain.access_token, None, NOW), Ok(UserId(5)));
    assert_eq!(sut.authorize_self_or_admin(&cache, &plain.access_token, Some(UserId(5)), NOW), Ok(UserId(5)));
    assert_eq!(
        sut.authorize_self_or_admin(&cache, &plain.access_token, Some(UserId(6)), NOW),
        Err(AuthError::Authorize(AuthorizeError::Forbidden))
    );
    assert_eq!(sut.authorize_self_or_admin(&cache, &admin.access_token, Some(UserId(5)), NOW), Ok(UserId(5)));
    assert_eq!(
        sut.authorize_self_or_admin(&cache, &AccessToken(vec![1, 2, 3]), None, NOW),
        Err(AuthError::Authenticate(AuthenticateError::InvalidToken))
    );
}

#[test]
fn ensure_admin_and_self() {
    let a = auth_for(1, 1, "x", false);
    assert!(a.ensure_admin().is_err());
    assert!(a.ensure_self_or_admin(UserId(1)).is_ok());
    assert!(a.ensure_self_or_admin(UserId(2)).is_err());
    let b = auth_for(1, 1, "x", true);
    assert!(b.ensure_admin().is_ok());
    assert!(b.ensure_self_or_admin(UserId(2)).is_ok());
}
