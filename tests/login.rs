use academy_auth::auth::{hash_refresh_token, AuthServiceConfig, AuthServiceImpl};
use academy_auth::ids::{SessionId, UserId};
use academy_auth::access_token::AccessToken;
use academy_auth::auth::{AuthError, AuthenticateError};
use academy_auth::login::{LoginError, SessionGetCurrentError};
use academy_auth::revocation::RevocationCache;
use academy_auth::session::{DeviceName, SessionStore};
use academy_auth::users::{hash_password, User, UserStore};

const NOW: u64 = 1_720_000_000;

fn sut() -> AuthServiceImpl {
    AuthServiceImpl::new(
        AuthServiceConfig { access_token_ttl: 300, refresh_token_ttl: 3600, refresh_token_length: 40, internal_token_ttl: 10 },
        b"key".to_vec(),
    )
}

fn users() -> UserStore {
    let mut users = UserStore::new();
    users.create(User { id: UserId(1), admin: false, enabled: true, email_verified: true }, Some(hash_password("pw").unwrap()));
    users.create(User { id: UserId(2), admin: false, enabled: true, email_verified: true }, None);
    users
}

#[test]
fn login_opens_a_session_and_logout_revokes_it() {
    let sut = sut();
    let users = users();
    let mut sessions = SessionStore::new();
    let mut cache = RevocationCache::new();
    let device = Some(DeviceName::from_string_truncated("desk".to_string()));
    let login = sut
        .login_with(&users, &mut sessions, UserId(1), "pw", device, SessionId(5), "rt".to_string(), NOW)
        .unwrap();
    assert_eq!(login.session.id, SessionId(5));
    assert_eq!(login.session.created_at, NOW);
    assert_eq!(sessions.get_by_refresh_token_hash(&hash_refresh_token("rt")).unwrap().id, SessionId(5));
    let auth = sut.authenticate(&cache, &login.tokens.access_token, NOW + 1).unwrap();
    assert_eq!(auth.user_id, UserId(1));

    assert!(sut.logout(&mut sessions, &mut cache, SessionId(5), NOW + 2));
    assert!(sessions.get(SessionId(5)).is_none());
    assert!(sut.authenticate(&cache, &login.tokens.access_token, NOW + 3).is_err());
    assert!(!sut.logout(&mut sessions, &mut cache, SessionId(5), NOW + 4));
}

#[test]
fn login_errors() {
    let sut = sut();
    let users = users();
    let mut sessions = SessionStore::new();
    let r = sut.login_with(&users, &mut sessions, UserId(1), "wrong", None, SessionId(5), "rt".to_string(), NOW);
    assert_eq!(r.unwrap_err(), LoginError::InvalidCredentials);
    let r = sut.login_with(&users, &mut sessions, UserId(2), "", None, SessionId(5), "rt".to_string(), NOW);
    assert_eq!(r.unwrap_err(), LoginError::InvalidCredentials);
    let r = sut.login_with(&users, &mut sessions, UserId(9), "pw", None, SessionId(5), "rt".to_string(), NOW);
    assert_eq!(r.unwrap_err(), LoginError::InvalidCredentials);
    sut.login_with(&users, &mut sessions, UserId(1), "pw", None, SessionId(5), "rt".to_string(), NOW).unwrap();
    let r = sut.login_with(&users, &mut sessions, UserId(1), "pw", None, SessionId(5), "other".to_string(), NOW);
    assert_eq!(r.unwrap_err(), LoginError::Conflict);
}

#[test]
fn login_with_fresh_tokens() {
    let sut = sut();
    let users = users();
    let mut sessions = SessionStore::new();
    let a = sut.login(&users, &mut sessions, UserId(1), "pw", None, NOW).unwrap();
    let b = sut.login(&users, &mut sessions, UserId(1), "pw", None, NOW).unwrap();
    assert_ne!(a.session.id, b.session.id);
    assert_eq!(a.tokens.refresh_token.len(), 40);
    assert_eq!(sessions.list_refresh_token_hashes_by_user(UserId(1)).len(), 2);
}

#[test]
fn get_current_session_ok() {
    let sut = sut();
    let users = users();
    let mut sessions = SessionStore::new();
    let cache = RevocationCache::new();
    let login = sut
        .login_with(&users, &mut sessions, UserId(1), "pw", None, SessionId(5), "rt".to_string(), NOW)
        .unwrap();

    let result = sut.get_current_session(&cache, &sessions, &login.tokens.access_token, NOW + 1);

    let session = result.unwrap();
    assert_eq!(session.id, login.session.id);
    assert_eq!(session.user_id, login.session.user_id);
    assert_eq!(session.created_at, login.session.created_at);
}

#[test]
fn unauthenticated() {
    let sut = sut();
    let sessions = SessionStore::new();
    let cache = RevocationCache::new();

    let result = sut.get_current_session(&cache, &sessions, &AccessToken(b"token".to_vec()), NOW);

    assert!(matches!(
        result,
        Err(SessionGetCurrentError::Auth(AuthError::Authenticate(AuthenticateError::InvalidToken)))
    ));
}
