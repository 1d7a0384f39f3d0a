use academy_auth::access_token::AccessToken;
use academy_auth::auth::{hash_refresh_token, AuthError};
use academy_auth::ids::{SessionId, UserId};
use academy_auth::provider::{Config, ConfigProvider, Database, Provider};
use academy_auth::revocation::RevocationCache;
use academy_auth::session::Session;
use academy_auth::user_service::{UserCreateError, UserDeleteError};
use academy_auth::users::User;

const NOW: u64 = 1_720_000_000;

fn provider() -> Provider {
    let config = Config {
        access_token_ttl: 300,
        refresh_token_ttl: 3600,
        refresh_token_length: 64,
        internal_token_ttl: 10,
        jwt_secret: b"secret".to_vec(),
        totp_secret_length: 20,
    };
    let mut db = Database::new();
    for id in [1u128, 2] {
        db.users.create(User { id: UserId(id), admin: false, enabled: true, email_verified: true }, None);
    }
    Provider::new(ConfigProvider::new(&config).unwrap(), db, RevocationCache::new())
}

fn login(p: &mut Provider, user: u128, session: u128, rt: &str) -> AccessToken {
    let auth = p.auth_service();
    let u = p.database.users.get(UserId(user)).unwrap();
    let tokens = auth.issue_tokens_with(&u, SessionId(session), rt.to_string(), NOW);
    let s = Session { id: SessionId(session), user_id: UserId(user), device_name: None, created_at: NOW, updated_at: NOW };
    p.database.sessions.create(s, tokens.refresh_token_hash).unwrap();
    tokens.access_token
}

#[test]
fn delete_user_revokes_tokens_and_removes_records() {
    let mut p = provider();
    let a = login(&mut p, 1, 10, "a");
    let b = login(&mut p, 1, 11, "b");
    let other = login(&mut p, 2, 12, "c");
    let users = p.user_service();
    let auth = p.auth_service();

    let r = users.delete_user(&mut p.database, &mut p.cache, &a, None, NOW + 1);
    assert_eq!(r, Ok(()));
    assert!(!p.database.users.contains(UserId(1)));
    assert!(p.database.sessions.get(SessionId(10)).is_none());
    assert!(p.database.sessions.get(SessionId(11)).is_none());
    assert!(p.database.sessions.get(SessionId(12)).is_some());
    assert!(auth.authenticate(&p.cache, &a, NOW + 2).is_err());
    assert!(auth.authenticate(&p.cache, &b, NOW + 2).is_err());
    assert!(auth.authenticate(&p.cache, &other, NOW + 2).is_ok());
    assert!(p.cache.is_invalidated(&hash_refresh_token("b"), NOW + 2));
}

#[test]
fn delete_user_errors() {
    let mut p = provider();
    let a = login(&mut p, 1, 10, "a");
    let users = p.user_service();
    assert_eq!(
        users.delete_user(&mut p.database, &mut p.cache, &a, Some(UserId(2)), NOW),
        Err(UserDeleteError::Auth(AuthError::Authorize(academy_auth::auth::AuthorizeError::Forbidden)))
    );
    assert!(p.database.users.contains(UserId(2)));
    let mut db = Database::new();
    let mut cache = RevocationCache::new();
    assert_eq!(users.delete_user(&mut db, &mut cache, &a, None, NOW), Err(UserDeleteError::NotFound));
}

#[test]
fn create_user_opens_first_session() {
    let mut p = provider();
    let users = p.user_service();
    let auth = p.auth_service();
    let login = users
        .create_user_with(&mut p.database, UserId(7), "hash".to_string(), None, SessionId(70), "rt7".to_string(), NOW)
        .unwrap();
    let created = p.database.users.get(UserId(7)).unwrap();
    assert!(created.enabled && !created.admin && !created.email_verified);
    assert_eq!(p.database.users.get_password_hash(UserId(7)).map(|h| h.as_str()), Some("hash"));
    assert_eq!(login.session.user_id, UserId(7));
    let a = auth.authenticate(&p.cache, &login.tokens.access_token, NOW + 1).unwrap();
    assert_eq!(a.session_id, SessionId(70));

    let again = users.create_user_with(&mut p.database, UserId(7), "h".to_string(), None, SessionId(71), "x".to_string(), NOW);
    assert_eq!(again.unwrap_err(), UserCreateError::Conflict);
    let clash = users.create_user_with(&mut p.database, UserId(8), "h".to_string(), None, SessionId(70), "y".to_string(), NOW);
    assert_eq!(clash.unwrap_err(), UserCreateError::SessionConflict);
    assert!(!p.database.users.contains(UserId(8)));
}

#[test]
fn create_user_with_password() {
    let mut p = provider();
    let users = p.user_service();
    let auth = p.auth_service();
    let login = users.create_user(&mut p.database, "new password", None, NOW).unwrap();
    let id = login.session.user_id;
    assert!(auth.authenticate_by_password(&p.database.users, id, "new password").is_ok());
    assert!(auth.authenticate_by_password(&p.database.users, id, "other").is_err());
}
