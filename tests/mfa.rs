use academy_auth::access_token::AccessToken;
use academy_auth::auth::{AuthError, AuthServiceConfig, AuthServiceImpl, AuthorizeError};
use academy_auth::ids::{SessionId, TotpDeviceId, UserId};
use academy_auth::mfa::{MfaAuthentication, MfaRecoveryCode, MfaStore, TotpCode, TotpSecret, TotpSecretLength};
use academy_auth::mfa_service::{
    authenticate_mfa, check_totp_code, setup_recovery_code, verify_and_consume,
    MfaAuthenticateError, MfaDisableError, MfaEnableError, MfaInitializeError, MfaRecoveryError,
    MfaServiceImpl,
};
use academy_auth::revocation::RevocationCache;
use academy_auth::users::{User, UserStore};

const NOW: u64 = 1_720_000_000;
const KEY: &[u8] = b"mfa key";

fn config() -> AuthServiceConfig {
    AuthServiceConfig { access_token_ttl: 3600, refresh_token_ttl: 86400, refresh_token_length: 32, internal_token_ttl: 10 }
}

fn auth() -> AuthServiceImpl {
    AuthServiceImpl::new(config(), KEY.to_vec())
}

fn service() -> MfaServiceImpl {
    MfaServiceImpl::new(auth(), TotpSecretLength::try_new(20).unwrap())
}

fn token_for(id: u128, admin: bool) -> AccessToken {
    let user = User { id: UserId(id), admin, enabled: true, email_verified: true };
    auth().issue_tokens_with(&user, SessionId(id + 100), format!("rt{}", id), NOW).access_token
}

fn users() -> UserStore {
    let mut users = UserStore::new();
    for id in [1u128, 2, 3] {
        users.create(User { id: UserId(id), admin: id == 3, enabled: true, email_verified: true }, None);
    }
    users
}

fn code_at(secret: &[u8], time: u64) -> TotpCode {
    let text = totp_rs::TOTP::new_unchecked(totp_rs::Algorithm::SHA1, 6, 0, 30, secret.to_vec()).generate(time);
    TotpCode::try_new(text).unwrap()
}

fn secret(bytes: &[u8]) -> TotpSecret {
    TotpSecret::try_new(bytes.to_vec()).unwrap()
}

fn secret_of(bytes: Vec<u8>) -> TotpSecret {
    TotpSecret::try_new(bytes).unwrap()
}

const SECRET_A: [u8; 20] = [7u8; 20];
const SECRET_B: [u8; 20] = [9u8; 20];

#[test]
fn initialize_twice_resets_the_pending_device() {
    let sut = service();
    let users = users();
    let mut mfa = MfaStore::new();
    let cache = RevocationCache::new();
    let token = token_for(1, false);

    let first = sut
        .initialize_with(&users, &mut mfa, &cache, &token, None, secret(&SECRET_A), TotpDeviceId(11), NOW)
        .unwrap();
    let device = mfa.device(UserId(1)).unwrap();
    assert_eq!(device.id, TotpDeviceId(11));
    assert!(!device.enabled);
    assert_eq!(first.secret, "A4DQOBYHA4DQOBYHA4DQOBYHA4DQOBYH");

    let second = sut
        .initialize_with(&users, &mut mfa, &cache, &token, None, secret(&SECRET_B), TotpDeviceId(12), NOW + 5)
        .unwrap();
    let device = mfa.device(UserId(1)).unwrap();
    assert_eq!(device.id, TotpDeviceId(11));
    assert_eq!(device.created_at, NOW);
    assert_ne!(first.secret, second.secret);
    assert_eq!(mfa.device_secret(UserId(1)).unwrap(), &SECRET_B.to_vec());
}

#[test]
fn initialize_with_random_secret() {
    let sut = service();
    let users = users();
    let mut mfa = MfaStore::new();
    let cache = RevocationCache::new();
    let token = token_for(1, false);
    let a = sut.initialize(&users, &mut mfa, &cache, &token, None, NOW).unwrap();
    let b = sut.initialize(&users, &mut mfa, &cache, &token, None, NOW).unwrap();
    assert_ne!(a.secret, b.secret);
    let bytes = totp_rs::Secret::Encoded(b.secret.clone()).to_bytes().unwrap();
    assert_eq!(bytes.len(), 20);
    assert_eq!(mfa.device_secret(UserId(1)).unwrap(), &bytes);
}

#[test]
fn enable_succeeds_once_and_issues_one_recovery_code() {
    let sut = service();
    let users = users();
    let mut mfa = MfaStore::new();
    let cache = RevocationCache::new();
    let token = token_for(1, false);
    sut.initialize_with(&users, &mut mfa, &cache, &token, None, secret(&SECRET_A), TotpDeviceId(11), NOW)
        .unwrap();

    let code = sut.enable(&users, &mut mfa, &cache, &token, None, &code_at(&SECRET_A, NOW), NOW).unwrap();
    assert!(mfa.device(UserId(1)).unwrap().enabled);
    assert_eq!(code.as_str().len(), 27);
    assert!(mfa.recovery_hash(UserId(1)).is_some());

    let again = sut.enable(&users, &mut mfa, &cache, &token, None, &code_at(&SECRET_A, NOW), NOW);
    assert!(matches!(again, Err(MfaEnableError::AlreadyEnabled)));
    assert!(matches!(
        sut.initialize(&users, &mut mfa, &cache, &token, None, NOW),
        Err(MfaInitializeError::AlreadyEnabled)
    ));
}

#[test]
fn enable_accepts_one_step_of_skew_and_refuses_stale_codes() {
    let secret = SECRET_A.to_vec();
    assert!(check_totp_code(&secret, &code_at(&SECRET_A, NOW - 30), NOW));
    assert!(check_totp_code(&secret, &code_at(&SECRET_A, NOW + 30), NOW));
    assert!(!check_totp_code(&secret, &code_at(&SECRET_A, NOW - 300), NOW));
    assert!(check_totp_code(&secret, &code_at(&SECRET_A, 0), 0));

    let sut = service();
    let users = users();
    let mut mfa = MfaStore::new();
    let cache = RevocationCache::new();
    let token = token_for(1, false);
    sut.initialize_with(&users, &mut mfa, &cache, &token, None, secret_of(secret), TotpDeviceId(11), NOW).unwrap();
    let stale = sut.enable(&users, &mut mfa, &cache, &token, None, &code_at(&SECRET_A, NOW - 300), NOW);
    assert!(matches!(stale, Err(MfaEnableError::InvalidCode)));
    assert!(!mfa.device(UserId(1)).unwrap().enabled);
    assert!(mfa.recovery_hash(UserId(1)).is_none());
}

#[test]
fn enable_errors() {
    let sut = service();
    let users = users();
    let mut mfa = MfaStore::new();
    let cache = RevocationCache::new();
    let code = code_at(&SECRET_A, NOW);
    let r = sut.enable(&users, &mut mfa, &cache, &token_for(1, false), None, &code, NOW);
    assert!(matches!(r, Err(MfaEnableError::NotInitialized)));
    let r = sut.enable(&users, &mut mfa, &cache, &token_for(9, false), None, &code, NOW);
    assert!(matches!(r, Err(MfaEnableError::NotFound)));
    let r = sut.enable(&users, &mut mfa, &cache, &token_for(1, false), Some(UserId(2)), &code, NOW);
    assert!(matches!(r, Err(MfaEnableError::Auth(AuthError::Authorize(AuthorizeError::Forbidden)))));
    let r = sut.enable(&users, &mut mfa, &cache, &AccessToken(vec![]), None, &code, NOW);
    assert!(matches!(r, Err(MfaEnableError::Auth(AuthError::Authenticate(_)))));
}

#[test]
fn admin_sets_up_and_disables_for_another_user() {
    let sut = service();
    let users = users();
    let mut mfa = MfaStore::new();
    let cache = RevocationCache::new();
    let admin = token_for(3, true);
    assert!(matches!(
        sut.disable(&users, &mut mfa, &cache, &admin, Some(UserId(2)), NOW),
        Err(MfaDisableError::NotEnabled)
    ));
    sut.initialize_with(&users, &mut mfa, &cache, &admin, Some(UserId(2)), secret(&SECRET_A), TotpDeviceId(5), NOW)
        .unwrap();
    assert!(matches!(
        sut.disable(&users, &mut mfa, &cache, &admin, Some(UserId(2)), NOW),
        Err(MfaDisableError::NotEnabled)
    ));
    sut.enable(&users, &mut mfa, &cache, &admin, Some(UserId(2)), &code_at(&SECRET_A, NOW), NOW).unwrap();
    assert_eq!(sut.disable(&users, &mut mfa, &cache, &admin, Some(UserId(2)), NOW), Ok(()));
    assert!(mfa.device(UserId(2)).is_none());
    assert!(mfa.recovery_hash(UserId(2)).is_none());
    assert!(matches!(
        sut.initialize(&users, &mut mfa, &cache, &admin, Some(UserId(42)), NOW),
        Err(MfaInitializeError::NotFound)
    ));
    assert!(matches!(
        sut.disable(&users, &mut mfa, &cache, &admin, Some(UserId(42)), NOW),
        Err(MfaDisableError::NotFound)
    ));
}

#[test]
fn recovery_code_is_single_use() {
    let mut mfa = MfaStore::new();
    let code = MfaRecoveryCode::try_new("ABCDEF-123456-GHIJKL-789012").unwrap();
    assert_eq!(verify_and_consume(&mut mfa, UserId(1), &code), Err(MfaRecoveryError::InvalidCode));
    setup_recovery_code(&mut mfa, UserId(1), &code);
    let other = MfaRecoveryCode::try_new("ZZZZZZ-123456-GHIJKL-789012").unwrap();
    assert_eq!(verify_and_consume(&mut mfa, UserId(1), &other), Err(MfaRecoveryError::InvalidCode));
    assert_eq!(verify_and_consume(&mut mfa, UserId(2), &code), Err(MfaRecoveryError::InvalidCode));
    assert_eq!(verify_and_consume(&mut mfa, UserId(1), &code), Ok(()));
    assert_eq!(verify_and_consume(&mut mfa, UserId(1), &code), Err(MfaRecoveryError::InvalidCode));
}

#[test]
fn recovery_code_shape() {
    let lower = MfaRecoveryCode::try_new("abcdef-123456-ghijkl-789012").unwrap();
    assert_eq!(lower.as_str(), "ABCDEF-123456-GHIJKL-789012");
    assert!(MfaRecoveryCode::try_new("ABCDEF-123456-GHIJKL-78901").is_none());
    assert!(MfaRecoveryCode::try_new("ABCDEF_123456-GHIJKL-789012").is_none());
    assert!(MfaRecoveryCode::try_new("ABCDEF-12345!-GHIJKL-789012").is_none());
    let fresh = MfaRecoveryCode::generate();
    let s = fresh.as_str();
    assert_eq!(s.len(), 27);
    for (i, c) in s.chars().enumerate() {
        if i % 7 == 6 {
            assert_eq!(c, '-');
        } else {
            assert!(c.is_ascii_uppercase() || c.is_ascii_digit());
        }
    }
    assert!(MfaRecoveryCode::try_new(s).is_some());
}

#[test]
fn totp_code_shape() {
    assert!(TotpCode::try_new("123456".to_string()).is_some());
    assert!(TotpCode::try_new("12345".to_string()).is_none());
    assert!(TotpCode::try_new("1234567".to_string()).is_none());
    assert!(TotpCode::try_new("12a456".to_string()).is_none());
}

#[test]
fn secret_minimum() {
    assert!(TotpSecret::try_new(vec![1u8; 15]).is_none());
    assert_eq!(TotpSecret::try_new(vec![1u8; 16]).unwrap().into_inner(), vec![1u8; 16]);
}

#[test]
fn secret_length_minimum() {
    assert!(TotpSecretLength::try_new(15).is_none());
    assert_eq!(TotpSecretLength::try_new(16).unwrap().get(), 16);
}

#[test]
fn login_second_factor() {
    let sut = service();
    let users = users();
    let mut mfa = MfaStore::new();
    let cache = RevocationCache::new();
    let token = token_for(1, false);
    let none = MfaAuthentication { totp_code: None, recovery_code: None };
    assert_eq!(authenticate_mfa(&mut mfa, UserId(1), &none, NOW), Ok(()));

    sut.initialize_with(&users, &mut mfa, &cache, &token, None, secret(&SECRET_A), TotpDeviceId(11), NOW).unwrap();
    let recovery = sut.enable(&users, &mut mfa, &cache, &token, None, &code_at(&SECRET_A, NOW), NOW).unwrap();

    assert_eq!(authenticate_mfa(&mut mfa, UserId(1), &none, NOW), Err(MfaAuthenticateError::Failed));
    let totp = MfaAuthentication { totp_code: Some(code_at(&SECRET_A, NOW + 60)), recovery_code: None };
    assert_eq!(authenticate_mfa(&mut mfa, UserId(1), &totp, NOW + 60), Ok(()));
    let stale = MfaAuthentication { totp_code: Some(code_at(&SECRET_A, NOW)), recovery_code: None };
    assert_eq!(authenticate_mfa(&mut mfa, UserId(1), &stale, NOW + 600), Err(MfaAuthenticateError::Failed));

    let rc = MfaRecoveryCode::try_new(recovery.as_str()).unwrap();
    let with_rc = MfaAuthentication { totp_code: None, recovery_code: Some(rc) };
    assert_eq!(authenticate_mfa(&mut mfa, UserId(1), &with_rc, NOW + 600), Ok(()));
    assert_eq!(authenticate_mfa(&mut mfa, UserId(1), &with_rc, NOW + 600), Err(MfaAuthenticateError::Failed));
}

#[test]
fn login_with_second_factor() {
    let sut = service();
    let auth = auth();
    let mut users = UserStore::new();
    users.create(
        User { id: UserId(1), admin: false, enabled: true, email_verified: true },
        Some(academy_auth::users::hash_password("pw").unwrap()),
    );
    let mut sessions = academy_auth::session::SessionStore::new();
    let mut mfa = MfaStore::new();
    let cache = RevocationCache::new();
    let token = token_for(1, false);
    let none = MfaAuthentication { totp_code: None, recovery_code: None };

    let first = auth.login_with_mfa(&users, &mut sessions, &mut mfa, UserId(1), "pw", &none, None, SessionId(1), "a".to_string(), NOW);
    assert!(first.is_ok());

    sut.initialize_with(&users, &mut mfa, &cache, &token, None, secret(&SECRET_A), TotpDeviceId(11), NOW).unwrap();
    let recovery = sut.enable(&users, &mut mfa, &cache, &token, None, &code_at(&SECRET_A, NOW), NOW).unwrap();

    let r = auth.login_with_mfa(&users, &mut sessions, &mut mfa, UserId(1), "pw", &none, None, SessionId(2), "b".to_string(), NOW);
    assert_eq!(r.unwrap_err(), academy_auth::login::LoginError::MfaFailed);
    let with_rc = MfaAuthentication { totp_code: None, recovery_code: Some(MfaRecoveryCode::try_new(recovery.as_str()).unwrap()) };
    let r = auth.login_with_mfa(&users, &mut sessions, &mut mfa, UserId(1), "pw", &with_rc, None, SessionId(1), "c".to_string(), NOW);
    assert_eq!(r.unwrap_err(), academy_auth::login::LoginError::Conflict);
    assert!(mfa.recovery_hash(UserId(1)).is_some());
    let r = auth.login_with_mfa(&users, &mut sessions, &mut mfa, UserId(1), "pw", &with_rc, None, SessionId(3), "d".to_string(), NOW);
    assert!(r.is_ok());
    assert!(mfa.recovery_hash(UserId(1)).is_none());
    let totp = MfaAuthentication { totp_code: Some(code_at(&SECRET_A, NOW)), recovery_code: None };
    let r = auth.login_with_mfa(&users, &mut sessions, &mut mfa, UserId(1), "wrong", &totp, None, SessionId(4), "e".to_string(), NOW);
    assert_eq!(r.unwrap_err(), academy_auth::login::LoginError::InvalidCredentials);
    let r = auth.login_with_mfa(&users, &mut sessions, &mut mfa, UserId(1), "pw", &totp, None, SessionId(4), "e".to_string(), NOW);
    assert!(r.is_ok());
}
