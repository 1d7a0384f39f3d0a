//! Configuration and the composition of the services over the stores.
use vstd::prelude::*;

use crate::auth::AuthServiceConfig;
use crate::auth::AuthServiceImpl;
use crate::mfa::{MfaStore, TotpSecretLength, TOTP_SECRET_MIN_LEN};
use crate::mfa_service::MfaServiceImpl;
use crate::revocation::RevocationCache;
use crate::session::SessionStore;
use crate::user_service::UserServiceImpl;
use crate::users::UserStore;

verus! {

/// Settings as loaded at start-up.
pub struct Config {
    pub access_token_ttl: u64,
    pub refresh_token_ttl: u64,
    pub refresh_token_length: usize,
    pub internal_token_ttl: u64,
    /// Key access tokens are signed with.
    pub jwt_secret: Vec<u8>,
    /// Bytes in a new TOTP secret.
    pub totp_secret_length: usize,
}

/// Why settings were refused.
#[derive(Debug, PartialEq, Eq, Structural)]
pub enum ConfigError {
    /// A TOTP secret length below `TOTP_SECRET_MIN_LEN`.
    TotpSecretLengthTooShort,
}

/// The checked settings of each service.
pub struct ConfigProvider {
    pub auth_service_config: AuthServiceConfig,
    pub jwt_secret: Vec<u8>,
    pub totp_secret_length: TotpSecretLength,
}

impl ConfigProvider {
    /// Splits the settings among the services; refused where the TOTP secret
    /// length is below `TOTP_SECRET_MIN_LEN`.
    pub fn new(config: &Config) -> (r: Result<ConfigProvider, ConfigError>)
        ensures
            r is Err <==> config.totp_secret_length < TOTP_SECRET_MIN_LEN,
            r matches Ok(p) ==> {
                &&& p.auth_service_config.access_token_ttl == config.access_token_ttl
                &&& p.auth_service_config.refresh_token_ttl == config.refresh_token_ttl
                &&& p.auth_service_config.refresh_token_length == config.refresh_token_length
                &&& p.auth_service_config.internal_token_ttl == config.internal_token_ttl
                &&& p.jwt_secret@ == config.jwt_secret@
                &&& p.totp_secret_length@ == config.totp_secret_length
            },
    {
        let totp_secret_length = match TotpSecretLength::try_new(config.totp_secret_length) {
            Some(l) => l,
            None => return Err(ConfigError::TotpSecretLengthTooShort),
        };
        let auth_service_config = AuthServiceConfig {
            access_token_ttl: config.access_token_ttl,
            refresh_token_ttl: config.refresh_token_ttl,
            refresh_token_length: config.refresh_token_length,
            internal_token_ttl: config.internal_token_ttl,
        };
        let jwt_secret = config.jwt_secret.clone();
        assert(jwt_secret@ =~= config.jwt_secret@);
        Ok(ConfigProvider { auth_service_config, jwt_secret, totp_secret_length })
    }
}

/// The durable records: users, sessions and MFA data.
pub struct Database {
    pub users: UserStore,
    pub sessions: SessionStore,
    pub mfa: MfaStore,
}

impl View for Database {
    type V = (Seq<crate::users::UserEntry>, Seq<crate::session::SessionEntry>, crate::mfa::MfaView);

    open spec fn view(&self) -> Self::V {
        (self.users@, self.sessions@, self.mfa@)
    }
}

impl Database {
    pub open spec fn wf(&self) -> bool {
        self.users.wf() && self.sessions.wf() && self.mfa.wf()
    }

    /// A database with no records.
    pub fn new() -> (r: Database)
        ensures
            r.wf(),
            r.users@.len() == 0,
            r.sessions@.len() == 0,
            r.mfa@.devices.len() == 0,
            r.mfa@.recovery.len() == 0,
    {
        Database { users: UserStore::new(), sessions: SessionStore::new(), mfa: MfaStore::new() }
    }
}

/// Settings, the database and the revocation cache, from which the services
/// are built.
pub struct Provider {
    pub config: ConfigProvider,
    pub database: Database,
    pub cache: RevocationCache,
}

impl Provider {
    pub fn new(config: ConfigProvider, database: Database, cache: RevocationCache) -> (r: Provider)
        ensures
            r.config == config,
            r.database == database,
            r.cache == cache,
    {
        Provider { config, database, cache }
    }

    /// The authentication service, signing with the configured key.
    pub fn auth_service(&self) -> (r: AuthServiceImpl)
        ensures
            r.config() == self.config.auth_service_config,
            r.key() == self.config.jwt_secret@,
            r.wf(),
    {
        let key = self.config.jwt_secret.clone();
        assert(key@ =~= self.config.jwt_secret@);
        AuthServiceImpl::new(self.config.auth_service_config, key)
    }

    /// The MFA service.
    pub fn mfa_service(&self) -> (r: MfaServiceImpl)
        ensures
            r.key() == self.config.jwt_secret@,
            r.secret_length() == self.config.totp_secret_length@,
    {
        MfaServiceImpl::new(self.auth_service(), self.config.totp_secret_length)
    }

    /// The user service.
    pub fn user_service(&self) -> (r: UserServiceImpl)
        ensures
            r.auth().config() == self.config.auth_service_config,
            r.auth().key() == self.config.jwt_secret@,
            r.auth().wf(),
    {
        UserServiceImpl::new(self.auth_service())
    }
}

} // verus!
