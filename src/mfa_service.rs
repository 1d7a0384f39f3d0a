//! The MFA lifecycle: set up a pending TOTP device, confirm it with a code,
//! disable it; and the single-use recovery code that comes with it.
use vstd::prelude::*;

use crate::access_token::AccessToken;
use crate::auth::{authorized_target, AuthError, AuthServiceImpl};
use crate::crypto::{bytes_equal, random_bytes, sha256_of_str, sha256_text};
use crate::ids::{new_uuid, TotpDeviceId, UserId};
use crate::mfa::{
    base32_encode, base32_text, device_of, recovery_hash_of, totp_code, totp_generate, with_code,
    with_enabled, with_pending_secret, without_code, without_device, MfaAuthentication,
    MfaRecoveryCode, MfaStore, TotpCode, TotpSecret, TotpSecretLength, TotpSetup, TOTP_DIGITS,
    TOTP_SECRET_MIN_LEN, TOTP_STEP,
};
use crate::revocation::RevocationCache;
use crate::users::{has_user, UserStore};

verus! {

/// Why a TOTP device could not be set up.
#[derive(Debug, PartialEq, Eq, Structural)]
pub enum MfaInitializeError {
    Auth(AuthError),
    NotFound,
    AlreadyEnabled,
}

/// Why a TOTP device could not be enabled.
#[derive(Debug, PartialEq, Eq, Structural)]
pub enum MfaEnableError {
    Auth(AuthError),
    NotFound,
    AlreadyEnabled,
    NotInitialized,
    InvalidCode,
}

/// Why MFA could not be disabled.
#[derive(Debug, PartialEq, Eq, Structural)]
pub enum MfaDisableError {
    Auth(AuthError),
    NotFound,
    NotEnabled,
}

/// A recovery code was refused: none is set, or it is another one.
#[derive(Debug, PartialEq, Eq, Structural)]
pub enum MfaRecoveryError {
    InvalidCode,
}

/// Whether `code` is the TOTP code of `secret` for the time step of `now`, of
/// the one before, or of the one after.
pub open spec fn code_in_window(secret: Seq<u8>, code: Seq<char>, now: u64) -> bool {
    ||| code == totp_code(secret, TOTP_DIGITS, now / TOTP_STEP)
    ||| (now >= TOTP_STEP && code == totp_code(secret, TOTP_DIGITS, (now - TOTP_STEP) as u64 / TOTP_STEP))
    ||| (now <= u64::MAX - TOTP_STEP && code == totp_code(secret, TOTP_DIGITS, (now + TOTP_STEP) as u64 / TOTP_STEP))
}

/// Checks a TOTP code against `secret`, one time step either way.
pub fn check_totp_code(secret: &Vec<u8>, code: &TotpCode, now: u64) -> (r: bool)
    ensures
        r == code_in_window(secret@, code@, now),
{
    let current = totp_generate(secret, TOTP_DIGITS, TOTP_STEP, now);
    let mut ok = code.reads(&current);
    if now >= TOTP_STEP {
        let before = totp_generate(secret, TOTP_DIGITS, TOTP_STEP, now - TOTP_STEP);
        ok = code.reads(&before) || ok;
    }
    if now <= u64::MAX - TOTP_STEP {
        let after = totp_generate(secret, TOTP_DIGITS, TOTP_STEP, now + TOTP_STEP);
        ok = code.reads(&after) || ok;
    }
    ok
}

/// Stores the hash of a new recovery code for user `u`; an earlier one is
/// superseded.
pub fn setup_recovery_code(mfa: &mut MfaStore, u: UserId, code: &MfaRecoveryCode)
    requires
        old(mfa).wf(),
    ensures
        final(mfa).wf(),
        final(mfa)@.recovery == with_code(old(mfa)@.recovery, u, sha256_text(code@)),
        final(mfa)@.devices == old(mfa)@.devices,
{
    let h = sha256_of_str(code.as_str());
    mfa.set_recovery_hash(u, h);
}

/// Accepts user `u`'s recovery code once: on success its hash is removed, so
/// the same code is refused from then on.
pub fn verify_and_consume(mfa: &mut MfaStore, u: UserId, code: &MfaRecoveryCode) -> (r: Result<
    (),
    MfaRecoveryError,
>)
    requires
        old(mfa).wf(),
    ensures
        final(mfa).wf(),
        r is Ok <==> recovery_hash_of(old(mfa)@.recovery, u) == Some(sha256_text(code@)),
        r is Ok ==> final(mfa)@.recovery == without_code(old(mfa)@.recovery, u),
        r is Err ==> r == Err::<(), _>(MfaRecoveryError::InvalidCode) && final(mfa)@ == old(mfa)@,
        final(mfa)@.devices == old(mfa)@.devices,
{
    let h = sha256_of_str(code.as_str());
    let matches = match mfa.recovery_hash(u) {
        Some(stored) => bytes_equal(stored.as_slice(), h.as_slice()),
        None => false,
    };
    if !matches {
        return Err(MfaRecoveryError::InvalidCode);
    }
    mfa.remove_recovery_hash(u);
    Ok(())
}

/// The second factor was missing or wrong.
#[derive(Debug, PartialEq, Eq, Structural)]
pub enum MfaAuthenticateError {
    Failed,
}

/// The MFA records after user `u` offered `cmd` at `now`, or `None` where the
/// second factor fails. Without an enabled device nothing is asked; a TOTP
/// code within one time step passes; otherwise the user's recovery code
/// passes and is consumed.
pub open spec fn second_factor_outcome(
    v: crate::mfa::MfaView,
    u: UserId,
    cmd: MfaAuthentication,
    now: u64,
) -> Option<crate::mfa::MfaView> {
    match device_of(v.devices, u) {
        Some(d) if d.0.enabled => if cmd.totp_code matches Some(c) && code_in_window(
            d.1,
            c@,
            now,
        ) {
            Some(v)
        } else if cmd.recovery_code matches Some(rc) && recovery_hash_of(v.recovery, u) == Some(
            sha256_text(rc@),
        ) {
            Some(crate::mfa::MfaView { devices: v.devices, recovery: without_code(v.recovery, u) })
        } else {
            None
        },
        _ => Some(v),
    }
}

/// Checks the second factor of user `u` at login. A user without an enabled
/// device passes. Otherwise a TOTP code within one time step passes; failing
/// that, the user's recovery code passes once, and is consumed.
pub fn authenticate_mfa(mfa: &mut MfaStore, u: UserId, cmd: &MfaAuthentication, now: u64) -> (r:
    Result<(), MfaAuthenticateError>)
    requires
        old(mfa).wf(),
    ensures
        final(mfa).wf(),
        match second_factor_outcome(old(mfa)@, u, *cmd, now) {
            Some(v) => r is Ok && final(mfa)@ == v,
            None => r == Err::<(), _>(MfaAuthenticateError::Failed) && final(mfa)@ == old(mfa)@,
        },
{
    let enabled = match mfa.device(u) {
        Some(d) => d.enabled,
        None => false,
    };
    if !enabled {
        return Ok(());
    }
    let totp_ok = match &cmd.totp_code {
        Some(c) => match mfa.device_secret(u) {
            Some(secret) => check_totp_code(secret, c, now),
            None => false,
        },
        None => false,
    };
    if totp_ok {
        return Ok(());
    }
    match &cmd.recovery_code {
        Some(rc) => match verify_and_consume(mfa, u, rc) {
            Ok(()) => Ok(()),
            Err(_) => Err(MfaAuthenticateError::Failed),
        },
        None => Err(MfaAuthenticateError::Failed),
    }
}

/// Recovery codes are single-use: once accepted, the same code is refused.
pub proof fn lemma_recovery_code_single_use(v: Seq<crate::mfa::RecoveryEntry>, u: UserId, h: Seq<u8>)
    requires
        crate::mfa::one_code_per_user(v),
        recovery_hash_of(v, u) == Some(h),
    ensures
        recovery_hash_of(without_code(v, u), u) is None,
{
    let p = crate::mfa::code_position(v, u);
    let w = without_code(v, u);
    if crate::mfa::has_code(w, u) {
        let j = choose|j: int| 0 <= j < w.len() && (#[trigger] w[j]).0 == u;
        let j2 = if j < p { j } else { j + 1 };
        assert(w[j] == v[j2]);
        assert(v[j2].0 != v[p].0);
    }
}

/// Sets up, enables and disables TOTP devices on behalf of authenticated callers.
pub struct MfaServiceImpl {
    auth: AuthServiceImpl,
    secret_length: TotpSecretLength,
}

impl MfaServiceImpl {
    pub fn new(auth: AuthServiceImpl, secret_length: TotpSecretLength) -> (r: MfaServiceImpl)
        ensures
            r.key() == auth.key(),
            r.secret_length() == secret_length@,
    {
        MfaServiceImpl { auth, secret_length }
    }

    /// The key access tokens are checked with.
    pub closed spec fn key(&self) -> Seq<u8> {
        self.auth.key()
    }

    /// Gives the target user a pending device holding `secret` and returns the
    /// secret in base32. An existing pending device keeps its id and takes the
    /// new secret; otherwise device `new_id` is added. Nothing changes on error.
    pub fn initialize_with(
        &self,
        users: &UserStore,
        mfa: &mut MfaStore,
        cache: &RevocationCache,
        token: &AccessToken,
        user_id: Option<UserId>,
        secret: TotpSecret,
        new_id: TotpDeviceId,
        now: u64,
    ) -> (r: Result<TotpSetup, MfaInitializeError>)
        requires
            users.wf(),
            old(mfa).wf(),
        ensures
            final(mfa).wf(),
            r is Err ==> final(mfa)@ == old(mfa)@,
            match authorized_target(self.key(), *cache, token@, user_id, now) {
                Err(e) => r == Err::<TotpSetup, _>(MfaInitializeError::Auth(e)),
                Ok(u) => if !has_user(users@, u.0) {
                    r == Err::<TotpSetup, _>(MfaInitializeError::NotFound)
                } else if device_of(old(mfa)@.devices, u) matches Some(d) && d.0.enabled {
                    r == Err::<TotpSetup, _>(MfaInitializeError::AlreadyEnabled)
                } else {
                    &&& r matches Ok(setup) && setup.secret@ == base32_text(secret@)
                    &&& final(mfa)@.devices == with_pending_secret(
                        old(mfa)@.devices,
                        u,
                        secret@,
                        new_id,
                        now,
                    )
                    &&& final(mfa)@.recovery == old(mfa)@.recovery
                },
            },
    {
        let u = match self.auth.authorize_self_or_admin(cache, token, user_id, now) {
            Ok(u) => u,
            Err(e) => return Err(MfaInitializeError::Auth(e)),
        };
        if !users.contains(u) {
            return Err(MfaInitializeError::NotFound);
        }
        match mfa.device(u) {
            Some(d) => {
                if d.enabled {
                    return Err(MfaInitializeError::AlreadyEnabled);
                }
            },
            None => {},
        }
        let bytes = secret.into_inner();
        let encoded = base32_encode(&bytes);
        mfa.set_pending_secret(u, bytes, new_id, now);
        Ok(TotpSetup { secret: encoded })
    }

    /// [`Self::initialize_with`] with a fresh random secret of the configured
    /// length and a fresh device id.
    pub fn initialize(
        &self,
        users: &UserStore,
        mfa: &mut MfaStore,
        cache: &RevocationCache,
        token: &AccessToken,
        user_id: Option<UserId>,
        now: u64,
    ) -> (r: Result<TotpSetup, MfaInitializeError>)
        requires
            users.wf(),
            old(mfa).wf(),
        ensures
            final(mfa).wf(),
            r is Err ==> final(mfa)@ == old(mfa)@,
            match authorized_target(self.key(), *cache, token@, user_id, now) {
                Err(e) => r == Err::<TotpSetup, _>(MfaInitializeError::Auth(e)),
                Ok(u) => if !has_user(users@, u.0) {
                    r == Err::<TotpSetup, _>(MfaInitializeError::NotFound)
                } else if device_of(old(mfa)@.devices, u) matches Some(d) && d.0.enabled {
                    r == Err::<TotpSetup, _>(MfaInitializeError::AlreadyEnabled)
                } else {
                    &&& exists|secret: Seq<u8>, id: TotpDeviceId|
                        #![trigger with_pending_secret(old(mfa)@.devices, u, secret, id, now)]
                        secret.len() == self.secret_length() && secret.len() >= TOTP_SECRET_MIN_LEN
                            && final(mfa)@.devices
                            == with_pending_secret(old(mfa)@.devices, u, secret, id, now)
                            && (r matches Ok(setup) && setup.secret@ == base32_text(secret))
                    &&& final(mfa)@.recovery == old(mfa)@.recovery
                },
            },
    {
        let secret = match TotpSecret::try_new(random_bytes(self.secret_length.get())) {
            Some(secret) => secret,
            // unreachable: the configured length is never below the minimum
            None => return Err(MfaInitializeError::NotFound),
        };
        let ghost s = secret@;
        let new_id = TotpDeviceId(new_uuid());
        let r = self.initialize_with(users, mfa, cache, token, user_id, secret, new_id, now);
        proof {
            if let Ok(u) = authorized_target(self.key(), *cache, token@, user_id, now) {
                if r is Ok {
                    assert(with_pending_secret(old(mfa)@.devices, u, s, new_id, now)
                        == final(mfa)@.devices);
                }
            }
        }
        r
    }

    /// The configured length of new secrets.
    pub closed spec fn secret_length(&self) -> usize {
        self.secret_length@
    }

    /// Enables the target user's pending device where `code` is its current
    /// TOTP code (one time step either way) and stores `recovery_code` as their
    /// only recovery code, returning it. Nothing changes on error.
    pub fn enable_with(
        &self,
        users: &UserStore,
        mfa: &mut MfaStore,
        cache: &RevocationCache,
        token: &AccessToken,
        user_id: Option<UserId>,
        code: &TotpCode,
        recovery_code: MfaRecoveryCode,
        now: u64,
    ) -> (r: Result<MfaRecoveryCode, MfaEnableError>)
        requires
            users.wf(),
            old(mfa).wf(),
        ensures
            final(mfa).wf(),
            r is Err ==> final(mfa)@ == old(mfa)@,
            match authorized_target(self.key(), *cache, token@, user_id, now) {
                Err(e) => r == Err::<MfaRecoveryCode, _>(MfaEnableError::Auth(e)),
                Ok(u) => if !has_user(users@, u.0) {
                    r == Err::<MfaRecoveryCode, _>(MfaEnableError::NotFound)
                } else {
                    match device_of(old(mfa)@.devices, u) {
                        None => r == Err::<MfaRecoveryCode, _>(MfaEnableError::NotInitialized),
                        Some(d) => if d.0.enabled {
                            r == Err::<MfaRecoveryCode, _>(MfaEnableError::AlreadyEnabled)
                        } else if !code_in_window(d.1, code@, now) {
                            r == Err::<MfaRecoveryCode, _>(MfaEnableError::InvalidCode)
                        } else {
                            &&& r matches Ok(c) && c@ == recovery_code@
                            &&& final(mfa)@.devices == with_enabled(old(mfa)@.devices, u)
                            &&& final(mfa)@.recovery == with_code(
                                old(mfa)@.recovery,
                                u,
                                sha256_text(recovery_code@),
                            )
                        },
                    }
                },
            },
    {
        let u = match self.auth.authorize_self_or_admin(cache, token, user_id, now) {
            Ok(u) => u,
            Err(e) => return Err(MfaEnableError::Auth(e)),
        };
        if !users.contains(u) {
            return Err(MfaEnableError::NotFound);
        }
        let device = match mfa.device(u) {
            Some(d) => d,
            None => return Err(MfaEnableError::NotInitialized),
        };
        if device.enabled {
            return Err(MfaEnableError::AlreadyEnabled);
        }
        let valid = match mfa.device_secret(u) {
            Some(secret) => check_totp_code(secret, code, now),
            None => false,
        };
        if !valid {
            return Err(MfaEnableError::InvalidCode);
        }
        mfa.enable_device_of(u);
        setup_recovery_code(mfa, u, &recovery_code);
        Ok(recovery_code)
    }

    /// [`Self::enable_with`] with a fresh random recovery code.
    pub fn enable(
        &self,
        users: &UserStore,
        mfa: &mut MfaStore,
        cache: &RevocationCache,
        token: &AccessToken,
        user_id: Option<UserId>,
        code: &TotpCode,
        now: u64,
    ) -> (r: Result<MfaRecoveryCode, MfaEnableError>)
        requires
            users.wf(),
            old(mfa).wf(),
        ensures
            final(mfa).wf(),
            r is Err ==> final(mfa)@ == old(mfa)@,
            match authorized_target(self.key(), *cache, token@, user_id, now) {
                Err(e) => r == Err::<MfaRecoveryCode, _>(MfaEnableError::Auth(e)),
                Ok(u) => if !has_user(users@, u.0) {
                    r == Err::<MfaRecoveryCode, _>(MfaEnableError::NotFound)
                } else {
                    match device_of(old(mfa)@.devices, u) {
                        None => r == Err::<MfaRecoveryCode, _>(MfaEnableError::NotInitialized),
                        Some(d) => if d.0.enabled {
                            r == Err::<MfaRecoveryCode, _>(MfaEnableError::AlreadyEnabled)
                        } else if !code_in_window(d.1, code@, now) {
                            r == Err::<MfaRecoveryCode, _>(MfaEnableError::InvalidCode)
                        } else {
                            &&& r matches Ok(c) && crate::mfa::is_recovery_code(c@)
                                && final(mfa)@.recovery == with_code(
                                old(mfa)@.recovery,
                                u,
                                sha256_text(c@),
                            )
                            &&& final(mfa)@.devices == with_enabled(old(mfa)@.devices, u)
                        },
                    }
                },
            },
    {
        let recovery_code = MfaRecoveryCode::generate();
        self.enable_with(users, mfa, cache, token, user_id, code, recovery_code, now)
    }

    /// Removes the target user's enabled device and their recovery code.
    /// Nothing changes on error.
    pub fn disable(
        &self,
        users: &UserStore,
        mfa: &mut MfaStore,
        cache: &RevocationCache,
        token: &AccessToken,
        user_id: Option<UserId>,
        now: u64,
    ) -> (r: Result<(), MfaDisableError>)
        requires
            users.wf(),
            old(mfa).wf(),
        ensures
            final(mfa).wf(),
            r is Err ==> final(mfa)@ == old(mfa)@,
            match authorized_target(self.key(), *cache, token@, user_id, now) {
                Err(e) => r == Err::<(), _>(MfaDisableError::Auth(e)),
                Ok(u) => if !has_user(users@, u.0) {
                    r == Err::<(), _>(MfaDisableError::NotFound)
                } else if !(device_of(old(mfa)@.devices, u) matches Some(d) && d.0.enabled) {
                    r == Err::<(), _>(MfaDisableError::NotEnabled)
                } else {
                    &&& r is Ok
                    &&& final(mfa)@.devices == without_device(old(mfa)@.devices, u)
                    &&& final(mfa)@.recovery == without_code(old(mfa)@.recovery, u)
                },
            },
    {
        let u = match self.auth.authorize_self_or_admin(cache, token, user_id, now) {
            Ok(u) => u,
            Err(e) => return Err(MfaDisableError::Auth(e)),
        };
        if !users.contains(u) {
            return Err(MfaDisableError::NotFound);
        }
        let enabled = match mfa.device(u) {
            Some(d) => d.enabled,
            None => false,
        };
        if !enabled {
            return Err(MfaDisableError::NotEnabled);
        }
        mfa.remove_device(u);
        mfa.remove_recovery_hash(u);
        Ok(())
    }
}

} // verus!
