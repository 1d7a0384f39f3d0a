//! Account deletion, which revokes every session of the account before its
//! records go.
use vstd::prelude::*;

use crate::access_token::AccessToken;
use crate::auth::{authorized_target, AuthError, AuthServiceImpl};
use crate::mfa::{without_code, without_device};
use crate::provider::Database;
use crate::revocation::RevocationCache;
use crate::session::{entries_not_of_user, hashes_of_user};
use crate::crypto::{password_matches, sha256_text};
use crate::ids::{new_uuid, SessionId, UserId};
use crate::login::{opened, Login, LoginError};
use crate::session::{has_hash, has_id, DeviceName};
use crate::users::{has_user, hash_password, user_position, User};

verus! {

/// Why an account could not be deleted.
#[derive(Debug, PartialEq, Eq, Structural)]
pub enum UserDeleteError {
    Auth(AuthError),
    NotFound,
}

/// Why an account could not be created.
#[derive(Debug, PartialEq, Eq, Structural)]
pub enum UserCreateError {
    /// The user id is taken.
    Conflict,
    /// The first session could not be stored: its id or token hash is taken.
    SessionConflict,
    /// The password could not be hashed.
    PasswordHash,
}

/// A newly registered account: enabled, not an administrator, e-mail unverified.
pub open spec fn registered(id: UserId) -> User {
    User { id, admin: false, enabled: true, email_verified: false }
}

/// Operations on user accounts that involve authentication.
pub struct UserServiceImpl {
    auth: AuthServiceImpl,
}

impl UserServiceImpl {
    pub fn new(auth: AuthServiceImpl) -> (r: UserServiceImpl)
        ensures
            r.auth() == auth,
    {
        UserServiceImpl { auth }
    }

    pub closed spec fn auth(&self) -> AuthServiceImpl {
        self.auth
    }

    /// Registers account `user_id` with `password_hash` and opens its first
    /// session `session_id` around `refresh_token`. Nothing changes on error.
    pub fn create_user_with(
        &self,
        db: &mut Database,
        user_id: UserId,
        password_hash: String,
        device_name: Option<DeviceName>,
        session_id: SessionId,
        refresh_token: String,
        now: u64,
    ) -> (r: Result<Login, UserCreateError>)
        requires
            old(db).wf(),
            self.auth().wf(),
            now + self.auth().config().access_token_ttl <= u64::MAX,
        ensures
            final(db).wf(),
            r is Err ==> final(db)@ == old(db)@,
            final(db).mfa@ == old(db).mfa@,
            has_user(old(db).users@, user_id.0) ==> r == Err::<Login, _>(UserCreateError::Conflict),
            !has_user(old(db).users@, user_id.0) ==> if has_id(old(db).sessions@, session_id.0)
                || has_hash(old(db).sessions@, sha256_text(refresh_token@)) {
                r == Err::<Login, _>(UserCreateError::SessionConflict)
            } else {
                &&& final(db).users@ == old(db).users@.push(
                    (registered(user_id), Some(password_hash@)),
                )
                &&& r matches Ok(l) && opened(
                    &self.auth(),
                    registered(user_id),
                    old(db).sessions@,
                    final(db).sessions@,
                    l,
                    device_name,
                    session_id,
                    refresh_token@,
                    now,
                )
            },
    {
        let user = User { id: user_id, admin: false, enabled: true, email_verified: false };
        let ghost users_before = db.users@;
        if !db.users.create(user, Some(password_hash)) {
            return Err(UserCreateError::Conflict);
        }
        proof {
            let p = users_before.len() as int;
            assert(db.users@[p].0 == user);
            let q = user_position(db.users@, user_id.0);
            if q != p {
                assert(db.users@[q].0.id != db.users@[p].0.id);
            }
        }
        match self.auth.create_session_with(
            &db.users,
            &mut db.sessions,
            user_id,
            device_name,
            session_id,
            refresh_token,
            now,
        ) {
            Ok(login) => Ok(login),
            Err(_) => {
                let ghost users_after = db.users@;
                db.users.delete(user_id);
                proof {
                    let p = users_before.len() as int;
                    let q = user_position(users_after, user_id.0);
                    if q != p {
                        assert(users_after[q].0.id != users_after[p].0.id);
                    }
                    assert(db.users@ =~= users_before);
                }
                Err(UserCreateError::SessionConflict)
            },
        }
    }

    /// [`Self::create_user_with`] with the password hashed under a fresh salt,
    /// a fresh user id, session id and refresh token.
    pub fn create_user(
        &self,
        db: &mut Database,
        password: &str,
        device_name: Option<DeviceName>,
        now: u64,
    ) -> (r: Result<Login, UserCreateError>)
        requires
            old(db).wf(),
            self.auth().wf(),
            now + self.auth().config().access_token_ttl <= u64::MAX,
        ensures
            final(db).wf(),
            r is Err ==> final(db)@ == old(db)@,
            final(db).mfa@ == old(db).mfa@,
            password@.len() < 0x4000_0000 && old(db).users@.len() == 0 && old(db).sessions@.len()
                == 0 ==> r is Ok,
            r matches Ok(l) ==> {
                &&& exists|h: Seq<char>|
                    #![trigger password_matches(password@, h)]
                    password_matches(password@, h) && final(db).users@ == old(db).users@.push(
                        (registered(l.session.user_id), Some(h)),
                    )
                &&& opened(
                    &self.auth(),
                    registered(l.session.user_id),
                    old(db).sessions@,
                    final(db).sessions@,
                    l,
                    device_name,
                    l.session.id,
                    l.tokens.refresh_token@,
                    now,
                )
            },
    {
        let hash = match hash_password(password) {
            Some(h) => h,
            None => return Err(UserCreateError::PasswordHash),
        };
        let ghost h = hash@;
        let user_id = UserId(new_uuid());
        let session_id = SessionId(new_uuid());
        let refresh_token = self.auth.issue_refresh_token();
        let r = self.create_user_with(db, user_id, hash, device_name, session_id, refresh_token, now);
        proof {
            if r is Ok {
                assert(password_matches(password@, h));
            }
        }
        r
    }

    /// Deletes the target account (the caller's own where `user_id` is `None`;
    /// another only for an administrator). First every access token of the
    /// account's sessions is revoked for the access-token lifetime; then the
    /// account, its sessions and its MFA records are removed. An unknown
    /// account leaves the database as it was.
    pub fn delete_user(
        &self,
        db: &mut Database,
        cache: &mut RevocationCache,
        token: &AccessToken,
        user_id: Option<crate::ids::UserId>,
        now: u64,
    ) -> (r: Result<(), UserDeleteError>)
        requires
            old(db).wf(),
            now + self.auth().config().access_token_ttl <= u64::MAX,
        ensures
            final(db).wf(),
            match authorized_target(self.auth().key(), *old(cache), token@, user_id, now) {
                Err(e) => r == Err::<(), _>(UserDeleteError::Auth(e)) && final(db)@ == old(db)@
                    && final(cache)@ == old(cache)@,
                Ok(u) => {
                    &&& forall|h: Seq<u8>, t: u64|
                        #[trigger] final(cache).is_revoked(h, t) <==> (old(cache).is_revoked(h, t)
                            || (hashes_of_user(old(db).sessions@, u.0).contains(h) && t < now
                            + self.auth().config().access_token_ttl))
                    &&& !has_user(old(db).users@, u.0) ==> r == Err::<(), _>(
                        UserDeleteError::NotFound,
                    ) && final(db)@ == old(db)@
                    &&& has_user(old(db).users@, u.0) ==> {
                        &&& r is Ok
                        &&& final(db).users@ == old(db).users@.remove(
                            user_position(old(db).users@, u.0),
                        )
                        &&& final(db).sessions@ == entries_not_of_user(old(db).sessions@, u.0)
                        &&& final(db).mfa@.devices == without_device(old(db).mfa@.devices, u)
                        &&& final(db).mfa@.recovery == without_code(old(db).mfa@.recovery, u)
                    }
                },
            },
    {
        let u = match self.auth.authorize_self_or_admin(cache, token, user_id, now) {
            Ok(u) => u,
            Err(e) => return Err(UserDeleteError::Auth(e)),
        };
        self.auth.invalidate_access_tokens(&db.sessions, cache, u, now);
        if !db.users.delete(u) {
            return Err(UserDeleteError::NotFound);
        }
        db.sessions.delete_by_user(u);
        db.mfa.remove_device(u);
        db.mfa.remove_recovery_hash(u);
        Ok(())
    }
}

} // verus!

verus! {

/// One field of an update request: left as it is, or set.
#[derive(Debug)]
pub enum PatchValue<T> {
    Unchanged,
    Update(T),
}

/// What a request does to the password.
#[derive(Debug)]
pub enum PasswordUpdate {
    Remove,
    Change(String),
}

/// The account fields an update may touch.
#[derive(Debug)]
pub struct UserUpdateRequest {
    pub name: PatchValue<String>,
    pub email: PatchValue<String>,
    pub email_verified: PatchValue<bool>,
    pub password: PatchValue<PasswordUpdate>,
    pub enabled: PatchValue<bool>,
    pub admin: PatchValue<bool>,
    pub newsletter: PatchValue<bool>,
}

/// The current state of the account an update is aimed at.
#[derive(Debug)]
pub struct UserAccount {
    pub id: crate::ids::UserId,
    pub name: String,
    pub email: Option<String>,
    pub email_verified: bool,
    pub enabled: bool,
    pub admin: bool,
    pub newsletter: bool,
}

/// What becomes of the newsletter subscription.
#[derive(Debug)]
pub enum NewsletterAction {
    Keep,
    /// Send a confirmation request to this address; the flag waits for it.
    RequestSubscription(String),
    SetFlag(bool),
}

/// The changes an update really makes, once requests that repeat the
/// current value are dropped.
#[derive(Debug)]
pub struct UserUpdatePlan {
    pub name: Option<String>,
    /// Whether a rename skips the rename rate limit (administrators).
    pub bypass_name_rate_limit: bool,
    /// The new address and verification flag, where either changes.
    pub email: Option<(Option<String>, bool)>,
    pub enabled: Option<bool>,
    pub admin: Option<bool>,
    pub password: Option<String>,
    pub newsletter: NewsletterAction,
}

/// Why an update was refused before anything was written.
#[derive(Debug, PartialEq, Eq, Structural)]
pub enum UserUpdateError {
    /// Only administrators may change the verification, enabled or admin flags.
    Forbidden,
    CannotDisableSelf,
    CannotDemoteSelf,
    CannotRemovePassword,
    /// A subscription needs an e-mail address.
    NoEmail,
}

/// A requested flag that differs from the current one.
pub open spec fn changed_flag(p: PatchValue<bool>, current: bool) -> Option<bool> {
    match p {
        PatchValue::Update(v) => if v != current {
            Some(v)
        } else {
            None
        },
        PatchValue::Unchanged => None,
    }
}

/// A requested text that differs from the current one.
pub open spec fn changed_text(p: PatchValue<String>, current: Option<Seq<char>>) -> Option<Seq<char>> {
    match p {
        PatchValue::Update(v) => if Some(v@) != current {
            Some(v@)
        } else {
            None
        },
        PatchValue::Unchanged => None,
    }
}

pub open spec fn opt_text(s: Option<String>) -> Option<Seq<char>> {
    match s {
        Some(t) => Some(t@),
        None => None,
    }
}

/// The verification flag an update asks for, where it differs from what the
/// flag would become anyway (it is dropped when the address changes).
pub open spec fn changed_verification(req: UserUpdateRequest, user: UserAccount) -> Option<bool> {
    changed_flag(
        req.email_verified,
        user.email_verified && changed_text(req.email, opt_text(user.email)) is None,
    )
}

/// The address the account has once the update is applied.
pub open spec fn email_after(req: UserUpdateRequest, user: UserAccount) -> Option<Seq<char>> {
    match changed_text(req.email, opt_text(user.email)) {
        Some(e) => Some(e),
        None => opt_text(user.email),
    }
}

fn changed_flag_exec(p: &PatchValue<bool>, current: bool) -> (r: Option<bool>)
    ensures
        r == changed_flag(*p, current),
{
    match p {
        PatchValue::Update(v) => if *v != current {
            Some(*v)
        } else {
            None
        },
        PatchValue::Unchanged => None,
    }
}

fn same_text(a: &String, b: &Option<String>) -> (r: bool)
    ensures
        r == (Some(a@) == opt_text(*b)),
{
    match b {
        Some(s) => *a == *s,
        None => false,
    }
}

/// Decides what an update of `user` by the caller `auth` does: requests equal
/// to the current value are dropped; changing the verification, enabled or
/// admin flag takes an administrator; nobody disables or changes the admin
/// flag of themself; a password cannot be removed; and a non-administrator
/// who subscribes to the newsletter gets a confirmation request at the
/// account's (new) address, which must exist.
pub fn plan_user_update(
    auth: &crate::access_token::Authentication,
    user: &UserAccount,
    req: UserUpdateRequest,
) -> (r: Result<UserUpdatePlan, UserUpdateError>)
    ensures
        ({
            let verified = changed_verification(req, *user);
            let enabled = changed_flag(req.enabled, user.enabled);
            let admin = changed_flag(req.admin, user.admin);
            let newsletter = changed_flag(req.newsletter, user.newsletter);
            let email = changed_text(req.email, opt_text(user.email));
            if (verified is Some || enabled is Some || admin is Some) && !auth.admin {
                r == Err::<UserUpdatePlan, _>(UserUpdateError::Forbidden)
            } else if enabled == Some(false) && user.id == auth.user_id {
                r == Err::<UserUpdatePlan, _>(UserUpdateError::CannotDisableSelf)
            } else if admin is Some && user.id == auth.user_id {
                r == Err::<UserUpdatePlan, _>(UserUpdateError::CannotDemoteSelf)
            } else if req.password matches PatchValue::Update(PasswordUpdate::Remove) {
                r == Err::<UserUpdatePlan, _>(UserUpdateError::CannotRemovePassword)
            } else if newsletter == Some(true) && !auth.admin && email_after(req, *user) is None {
                r == Err::<UserUpdatePlan, _>(UserUpdateError::NoEmail)
            } else {
                r matches Ok(p) && {
                    &&& opt_text(p.name) == changed_text(req.name, Some(user.name@))
                    &&& p.bypass_name_rate_limit == auth.admin
                    &&& (p.email is Some <==> (email is Some || verified is Some))
                    &&& (p.email matches Some(e) ==> opt_text(e.0) == email_after(req, *user)
                        && e.1 == match verified {
                        Some(v) => v,
                        None => user.email_verified && email is None,
                    })
                    &&& p.enabled == enabled
                    &&& p.admin == admin
                    &&& opt_text(p.password) == match req.password {
                        PatchValue::Update(PasswordUpdate::Change(pw)) => Some(pw@),
                        _ => None,
                    }
                    &&& match newsletter {
                        None => p.newsletter is Keep,
                        Some(true) if !auth.admin => p.newsletter matches NewsletterAction::RequestSubscription(
                            e,
                        ) && Some(e@) == email_after(req, *user),
                        Some(v) => p.newsletter == NewsletterAction::SetFlag(v),
                    }
                }
            }
        }),
{
    let email: Option<String> = match &req.email {
        PatchValue::Update(e) => if same_text(e, &user.email) {
            None
        } else {
            Some(e.clone())
        },
        PatchValue::Unchanged => None,
    };
    let verified = changed_flag_exec(&req.email_verified, user.email_verified && email.is_none());
    let enabled = changed_flag_exec(&req.enabled, user.enabled);
    let admin = changed_flag_exec(&req.admin, user.admin);
    let newsletter = changed_flag_exec(&req.newsletter, user.newsletter);
    if (verified.is_some() || enabled.is_some() || admin.is_some()) && !auth.admin {
        return Err(UserUpdateError::Forbidden);
    }
    if enabled == Some(false) && user.id == auth.user_id {
        return Err(UserUpdateError::CannotDisableSelf);
    }
    if admin.is_some() && user.id == auth.user_id {
        return Err(UserUpdateError::CannotDemoteSelf);
    }
    let password = match req.password {
        PatchValue::Update(PasswordUpdate::Remove) => {
            return Err(UserUpdateError::CannotRemovePassword);
        },
        PatchValue::Update(PasswordUpdate::Change(pw)) => Some(pw),
        PatchValue::Unchanged => None,
    };
    let new_email: Option<String> = match &email {
        Some(e) => Some(e.clone()),
        None => match &user.email {
            Some(e) => Some(e.clone()),
            None => None,
        },
    };
    let newsletter_action = match newsletter {
        None => NewsletterAction::Keep,
        Some(v) => if v && !auth.admin {
            match new_email {
                Some(e) => NewsletterAction::RequestSubscription(e),
                None => return Err(UserUpdateError::NoEmail),
            }
        } else {
            NewsletterAction::SetFlag(v)
        },
    };
    let name = match req.name {
        PatchValue::Update(n) => if n == user.name {
            None
        } else {
            Some(n)
        },
        PatchValue::Unchanged => None,
    };
    let email_change = if email.is_some() || verified.is_some() {
        let flag = match verified {
            Some(v) => v,
            None => user.email_verified && email.is_none(),
        };
        let address = match email {
            Some(e) => Some(e),
            None => match &user.email {
                Some(e) => Some(e.clone()),
                None => None,
            },
        };
        Some((address, flag))
    } else {
        None
    };
    Ok(UserUpdatePlan {
        name,
        bypass_name_rate_limit: auth.admin,
        email: email_change,
        enabled,
        admin,
        password,
        newsletter: newsletter_action,
    })
}

} // verus!
