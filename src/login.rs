//! Opening and closing sessions: login with a password, and logout.
use vstd::prelude::*;

use crate::access_token::signed_token;
use crate::auth::{
    authenticated_claims, claims_for, AuthError, AuthServiceImpl, AuthenticateByPasswordError,
    Tokens,
};
use crate::auth::hash_refresh_token;
use crate::auth::alphanumeric;
use crate::crypto::{drawn_from, password_matches, sha256_text};
use crate::mfa::{MfaAuthentication, MfaStore};
use crate::mfa_service::{authenticate_mfa, second_factor_outcome};
use crate::ids::{new_uuid, SessionId, UserId};
use crate::revocation::RevocationCache;
use crate::session::{
    has_hash, has_id, position_of_id, session_by_id, DeviceName, Session, SessionStore,
    SessionView,
};
use crate::users::{password_hash_of, user_by_id, UserStore};

verus! {

/// A new session and its first token pair.
#[derive(Debug)]
pub struct Login {
    pub session: Session,
    pub tokens: Tokens,
}

/// Why a session could not be opened.
#[derive(Debug, PartialEq, Eq, Structural)]
pub enum LoginError {
    /// Unknown user, no password set, or a wrong password.
    InvalidCredentials,
    /// The second factor was missing or wrong.
    MfaFailed,
    /// The session id or the refresh-token hash is taken.
    Conflict,
}

/// Why the caller's session could not be returned.
#[derive(Debug, PartialEq, Eq, Structural)]
pub enum SessionGetCurrentError {
    Auth(AuthError),
    /// The token is valid but its session is gone.
    NotFound,
}

/// The view of a session opened at `now`.
pub open spec fn opened_session(
    id: SessionId,
    user_id: UserId,
    device_name: Option<Seq<char>>,
    now: u64,
) -> SessionView {
    SessionView { id: id.0, user_id: user_id.0, device_name, created_at: now, updated_at: now }
}

pub open spec fn name_view(d: Option<DeviceName>) -> Option<Seq<char>> {
    match d {
        Some(n) => Some(n@),
        None => None,
    }
}

/// Session `session_id` of `u` was opened around a refresh token at `now`:
/// the store gained it with the token's hash, and `l` holds it with a bound
/// token pair.
pub open spec fn opened(
    service: &AuthServiceImpl,
    u: crate::users::User,
    before: Seq<crate::session::SessionEntry>,
    after: Seq<crate::session::SessionEntry>,
    l: Login,
    device_name: Option<DeviceName>,
    session_id: SessionId,
    refresh_token: Seq<char>,
    now: u64,
) -> bool {
    &&& l.tokens.access_token@ == signed_token(
        service.key(),
        claims_for(u, session_id, sha256_text(refresh_token)),
        (now + service.config().access_token_ttl) as u64,
    ) && l.tokens.refresh_token@ == refresh_token && l.tokens.refresh_token_hash@ == sha256_text(
        refresh_token,
    ) && l.session@ == opened_session(session_id, u.id, name_view(device_name), now)
    &&& after == before.push(
        (opened_session(session_id, u.id, name_view(device_name), now), sha256_text(refresh_token)),
    )
}

impl AuthServiceImpl {
    /// Opens session `session_id` of user `user_id` around `refresh_token`:
    /// the store takes the session with the token's hash, and the caller gets
    /// the session and a bound token pair. On error the store is left as it was.
    pub fn create_session_with(
        &self,
        users: &UserStore,
        sessions: &mut SessionStore,
        user_id: UserId,
        device_name: Option<DeviceName>,
        session_id: SessionId,
        refresh_token: String,
        now: u64,
    ) -> (r: Result<Login, LoginError>)
        requires
            self.wf(),
            users.wf(),
            old(sessions).wf(),
            now + self.config().access_token_ttl <= u64::MAX,
        ensures
            final(sessions).wf(),
            r is Err ==> final(sessions)@ == old(sessions)@,
            user_by_id(users@, user_id.0) is None ==> r == Err::<Login, _>(
                LoginError::InvalidCredentials,
            ),
            user_by_id(users@, user_id.0) matches Some(u) ==> if has_id(
                old(sessions)@,
                session_id.0,
            ) || has_hash(old(sessions)@, sha256_text(refresh_token@)) {
                r == Err::<Login, _>(LoginError::Conflict)
            } else {
                r matches Ok(l) && opened(
                    self,
                    u,
                    old(sessions)@,
                    final(sessions)@,
                    l,
                    device_name,
                    session_id,
                    refresh_token@,
                    now,
                )
            },
    {
        let user = match users.get(user_id) {
            Some(u) => u,
            None => return Err(LoginError::InvalidCredentials),
        };
        let tokens = self.issue_tokens_with(&user, session_id, refresh_token, now);
        let session = Session {
            id: session_id,
            user_id,
            device_name,
            created_at: now,
            updated_at: now,
        };
        let stored = session.duplicate();
        match sessions.create(stored, tokens.refresh_token_hash.duplicate()) {
            Ok(()) => Ok(Login { session, tokens }),
            Err(_) => Err(LoginError::Conflict),
        }
    }

    /// Checks the password of `user_id`, then opens a session as
    /// [`Self::create_session_with`] does.
    pub fn login_with(
        &self,
        users: &UserStore,
        sessions: &mut SessionStore,
        user_id: UserId,
        password: &str,
        device_name: Option<DeviceName>,
        session_id: SessionId,
        refresh_token: String,
        now: u64,
    ) -> (r: Result<Login, LoginError>)
        requires
            self.wf(),
            users.wf(),
            old(sessions).wf(),
            now + self.config().access_token_ttl <= u64::MAX,
        ensures
            final(sessions).wf(),
            r is Err ==> final(sessions)@ == old(sessions)@,
            !(password_hash_of(users@, user_id.0) matches Some(h) && password_matches(password@, h))
                ==> r == Err::<Login, _>(LoginError::InvalidCredentials),
            (password_hash_of(users@, user_id.0) matches Some(h) && password_matches(password@, h))
                ==> if has_id(old(sessions)@, session_id.0) || has_hash(
                old(sessions)@,
                sha256_text(refresh_token@),
            ) {
                r == Err::<Login, _>(LoginError::Conflict)
            } else {
                user_by_id(users@, user_id.0) matches Some(u) && r matches Ok(l) && opened(
                    self,
                    u,
                    old(sessions)@,
                    final(sessions)@,
                    l,
                    device_name,
                    session_id,
                    refresh_token@,
                    now,
                )
            },
    {
        match self.authenticate_by_password(users, user_id, password) {
            Ok(()) => {},
            Err(AuthenticateByPasswordError::InvalidCredentials) => {
                return Err(LoginError::InvalidCredentials);
            },
        }
        proof {
            crate::users::lemma_password_implies_user(users@, user_id.0);
        }
        self.create_session_with(users, sessions, user_id, device_name, session_id, refresh_token, now)
    }

    /// Checks the password of `user_id`, then their second factor, then opens
    /// a session as [`Self::create_session_with`] does. Nothing changes on
    /// error; a recovery code is consumed only when the session is opened.
    pub fn login_with_mfa(
        &self,
        users: &UserStore,
        sessions: &mut SessionStore,
        mfa: &mut MfaStore,
        user_id: UserId,
        password: &str,
        second_factor: &MfaAuthentication,
        device_name: Option<DeviceName>,
        session_id: SessionId,
        refresh_token: String,
        now: u64,
    ) -> (r: Result<Login, LoginError>)
        requires
            self.wf(),
            users.wf(),
            old(sessions).wf(),
            old(mfa).wf(),
            now + self.config().access_token_ttl <= u64::MAX,
        ensures
            final(sessions).wf(),
            final(mfa).wf(),
            r is Err ==> final(sessions)@ == old(sessions)@ && final(mfa)@ == old(mfa)@,
            !(password_hash_of(users@, user_id.0) matches Some(h) && password_matches(password@, h))
                ==> r == Err::<Login, _>(LoginError::InvalidCredentials),
            (password_hash_of(users@, user_id.0) matches Some(h) && password_matches(password@, h))
                ==> if has_id(old(sessions)@, session_id.0) || has_hash(
                old(sessions)@,
                sha256_text(refresh_token@),
            ) {
                r == Err::<Login, _>(LoginError::Conflict)
            } else if second_factor_outcome(old(mfa)@, user_id, *second_factor, now) is None {
                r == Err::<Login, _>(LoginError::MfaFailed)
            } else {
                &&& Some(final(mfa)@) == second_factor_outcome(
                    old(mfa)@,
                    user_id,
                    *second_factor,
                    now,
                )
                &&& user_by_id(users@, user_id.0) matches Some(u) && r matches Ok(l) && opened(
                    self,
                    u,
                    old(sessions)@,
                    final(sessions)@,
                    l,
                    device_name,
                    session_id,
                    refresh_token@,
                    now,
                )
            },
    {
        match self.authenticate_by_password(users, user_id, password) {
            Ok(()) => {},
            Err(AuthenticateByPasswordError::InvalidCredentials) => {
                return Err(LoginError::InvalidCredentials);
            },
        }
        proof {
            crate::users::lemma_password_implies_user(users@, user_id.0);
        }
        let h = hash_refresh_token(refresh_token.as_str());
        if sessions.get(session_id).is_some() || sessions.get_by_refresh_token_hash(&h).is_some() {
            return Err(LoginError::Conflict);
        }
        match authenticate_mfa(mfa, user_id, second_factor, now) {
            Ok(()) => {},
            Err(_) => return Err(LoginError::MfaFailed),
        }
        self.create_session_with(users, sessions, user_id, device_name, session_id, refresh_token, now)
    }

    /// The session the caller's access token belongs to.
    pub fn get_current_session<'a>(
        &self,
        cache: &RevocationCache,
        sessions: &'a SessionStore,
        token: &crate::access_token::AccessToken,
        now: u64,
    ) -> (r: Result<&'a Session, SessionGetCurrentError>)
        requires
            sessions.wf(),
        ensures
            match authenticated_claims(self.key(), *cache, token@, now) {
                None => r == Err::<&Session, _>(
                    SessionGetCurrentError::Auth(
                        AuthError::Authenticate(crate::auth::AuthenticateError::InvalidToken),
                    ),
                ),
                Some(c) => match session_by_id(sessions@, c.session_id) {
                    None => r == Err::<&Session, _>(SessionGetCurrentError::NotFound),
                    Some(v) => r matches Ok(s) && s@ == v,
                },
            },
    {
        let auth = match self.authenticate(cache, token, now) {
            Ok(a) => a,
            Err(e) => return Err(SessionGetCurrentError::Auth(AuthError::Authenticate(e))),
        };
        match sessions.get(auth.session_id) {
            Some(s) => Ok(s),
            None => Err(SessionGetCurrentError::NotFound),
        }
    }

    /// [`Self::login_with`] with a fresh session id and a fresh refresh token.
    pub fn login(
        &self,
        users: &UserStore,
        sessions: &mut SessionStore,
        user_id: UserId,
        password: &str,
        device_name: Option<DeviceName>,
        now: u64,
    ) -> (r: Result<Login, LoginError>)
        requires
            self.wf(),
            users.wf(),
            old(sessions).wf(),
            now + self.config().access_token_ttl <= u64::MAX,
        ensures
            final(sessions).wf(),
            r is Err ==> final(sessions)@ == old(sessions)@,
            (r == Err::<Login, _>(LoginError::InvalidCredentials)) <==> !(password_hash_of(
                users@,
                user_id.0,
            ) matches Some(h) && password_matches(password@, h)),
            (password_hash_of(users@, user_id.0) matches Some(h) && password_matches(password@, h))
                ==> (r is Ok || r == Err::<Login, _>(LoginError::Conflict)),
            (password_hash_of(users@, user_id.0) matches Some(h) && password_matches(password@, h))
                && old(sessions)@.len() == 0 ==> r is Ok,
            r matches Ok(l) ==> user_by_id(users@, user_id.0) matches Some(u) && opened(
                self,
                u,
                old(sessions)@,
                final(sessions)@,
                l,
                device_name,
                l.session.id,
                l.tokens.refresh_token@,
                now,
            ) && l.tokens.refresh_token@.len() == self.config().refresh_token_length && drawn_from(
                l.tokens.refresh_token@,
                alphanumeric(),
            ),
    {
        let session_id = SessionId(new_uuid());
        let refresh_token = self.issue_refresh_token();
        self.login_with(users, sessions, user_id, password, device_name, session_id, refresh_token, now)
    }

    /// Closes session `session_id`: its refresh-token hash is revoked for the
    /// access-token lifetime and the session is removed. Whether it existed.
    pub fn logout(
        &self,
        sessions: &mut SessionStore,
        cache: &mut RevocationCache,
        session_id: SessionId,
        now: u64,
    ) -> (r: bool)
        requires
            old(sessions).wf(),
            now + self.config().access_token_ttl <= u64::MAX,
        ensures
            final(sessions).wf(),
            r == has_id(old(sessions)@, session_id.0),
            !r ==> final(sessions)@ == old(sessions)@ && final(cache)@ == old(cache)@,
            r ==> final(sessions)@ == old(sessions)@.remove(
                position_of_id(old(sessions)@, session_id.0),
            ),
            r ==> forall|h: Seq<u8>, t: u64|
                #[trigger] final(cache).is_revoked(h, t) <==> (old(cache).is_revoked(h, t) || (h
                    == old(sessions)@[position_of_id(old(sessions)@, session_id.0)].1 && t < now
                    + self.config().access_token_ttl)),
    {
        let until = now + self.config_values().access_token_ttl;
        match sessions.refresh_token_hash_of(session_id) {
            Some(h) => cache.invalidate(h, until),
            None => return false,
        }
        sessions.delete(session_id)
    }
}

} // verus!
