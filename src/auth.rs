//! The authentication orchestrator: checks access tokens, passwords and
//! refresh tokens, issues token pairs, and revokes them.
use vstd::prelude::*;

use crate::access_token::{
    signed_token, verified_claims, AccessToken, AccessTokenCodec, Authentication, Claims,
};
use crate::crypto::{
    argon2_verify, drawn_from, password_matches, random_text, sha256_of_str, sha256_text,
};
use crate::ids::{SessionId, UserId};
use crate::revocation::RevocationCache;
use crate::session::{
    has_hash, hashes_of_user, lemma_rotation_exclusive, position_of_hash, rotated,
    session_by_hash, SessionRefreshTokenHash, SessionStore,
};
use crate::users::{password_hash_of, user_by_id, User, UserStore};

verus! {

/// Lifetimes and sizes of the tokens, fixed when the process starts.
#[derive(Clone, Copy, Debug)]
pub struct AuthServiceConfig {
    /// Seconds an access token stays valid.
    pub access_token_ttl: u64,
    /// Seconds a refresh token stays usable after its session was last refreshed.
    pub refresh_token_ttl: u64,
    /// Characters in a refresh token.
    pub refresh_token_length: usize,
    /// Seconds a token for internal services stays valid.
    pub internal_token_ttl: u64,
}

/// Why an access token was refused.
#[derive(Debug, PartialEq, Eq, Structural)]
pub enum AuthenticateError {
    InvalidToken,
}

/// Why a password was refused. No password set and a wrong password look the same.
#[derive(Debug, PartialEq, Eq, Structural)]
pub enum AuthenticateByPasswordError {
    InvalidCredentials,
}

/// Why a refresh token was refused.
#[derive(Debug, PartialEq, Eq, Structural)]
pub enum AuthenticateByRefreshTokenError {
    /// No session is bound to it.
    Invalid,
    /// Its session was last refreshed too long ago.
    Expired(SessionId),
}

/// An authenticated caller lacks the right to act on the target.
#[derive(Debug, PartialEq, Eq, Structural)]
pub enum AuthorizeError {
    Forbidden,
}

/// Why a caller may not go on: the token was refused, or the right is missing.
#[derive(Debug, PartialEq, Eq, Structural)]
pub enum AuthError {
    Authenticate(AuthenticateError),
    Authorize(AuthorizeError),
}

/// A fresh token pair. Only the hash of the refresh token is ever stored.
#[derive(Debug)]
pub struct Tokens {
    pub access_token: AccessToken,
    pub refresh_token: String,
    pub refresh_token_hash: SessionRefreshTokenHash,
}

/// Why a session could not be refreshed.
#[derive(Debug, PartialEq, Eq, Structural)]
pub enum RefreshSessionError {
    /// No session is bound to the refresh token.
    InvalidRefreshToken,
    /// The session was last refreshed too long ago.
    Expired(SessionId),
    /// The session's user no longer exists.
    UserNotFound,
    /// The new refresh token hashes to that of another session.
    Conflict,
}

/// Characters a refresh token is drawn from.
pub open spec fn alphanumeric() -> Seq<char> {
    seq![
        'A', 'B', 'C', 'D', 'E', 'F', 'G', 'H', 'I', 'J', 'K', 'L', 'M', 'N', 'O', 'P', 'Q', 'R',
        'S', 'T', 'U', 'V', 'W', 'X', 'Y', 'Z', 'a', 'b', 'c', 'd', 'e', 'f', 'g', 'h', 'i', 'j',
        'k', 'l', 'm', 'n', 'o', 'p', 'q', 'r', 's', 't', 'u', 'v', 'w', 'x', 'y', 'z', '0', '1',
        '2', '3', '4', '5', '6', '7', '8', '9',
    ]
}

fn alphanumeric_chars() -> (r: Vec<char>)
    ensures
        r@ == alphanumeric(),
{
    let r = vec![
        'A', 'B', 'C', 'D', 'E', 'F', 'G', 'H', 'I', 'J', 'K', 'L', 'M', 'N', 'O', 'P', 'Q', 'R',
        'S', 'T', 'U', 'V', 'W', 'X', 'Y', 'Z', 'a', 'b', 'c', 'd', 'e', 'f', 'g', 'h', 'i', 'j',
        'k', 'l', 'm', 'n', 'o', 'p', 'q', 'r', 's', 't', 'u', 'v', 'w', 'x', 'y', 'z', '0', '1',
        '2', '3', '4', '5', '6', '7', '8', '9',
    ];
    assert(r@ =~= alphanumeric());
    r
}

/// The claims an access token grants at `now`: those of an authentic,
/// unexpired token whose refresh-token hash is not revoked.
pub open spec fn authenticated_claims(
    key: Seq<u8>,
    cache: RevocationCache,
    t: Seq<u8>,
    now: u64,
) -> Option<Claims> {
    match verified_claims(key, t, now) {
        Some(c) => if cache.is_revoked(c.refresh_token_hash, now) {
            None
        } else {
            Some(c)
        },
        None => None,
    }
}

/// The user a caller acts on, if they may: `user_id`, or themself where it is
/// `None`, allowed to the user themself and to administrators.
pub open spec fn authorized_target(
    key: Seq<u8>,
    cache: RevocationCache,
    t: Seq<u8>,
    user_id: Option<UserId>,
    now: u64,
) -> Result<UserId, AuthError> {
    match authenticated_claims(key, cache, t, now) {
        None => Err(AuthError::Authenticate(AuthenticateError::InvalidToken)),
        Some(c) => {
            let target = match user_id {
                Some(u) => u,
                None => UserId(c.user_id),
            };
            if c.admin || target.0 == c.user_id {
                Ok(target)
            } else {
                Err(AuthError::Authorize(AuthorizeError::Forbidden))
            }
        },
    }
}

/// What presenting a refresh token with hash `h` at `now` yields.
pub open spec fn refresh_outcome(
    sessions: SessionStore,
    h: Seq<u8>,
    now: u64,
    ttl: u64,
) -> Result<SessionId, AuthenticateByRefreshTokenError> {
    match session_by_hash(sessions@, h) {
        None => Err(AuthenticateByRefreshTokenError::Invalid),
        Some(s) => if now as int >= s.updated_at + ttl {
            Err(AuthenticateByRefreshTokenError::Expired(SessionId(s.id)))
        } else {
            Ok(SessionId(s.id))
        },
    }
}

/// The claims of an access token issued to `user` for `session_id`, bound to `h`.
pub open spec fn claims_for(user: User, session_id: SessionId, h: Seq<u8>) -> Claims {
    Claims {
        user_id: user.id.0,
        session_id: session_id.0,
        refresh_token_hash: h,
        admin: user.admin,
        email_verified: user.email_verified,
    }
}

impl Authentication {
    /// Passes an administrator only.
    pub fn ensure_admin(&self) -> (r: Result<(), AuthorizeError>)
        ensures
            r is Ok <==> self.admin,
    {
        if self.admin {
            Ok(())
        } else {
            Err(AuthorizeError::Forbidden)
        }
    }

    /// Passes the user themself and any administrator.
    pub fn ensure_self_or_admin(&self, user_id: UserId) -> (r: Result<(), AuthorizeError>)
        ensures
            r is Ok <==> (self.admin || self.user_id == user_id),
    {
        if self.admin || self.user_id == user_id {
            Ok(())
        } else {
            Err(AuthorizeError::Forbidden)
        }
    }
}

/// The hash under which a refresh token is stored and looked up.
pub fn hash_refresh_token(refresh_token: &str) -> (r: SessionRefreshTokenHash)
    ensures
        r@ == sha256_text(refresh_token@),
        r@.len() == 32,
{
    SessionRefreshTokenHash(sha256_of_str(refresh_token))
}

/// Authenticates access tokens, passwords and refresh tokens, and issues tokens.
pub struct AuthServiceImpl {
    config: AuthServiceConfig,
    access_token: AccessTokenCodec,
}

impl AuthServiceImpl {
    /// A service that signs access tokens with `signing_key`.
    pub fn new(config: AuthServiceConfig, signing_key: Vec<u8>) -> (r: AuthServiceImpl)
        ensures
            r.config() == config,
            r.key() == signing_key@,
            r.wf(),
    {
        let access_token = AccessTokenCodec::new(signing_key, config.access_token_ttl);
        AuthServiceImpl { config, access_token }
    }

    pub closed spec fn config(&self) -> AuthServiceConfig {
        self.config
    }

    pub closed spec fn key(&self) -> Seq<u8> {
        self.access_token.key()
    }

    pub closed spec fn wf(&self) -> bool {
        self.access_token.ttl() == self.config.access_token_ttl
    }

    pub fn config_values(&self) -> (r: AuthServiceConfig)
        ensures
            r == self.config(),
    {
        self.config
    }

    /// Accepts an authentic, unexpired access token whose refresh-token hash is
    /// not revoked, and returns its claims.
    pub fn authenticate(&self, cache: &RevocationCache, token: &AccessToken, now: u64) -> (r: Result<
        Authentication,
        AuthenticateError,
    >)
        ensures
            match r {
                Ok(a) => authenticated_claims(self.key(), *cache, token@, now) == Some(a@),
                Err(e) => authenticated_claims(self.key(), *cache, token@, now).is_none() && e
                    == AuthenticateError::InvalidToken,
            },
    {
        let auth = match self.access_token.verify(token, now) {
            Some(a) => a,
            None => return Err(AuthenticateError::InvalidToken),
        };
        if cache.is_invalidated(&auth.refresh_token_hash, now) {
            return Err(AuthenticateError::InvalidToken);
        }
        Ok(auth)
    }

    /// Authenticates the caller and checks that they may act on `user_id`
    /// (themself where it is `None`); returns the user acted on.
    pub fn authorize_self_or_admin(
        &self,
        cache: &RevocationCache,
        token: &AccessToken,
        user_id: Option<UserId>,
        now: u64,
    ) -> (r: Result<UserId, AuthError>)
        ensures
            r == authorized_target(self.key(), *cache, token@, user_id, now),
    {
        let auth = match self.authenticate(cache, token, now) {
            Ok(a) => a,
            Err(e) => return Err(AuthError::Authenticate(e)),
        };
        let target = match user_id {
            Some(u) => u,
            None => auth.user_id,
        };
        match auth.ensure_self_or_admin(target) {
            Ok(()) => Ok(target),
            Err(e) => Err(AuthError::Authorize(e)),
        }
    }

    /// Accepts `password` where user `user_id` has a password hash that it matches.
    pub fn authenticate_by_password(&self, users: &UserStore, user_id: UserId, password: &str) -> (r:
        Result<(), AuthenticateByPasswordError>)
        requires
            users.wf(),
        ensures
            r is Ok <==> (password_hash_of(users@, user_id.0) matches Some(h) && password_matches(
                password@,
                h,
            )),
            r is Err ==> r == Err::<(), _>(AuthenticateByPasswordError::InvalidCredentials),
    {
        let hash = match users.get_password_hash(user_id) {
            Some(h) => h,
            None => return Err(AuthenticateByPasswordError::InvalidCredentials),
        };
        if argon2_verify(password, hash.as_str()) {
            Ok(())
        } else {
            Err(AuthenticateByPasswordError::InvalidCredentials)
        }
    }

    /// The session that a refresh token belongs to, unless it has lapsed:
    /// `Expired` once `refresh_token_ttl` seconds have passed since the session
    /// was last refreshed.
    pub fn authenticate_by_refresh_token(
        &self,
        sessions: &SessionStore,
        refresh_token: &str,
        now: u64,
    ) -> (r: Result<SessionId, AuthenticateByRefreshTokenError>)
        requires
            sessions.wf(),
        ensures
            r == refresh_outcome(
                *sessions,
                sha256_text(refresh_token@),
                now,
                self.config().refresh_token_ttl,
            ),
    {
        let h = hash_refresh_token(refresh_token);
        let session = match sessions.get_by_refresh_token_hash(&h) {
            Some(s) => s,
            None => return Err(AuthenticateByRefreshTokenError::Invalid),
        };
        if now >= session.updated_at && now - session.updated_at >= self.config.refresh_token_ttl {
            return Err(AuthenticateByRefreshTokenError::Expired(session.id));
        }
        Ok(session.id)
    }

    /// A fresh random refresh token.
    pub fn issue_refresh_token(&self) -> (r: String)
        ensures
            r@.len() == self.config().refresh_token_length,
            drawn_from(r@, alphanumeric()),
    {
        let alphabet = alphanumeric_chars();
        random_text(&alphabet, self.config.refresh_token_length)
    }

    /// The token pair for `user` and `session_id` around the given refresh token.
    pub fn issue_tokens_with(
        &self,
        user: &User,
        session_id: SessionId,
        refresh_token: String,
        now: u64,
    ) -> (r: Tokens)
        requires
            self.wf(),
            now + self.config().access_token_ttl <= u64::MAX,
        ensures
            r.refresh_token@ == refresh_token@,
            r.refresh_token_hash@ == sha256_text(refresh_token@),
            r.refresh_token_hash@.len() == 32,
            r.access_token@ == signed_token(
                self.key(),
                claims_for(*user, session_id, sha256_text(refresh_token@)),
                (now + self.config().access_token_ttl) as u64,
            ),
    {
        let refresh_token_hash = hash_refresh_token(refresh_token.as_str());
        let auth = Authentication {
            user_id: user.id,
            session_id,
            refresh_token_hash: refresh_token_hash.duplicate(),
            admin: user.admin,
            email_verified: user.email_verified,
        };
        let access_token = self.access_token.issue(&auth, now);
        Tokens { access_token, refresh_token, refresh_token_hash }
    }

    /// A token pair for `user` and `session_id` around a fresh refresh token.
    pub fn issue_tokens(&self, user: &User, session_id: SessionId, now: u64) -> (r: Tokens)
        requires
            self.wf(),
            now + self.config().access_token_ttl <= u64::MAX,
        ensures
            r.refresh_token@.len() == self.config().refresh_token_length,
            drawn_from(r.refresh_token@, alphanumeric()),
            r.refresh_token_hash@ == sha256_text(r.refresh_token@),
            r.refresh_token_hash@.len() == 32,
            r.access_token@ == signed_token(
                self.key(),
                claims_for(*user, session_id, sha256_text(r.refresh_token@)),
                (now + self.config().access_token_ttl) as u64,
            ),
    {
        let refresh_token = self.issue_refresh_token();
        self.issue_tokens_with(user, session_id, refresh_token, now)
    }

    /// Refuses, until every access token issued by now has expired, the access
    /// tokens of every session of `user_id`.
    pub fn invalidate_access_tokens(
        &self,
        sessions: &SessionStore,
        cache: &mut RevocationCache,
        user_id: UserId,
        now: u64,
    )
        requires
            now + self.config().access_token_ttl <= u64::MAX,
        ensures
            forall|h: Seq<u8>, t: u64|
                #[trigger] final(cache).is_revoked(h, t) <==> (old(cache).is_revoked(h, t) || (
                hashes_of_user(sessions@, user_id.0).contains(h) && t < now
                    + self.config().access_token_ttl)),
    {
        let until = now + self.config.access_token_ttl;
        let hashes = sessions.list_refresh_token_hashes_by_user(user_id);
        let ghost listed = hashes@.map_values(|h: SessionRefreshTokenHash| h@);
        let mut i: usize = 0;
        while i < hashes.len()
            invariant
                i <= hashes@.len(),
                listed == hashes_of_user(sessions@, user_id.0),
                listed == hashes@.map_values(|h: SessionRefreshTokenHash| h@),
                until == now + self.config().access_token_ttl,
                forall|h: Seq<u8>, t: u64|
                    #[trigger] cache.is_revoked(h, t) <==> (old(cache).is_revoked(h, t) || (
                    listed.subrange(0, i as int).contains(h) && t < until)),
            decreases hashes@.len() - i,
        {
            let ghost prev = *cache;
            cache.invalidate(&hashes[i], until);
            assert(listed.subrange(0, i + 1) =~= listed.subrange(0, i as int).push(hashes@[i as int]@));
            assert forall|h: Seq<u8>, t: u64|
                #[trigger] cache.is_revoked(h, t) <==> (old(cache).is_revoked(h, t) || (
                listed.subrange(0, i + 1).contains(h) && t < until)) by {
                if listed.subrange(0, i + 1).contains(h) && h != hashes@[i as int]@ {
                    let k = choose|k: int| 0 <= k < i + 1 && #[trigger] listed.subrange(0, i + 1)[k] == h;
                    assert(listed.subrange(0, i as int)[k] == h);
                }
                if listed.subrange(0, i as int).contains(h) {
                    let k = choose|k: int| 0 <= k < i && #[trigger] listed.subrange(0, i as int)[k] == h;
                    assert(listed.subrange(0, i + 1)[k] == h);
                }
                if h == hashes@[i as int]@ {
                    assert(listed.subrange(0, i + 1)[i as int] == h);
                }
            }
            i = i + 1;
        }
        assert(listed.subrange(0, hashes@.len() as int) =~= listed);
    }

    /// Rotates the refresh token of the session that `refresh_token` belongs
    /// to: the session takes the hash of `new_refresh_token` and `now` as its
    /// last refresh, and a token pair around the new refresh token is issued.
    /// On any error the store is left as it was.
    pub fn refresh_session_with(
        &self,
        users: &UserStore,
        sessions: &mut SessionStore,
        refresh_token: &str,
        new_refresh_token: String,
        now: u64,
    ) -> (r: Result<Tokens, RefreshSessionError>)
        requires
            self.wf(),
            users.wf(),
            old(sessions).wf(),
            now + self.config().access_token_ttl <= u64::MAX,
        ensures
            final(sessions).wf(),
            r is Err ==> final(sessions)@ == old(sessions)@,
            refresh_outcome(
                *old(sessions),
                sha256_text(refresh_token@),
                now,
                self.config().refresh_token_ttl,
            ) == Err::<SessionId, _>(AuthenticateByRefreshTokenError::Invalid) ==> r == Err::<
                Tokens,
                _,
            >(RefreshSessionError::InvalidRefreshToken),
            forall|id: SessionId|
                refresh_outcome(
                    *old(sessions),
                    sha256_text(refresh_token@),
                    now,
                    self.config().refresh_token_ttl,
                ) == Err::<SessionId, _>(AuthenticateByRefreshTokenError::Expired(id)) ==> r == Err::<
                    Tokens,
                    _,
                >(RefreshSessionError::Expired(id)),
            refresh_outcome(
                *old(sessions),
                sha256_text(refresh_token@),
                now,
                self.config().refresh_token_ttl,
            ) is Ok ==> (session_by_hash(old(sessions)@, sha256_text(refresh_token@)) matches Some(
                s,
            ) && if user_by_id(users@, s.user_id) is None {
                r == Err::<Tokens, _>(RefreshSessionError::UserNotFound)
            } else if has_hash(old(sessions)@, sha256_text(new_refresh_token@)) && old(
                sessions,
            )@[position_of_hash(old(sessions)@, sha256_text(new_refresh_token@))].0.id != s.id {
                r == Err::<Tokens, _>(RefreshSessionError::Conflict)
            } else {
                r is Ok
            }),
            r matches Ok(t) ==> {
                &&& refresh_outcome(
                    *old(sessions),
                    sha256_text(refresh_token@),
                    now,
                    self.config().refresh_token_ttl,
                ) is Ok
                &&& session_by_hash(old(sessions)@, sha256_text(refresh_token@)) matches Some(s)
                &&& user_by_id(users@, s.user_id) matches Some(u)
                &&& final(sessions)@ == rotated(
                    old(sessions)@,
                    s.id,
                    sha256_text(new_refresh_token@),
                    now,
                )
                &&& t.refresh_token@ == new_refresh_token@
                &&& t.refresh_token_hash@ == sha256_text(new_refresh_token@)
                &&& t.access_token@ == signed_token(
                    self.key(),
                    claims_for(u, SessionId(s.id), sha256_text(new_refresh_token@)),
                    (now + self.config().access_token_ttl) as u64,
                )
                &&& sha256_text(new_refresh_token@) != sha256_text(refresh_token@) ==> session_by_hash(
                    final(sessions)@,
                    sha256_text(refresh_token@),
                ).is_none()
            },
    {
        let session_id = match self.authenticate_by_refresh_token(sessions, refresh_token, now) {
            Ok(id) => id,
            Err(AuthenticateByRefreshTokenError::Invalid) => {
                return Err(RefreshSessionError::InvalidRefreshToken);
            },
            Err(AuthenticateByRefreshTokenError::Expired(id)) => {
                return Err(RefreshSessionError::Expired(id));
            },
        };
        let ghost old_h = sha256_text(refresh_token@);
        proof {
            let p = position_of_hash(sessions@, old_h);
            assert(sessions@[p].0.id == session_id.0);
        }
        let user_id = match sessions.get(session_id) {
            Some(s) => s.user_id,
            None => {
                proof {
                    let p = position_of_hash(sessions@, old_h);
                    assert(sessions@[p].0.id == session_id.0);
                }
                return Err(RefreshSessionError::InvalidRefreshToken);
            },
        };
        let user = match users.get(user_id) {
            Some(u) => u,
            None => return Err(RefreshSessionError::UserNotFound),
        };
        let tokens = self.issue_tokens_with(&user, session_id, new_refresh_token, now);
        match sessions.rotate(session_id, tokens.refresh_token_hash.duplicate(), now) {
            Ok(()) => {},
            Err(_) => return Err(RefreshSessionError::Conflict),
        }
        proof {
            if sha256_text(tokens.refresh_token@) != old_h {
                lemma_rotation_exclusive(old(sessions)@, old_h, sha256_text(tokens.refresh_token@), now);
            }
        }
        Ok(tokens)
    }
}

/// While the hash an access token is bound to stays revoked, the token is
/// refused, however often it is presented: revocation is sticky up to the
/// time it lapses.
pub proof fn lemma_revocation_sticky(
    key: Seq<u8>,
    cache: RevocationCache,
    h: Seq<u8>,
    until: u64,
    token: Seq<u8>,
    now: u64,
)
    requires
        forall|t: u64| t < until ==> #[trigger] cache.is_revoked(h, t),
        verified_claims(key, token, now) matches Some(c) && c.refresh_token_hash == h,
        now < until,
    ensures
        authenticated_claims(key, cache, token, now).is_none(),
{
    assert(cache.is_revoked(h, now));
}

} // verus!
