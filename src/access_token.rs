//! Access tokens: the claims of an authentication, signed with a
//! process-wide key and valid until an absolute expiry.
//!
//! A token is the encoded claims followed by their HMAC-SHA-256 tag:
//! user id (16 bytes, little endian), session id (16), refresh-token hash (32),
//! admin flag (1), e-mail-verified flag (1), expiry in seconds (8), then the tag.
use vstd::prelude::*;
use vstd::bytes::*;
use vstd::slice::{slice_subrange, slice_to_vec};

use crate::crypto::{bytes_equal, hmac_sha256, hmac_sha256_of};
use crate::ids::{SessionId, UserId};
use crate::session::SessionRefreshTokenHash;

verus! {

/// Length of the encoded claims.
pub const CLAIMS_LEN: usize = 74;

/// Length of a refresh-token hash.
pub const HASH_LEN: usize = 32;

/// Who a request acts for, as an access token states it.
#[derive(Debug)]
pub struct Authentication {
    pub user_id: UserId,
    pub session_id: SessionId,
    pub refresh_token_hash: SessionRefreshTokenHash,
    pub admin: bool,
    pub email_verified: bool,
}

/// The mathematical content of an [`Authentication`].
pub struct Claims {
    pub user_id: u128,
    pub session_id: u128,
    pub refresh_token_hash: Seq<u8>,
    pub admin: bool,
    pub email_verified: bool,
}

impl View for Authentication {
    type V = Claims;

    open spec fn view(&self) -> Claims {
        Claims {
            user_id: self.user_id.0,
            session_id: self.session_id.0,
            refresh_token_hash: self.refresh_token_hash@,
            admin: self.admin,
            email_verified: self.email_verified,
        }
    }
}

impl Authentication {
    /// An authentication with the same claims.
    pub fn duplicate(&self) -> (r: Authentication)
        ensures
            r@ == self@,
    {
        Authentication {
            user_id: self.user_id,
            session_id: self.session_id,
            refresh_token_hash: self.refresh_token_hash.duplicate(),
            admin: self.admin,
            email_verified: self.email_verified,
        }
    }
}

/// Claims that can be encoded: the hash has its full length.
pub open spec fn claims_encodable(c: Claims) -> bool {
    c.refresh_token_hash.len() == HASH_LEN
}

pub open spec fn flag_byte(b: bool) -> u8 {
    if b {
        1
    } else {
        0
    }
}

/// The byte layout of claims with an expiry.
pub open spec fn encode_claims(c: Claims, expires_at: u64) -> Seq<u8> {
    spec_u128_to_le_bytes(c.user_id) + spec_u128_to_le_bytes(c.session_id)
        + c.refresh_token_hash + seq![flag_byte(c.admin), flag_byte(c.email_verified)]
        + spec_u64_to_le_bytes(expires_at)
}

/// The claims that the first `CLAIMS_LEN` bytes of a token state.
pub open spec fn decode_claims(p: Seq<u8>) -> Claims {
    Claims {
        user_id: spec_u128_from_le_bytes(p.subrange(0, 16)),
        session_id: spec_u128_from_le_bytes(p.subrange(16, 32)),
        refresh_token_hash: p.subrange(32, 64),
        admin: p[64] != 0,
        email_verified: p[65] != 0,
    }
}

/// The expiry that the first `CLAIMS_LEN` bytes of a token state.
pub open spec fn decode_expiry(p: Seq<u8>) -> u64 {
    spec_u64_from_le_bytes(p.subrange(66, 74))
}

/// The token that signing claims with an expiry under `key` yields.
pub open spec fn signed_token(key: Seq<u8>, c: Claims, expires_at: u64) -> Seq<u8> {
    encode_claims(c, expires_at) + hmac_sha256(key, encode_claims(c, expires_at))
}

/// A token that holds encoded claims followed by exactly their tag under `key`.
pub open spec fn is_authentic(key: Seq<u8>, t: Seq<u8>) -> bool {
    &&& t.len() >= CLAIMS_LEN
    &&& t.subrange(CLAIMS_LEN as int, t.len() as int) == hmac_sha256(
        key,
        t.subrange(0, CLAIMS_LEN as int),
    )
}

/// What checking a token at time `now` yields: its claims while it is
/// authentic and unexpired, nothing otherwise.
pub open spec fn verified_claims(key: Seq<u8>, t: Seq<u8>, now: u64) -> Option<Claims> {
    if is_authentic(key, t) && now < decode_expiry(t.subrange(0, CLAIMS_LEN as int)) {
        Some(decode_claims(t.subrange(0, CLAIMS_LEN as int)))
    } else {
        None
    }
}

/// Why a token was refused.
#[derive(Debug)]
pub enum VerifyJwtError<T> {
    /// Authentic, but past its expiry; the claims it held.
    Expired(T),
    /// Malformed, or its tag does not match.
    Invalid,
}

/// A signed access token.
#[derive(Debug)]
pub struct AccessToken(pub Vec<u8>);

impl View for AccessToken {
    type V = Seq<u8>;

    open spec fn view(&self) -> Seq<u8> {
        self.0@
    }
}

/// Decoding then encoding the claims of a token gives its bytes back, and
/// encoding then decoding gives the claims back.
pub proof fn lemma_claims_round_trip(c: Claims, expires_at: u64)
    requires
        claims_encodable(c),
    ensures
        encode_claims(c, expires_at).len() == CLAIMS_LEN,
        decode_claims(encode_claims(c, expires_at)) == c,
        decode_expiry(encode_claims(c, expires_at)) == expires_at,
{
    lemma_auto_spec_u128_to_from_le_bytes();
    lemma_auto_spec_u64_to_from_le_bytes();
    let p = encode_claims(c, expires_at);
    assert(p.subrange(0, 16) =~= spec_u128_to_le_bytes(c.user_id));
    assert(p.subrange(16, 32) =~= spec_u128_to_le_bytes(c.session_id));
    assert(p.subrange(32, 64) =~= c.refresh_token_hash);
    assert(p.subrange(66, 74) =~= spec_u64_to_le_bytes(expires_at));
    let d = decode_claims(p);
    assert(d.admin == c.admin);
    assert(d.email_verified == c.email_verified);
}

/// A token signed under `key` is verified under `key`: it yields exactly the
/// claims it was issued with before its expiry, and nothing from then on.
pub proof fn lemma_verify_issued(key: Seq<u8>, c: Claims, expires_at: u64, now: u64)
    requires
        claims_encodable(c),
    ensures
        verified_claims(key, signed_token(key, c, expires_at), now) == if now < expires_at {
            Some(c)
        } else {
            None
        },
{
    lemma_claims_round_trip(c, expires_at);
    let p = encode_claims(c, expires_at);
    let t = signed_token(key, c, expires_at);
    assert(t.subrange(0, CLAIMS_LEN as int) =~= p);
    assert(t.subrange(CLAIMS_LEN as int, t.len() as int) =~= hmac_sha256(key, p));
}

/// Signs and checks access tokens under one key, each valid for `ttl` seconds.
pub struct AccessTokenCodec {
    key: Vec<u8>,
    ttl: u64,
}

impl AccessTokenCodec {
    pub fn new(key: Vec<u8>, ttl: u64) -> (r: AccessTokenCodec)
        ensures
            r.key() == key@,
            r.ttl() == ttl,
    {
        AccessTokenCodec { key, ttl }
    }

    pub closed spec fn key(&self) -> Seq<u8> {
        self.key@
    }

    pub closed spec fn ttl(&self) -> u64 {
        self.ttl
    }

    pub fn access_token_ttl(&self) -> (r: u64)
        ensures
            r == self.ttl(),
    {
        self.ttl
    }

    /// Signs the claims of `auth`, to expire `ttl` seconds after `now`.
    pub fn issue(&self, auth: &Authentication, now: u64) -> (r: AccessToken)
        requires
            claims_encodable(auth@),
            now + self.ttl() <= u64::MAX,
        ensures
            r@ == signed_token(self.key(), auth@, (now + self.ttl()) as u64),
    {
        let expires_at = now + self.ttl;
        let mut p = u128_to_le_bytes(auth.user_id.0);
        let mut s = u128_to_le_bytes(auth.session_id.0);
        p.append(&mut s);
        let mut h = auth.refresh_token_hash.0.clone();
        assert(h@ =~= auth.refresh_token_hash@);
        p.append(&mut h);
        p.push(if auth.admin { 1u8 } else { 0u8 });
        p.push(if auth.email_verified { 1u8 } else { 0u8 });
        let mut e = u64_to_le_bytes(expires_at);
        p.append(&mut e);
        assert(p@ =~= encode_claims(auth@, expires_at));
        let mut tag = hmac_sha256_of(self.key.as_slice(), p.as_slice());
        p.append(&mut tag);
        AccessToken(p)
    }

    /// Checks the tag and the expiry of a token and returns its claims:
    /// `Expired` with the claims of an authentic token at or past its expiry,
    /// `Invalid` for any other token that fails.
    pub fn decode(&self, token: &AccessToken, now: u64) -> (r: Result<
        Authentication,
        VerifyJwtError<Authentication>,
    >)
        ensures
            match r {
                Ok(a) => is_authentic(self.key(), token@) && now < decode_expiry(
                    token@.subrange(0, CLAIMS_LEN as int),
                ) && a@ == decode_claims(token@.subrange(0, CLAIMS_LEN as int)),
                Err(VerifyJwtError::Expired(a)) => is_authentic(self.key(), token@) && now
                    >= decode_expiry(token@.subrange(0, CLAIMS_LEN as int)) && a@ == decode_claims(
                    token@.subrange(0, CLAIMS_LEN as int),
                ),
                Err(VerifyJwtError::Invalid) => !is_authentic(self.key(), token@),
            },
    {
        let t = token.0.as_slice();
        if t.len() < CLAIMS_LEN {
            return Err(VerifyJwtError::Invalid);
        }
        let p = slice_subrange(t, 0, CLAIMS_LEN);
        let tag = slice_subrange(t, CLAIMS_LEN, t.len());
        let expected = hmac_sha256_of(self.key.as_slice(), p);
        if !bytes_equal(tag, expected.as_slice()) {
            return Err(VerifyJwtError::Invalid);
        }
        let user_id = u128_from_le_bytes(slice_subrange(p, 0, 16));
        let session_id = u128_from_le_bytes(slice_subrange(p, 16, 32));
        let hash = slice_to_vec(slice_subrange(p, 32, 64));
        let auth = Authentication {
            user_id: UserId(user_id),
            session_id: SessionId(session_id),
            refresh_token_hash: SessionRefreshTokenHash(hash),
            admin: p[64] != 0,
            email_verified: p[65] != 0,
        };
        assert(auth@.refresh_token_hash =~= decode_claims(p@).refresh_token_hash);
        let expires_at = u64_from_le_bytes(slice_subrange(p, 66, 74));
        if now >= expires_at {
            Err(VerifyJwtError::Expired(auth))
        } else {
            Ok(auth)
        }
    }

    /// The claims of an authentic, unexpired token; `None` for any other.
    pub fn verify(&self, token: &AccessToken, now: u64) -> (r: Option<Authentication>)
        ensures
            match r {
                Some(a) => verified_claims(self.key(), token@, now) == Some(a@),
                None => verified_claims(self.key(), token@, now).is_none(),
            },
    {
        match self.decode(token, now) {
            Ok(a) => Some(a),
            Err(_) => None,
        }
    }
}

} // verus!
