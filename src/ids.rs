//! Identifiers of users, sessions and TOTP devices, and the text forms derived
//! from them.
use vstd::prelude::*;
use vstd::arithmetic::power::pow;
use vstd::string::StringExecFns;

verus! {

/// Identifier of a user account (a UUID held as its 128-bit value).
#[derive(Clone, Copy, Debug, PartialEq, Eq, Hash, Structural)]
pub struct UserId(pub u128);

/// Identifier of one login session.
#[derive(Clone, Copy, Debug, PartialEq, Eq, Hash, Structural)]
pub struct SessionId(pub u128);

/// Identifier of a TOTP device.
#[derive(Clone, Copy, Debug, PartialEq, Eq, Hash, Structural)]
pub struct TotpDeviceId(pub u128);

/// Lower-case hexadecimal digit for a value in `0..16`.
pub open spec fn hex_digit(n: int) -> char {
    seq!['0', '1', '2', '3', '4', '5', '6', '7', '8', '9', 'a', 'b', 'c', 'd', 'e', 'f'][n]
}

/// The `k`-th of the 32 nibbles of `v`, the most significant first.
pub open spec fn nibble(v: u128, k: int) -> int {
    (v as int / pow(16, (31 - k) as nat)) % 16
}

/// Number of hyphens that stand before position `p` of the hyphenated form.
pub open spec fn hyphens_before(p: int) -> int {
    if p < 8 {
        0
    } else if p < 13 {
        1
    } else if p < 18 {
        2
    } else if p < 23 {
        3
    } else {
        4
    }
}

/// The hyphenated lower-case form of a UUID: `xxxxxxxx-xxxx-xxxx-xxxx-xxxxxxxxxxxx`.
pub open spec fn hyphenated_text(v: u128) -> Seq<char> {
    Seq::new(
        36,
        |p: int|
            if p == 8 || p == 13 || p == 18 || p == 23 {
                '-'
            } else {
                hex_digit(nibble(v, p - hyphens_before(p)))
            },
    )
}

/// Relies on `uuid::Uuid::from_u128` and the `Display` of `uuid::fmt::Hyphenated`:
/// the 32 hex digits of the value, big-endian, lower case, in groups of 8-4-4-4-12.
#[verifier::external_body]
fn hyphenated(v: u128) -> (r: String)
    ensures
        r@ == hyphenated_text(v),
{
    uuid::Uuid::from_u128(v).hyphenated().to_string()
}

/// Relies on `uuid::Uuid::new_v4`: a fresh random identifier. Nothing is
/// promised of its value.
#[verifier::external_body]
pub(crate) fn new_uuid() -> (r: u128) {
    uuid::Uuid::new_v4().as_u128()
}

impl UserId {
    /// The hyphenated text form of this identifier.
    pub fn hyphenated(&self) -> (r: String)
        ensures
            r@ == hyphenated_text(self.0),
    {
        hyphenated(self.0)
    }
}

impl SessionId {
    /// The hyphenated text form of this identifier.
    pub fn hyphenated(&self) -> (r: String)
        ensures
            r@ == hyphenated_text(self.0),
    {
        hyphenated(self.0)
    }
}

/// Key under which the code that confirms a newsletter subscription is cached.
pub fn subscribe_newsletter_cache_key(user_id: UserId) -> (r: String)
    ensures
        r@ == "subscribe_newsletter_code:"@ + hyphenated_text(user_id.0),
{
    let prefix = String::from_str("subscribe_newsletter_code:");
    let id = user_id.hyphenated();
    prefix.concat(id.as_str())
}

/// Key under which the user id that a verification code belongs to is cached.
pub fn verification_cache_key(verification_code: &str) -> (r: String)
    ensures
        r@ == "verification:"@ + verification_code@,
{
    let prefix = String::from_str("verification:");
    prefix.concat(verification_code)
}

/// Key under which the code that allows a password reset is cached.
pub fn reset_password_cache_key(user_id: UserId) -> (r: String)
    ensures
        r@ == "reset_password_code:"@ + hyphenated_text(user_id.0),
{
    let prefix = String::from_str("reset_password_code:");
    let id = user_id.hyphenated();
    prefix.concat(id.as_str())
}

} // verus!
