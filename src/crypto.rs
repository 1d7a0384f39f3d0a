//! Digests, message authentication and randomness, drawn from outside crates,
//! and the small verified helpers built on them.
use vstd::prelude::*;

verus! {

/// The SHA-256 digest of the UTF-8 encoding of a text.
pub uninterp spec fn sha256_text(s: Seq<char>) -> Seq<u8>;

/// The HMAC-SHA-256 tag of `msg` under `key`.
pub uninterp spec fn hmac_sha256(key: Seq<u8>, msg: Seq<u8>) -> Seq<u8>;

/// Whether `password` is the one that the self-describing password hash `hash`
/// was made from.
pub uninterp spec fn password_matches(password: Seq<char>, hash: Seq<char>) -> bool;

/// Relies on argon2's `PasswordHash::new` and `PasswordVerifier::verify_password`:
/// the outcome depends on the password and the stored hash alone, and a hash
/// that does not parse matches no password.
#[verifier::external_body]
pub(crate) fn argon2_verify(password: &str, hash: &str) -> (r: bool)
    ensures
        r == password_matches(password@, hash@),
{
    match argon2::PasswordHash::new(hash) {
        Ok(parsed) => argon2::PasswordVerifier::verify_password(
            &argon2::Argon2::default(),
            password.as_bytes(),
            &parsed,
        ).is_ok(),
        Err(_) => false,
    }
}

/// Relies on argon2's `PasswordHasher::hash_password` with a fresh random salt
/// from `SaltString::generate`: the hash it returns records the salt and the
/// parameters, so it verifies the password it was made from. With the
/// default parameters it fails only for a password over `0xFFFF_FFFF` bytes,
/// which a text under `0x4000_0000` characters (at most four bytes each) is not.
#[verifier::external_body]
pub(crate) fn argon2_hash(password: &str) -> (r: Option<String>)
    ensures
        r matches Some(h) ==> password_matches(password@, h@),
        password@.len() < 0x4000_0000 ==> r is Some,
{
    let salt = argon2::password_hash::SaltString::generate(
        &mut argon2::password_hash::rand_core::OsRng,
    );
    match argon2::PasswordHasher::hash_password(
        &argon2::Argon2::default(),
        password.as_bytes(),
        &salt,
    ) {
        Ok(h) => Some(h.to_string()),
        Err(_) => None,
    }
}

/// Relies on `sha2::Sha256::digest`: the 32-byte digest of the bytes of `s`.
#[verifier::external_body]
pub(crate) fn sha256_of_str(s: &str) -> (r: Vec<u8>)
    ensures
        r@ == sha256_text(s@),
        r@.len() == 32,
{
    <sha2::Sha256 as sha2::Digest>::digest(s.as_bytes()).to_vec()
}

/// Relies on `hmac::Hmac<sha2::Sha256>`: HMAC accepts keys of any length, and
/// the tag has the 32 bytes of a SHA-256 digest.
#[verifier::external_body]
pub(crate) fn hmac_sha256_of(key: &[u8], msg: &[u8]) -> (r: Vec<u8>)
    ensures
        r@ == hmac_sha256(key@, msg@),
        r@.len() == 32,
{
    let mut mac = <hmac::Hmac<sha2::Sha256> as hmac::Mac>::new_from_slice(key).unwrap();
    hmac::Mac::update(&mut mac, msg);
    hmac::Mac::finalize(mac).into_bytes().to_vec()
}

/// Relies on `rand::Rng::gen_range` over `rand::thread_rng`: a value drawn from
/// `0..n`, which panics only on an empty range.
#[verifier::external_body]
pub(crate) fn random_below(n: u64) -> (r: u64)
    requires
        n > 0,
    ensures
        r < n,
{
    rand::Rng::gen_range(&mut rand::thread_rng(), 0..n)
}

/// Relies on `String::push`: appends one character.
#[verifier::external_body]
pub(crate) fn push_char(s: &mut String, c: char)
    ensures
        final(s)@ == old(s)@.push(c),
{
    s.push(c)
}

/// Whether every character of `s` is one of `alphabet`.
pub open spec fn drawn_from(s: Seq<char>, alphabet: Seq<char>) -> bool {
    forall|i: int| 0 <= i < s.len() ==> alphabet.contains(#[trigger] s[i])
}

/// A random text of `len` characters, each drawn from `alphabet`.
pub fn random_text(alphabet: &Vec<char>, len: usize) -> (r: String)
    requires
        alphabet@.len() > 0,
    ensures
        r@.len() == len,
        drawn_from(r@, alphabet@),
{
    let mut s = String::new();
    let mut i: usize = 0;
    while i < len
        invariant
            alphabet@.len() > 0,
            i <= len,
            s@.len() == i,
            drawn_from(s@, alphabet@),
        decreases len - i,
    {
        let k = random_below(alphabet.len() as u64) as usize;
        let c = alphabet[k];
        proof {
            assert(alphabet@[k as int] == c);
        }
        push_char(&mut s, c);
        assert(s@[i as int] == c);
        i = i + 1;
    }
    s
}

/// `len` random bytes.
pub fn random_bytes(len: usize) -> (r: Vec<u8>)
    ensures
        r@.len() == len,
{
    let mut v: Vec<u8> = Vec::new();
    let mut i: usize = 0;
    while i < len
        invariant
            i <= len,
            v@.len() == i,
        decreases len - i,
    {
        let b = random_below(256) as u8;
        v.push(b);
        i = i + 1;
    }
    v
}

/// Compares two byte strings, looking at every byte whatever the earlier ones were.
pub fn bytes_equal(a: &[u8], b: &[u8]) -> (r: bool)
    ensures
        r == (a@ == b@),
{
    if a.len() != b.len() {
        return false;
    }
    let mut same = true;
    let mut i: usize = 0;
    assert(a@.subrange(0, 0) =~= b@.subrange(0, 0));
    while i < a.len()
        invariant
            a@.len() == b@.len(),
            i <= a@.len(),
            same == (a@.subrange(0, i as int) == b@.subrange(0, i as int)),
        decreases a@.len() - i,
    {
        proof {
            assert(a@.subrange(0, i + 1) =~= a@.subrange(0, i as int).push(a@[i as int]));
            assert(b@.subrange(0, i + 1) =~= b@.subrange(0, i as int).push(b@[i as int]));
            if a@.subrange(0, i + 1) == b@.subrange(0, i + 1) {
                assert(a@.subrange(0, i + 1)[i as int] == b@.subrange(0, i + 1)[i as int]);
                assert(a@.subrange(0, i as int) =~= a@.subrange(0, i + 1).drop_last());
                assert(b@.subrange(0, i as int) =~= b@.subrange(0, i + 1).drop_last());
            }
        }
        same = same && a[i] == b[i];
        i = i + 1;
    }
    assert(a@.subrange(0, a@.len() as int) =~= a@);
    assert(b@.subrange(0, b@.len() as int) =~= b@);
    same
}

} // verus!
