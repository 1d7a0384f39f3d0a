//! Multi-factor authentication: one TOTP device per user, pending until it is
//! confirmed with a code, and a single-use recovery code issued when it is
//! enabled.
use vstd::prelude::*;
use vstd::string::StrSliceExecFns;

use crate::crypto::{push_char, random_below};
use crate::ids::{TotpDeviceId, UserId};

verus! {

/// Digits in a TOTP code.
pub const TOTP_DIGITS: usize = 6;

/// Seconds in one TOTP time step.
pub const TOTP_STEP: u64 = 30;

/// Fewest bytes a TOTP secret may have.
pub const TOTP_SECRET_MIN_LEN: usize = 16;

/// Groups in a recovery code.
pub const RECOVERY_CODE_CHUNK_COUNT: usize = 4;

/// Characters in each group of a recovery code.
pub const RECOVERY_CODE_CHUNK_SIZE: usize = 6;

/// The `TOTP_DIGITS`-digit code for `secret` in time step `counter`.
pub uninterp spec fn totp_code(secret: Seq<u8>, digits: usize, counter: u64) -> Seq<char>;

/// Weight of bit `j` (`0..8`) of a byte, the most significant first.
pub open spec fn bit_weight(j: int) -> int {
    if j == 0 {
        128
    } else if j == 1 {
        64
    } else if j == 2 {
        32
    } else if j == 3 {
        16
    } else if j == 4 {
        8
    } else if j == 5 {
        4
    } else if j == 6 {
        2
    } else {
        1
    }
}

/// Bit `k` of `bytes` read as one bit string, most significant bit of each
/// byte first; 0 past the end.
pub open spec fn bit_of(bytes: Seq<u8>, k: int) -> int {
    if 0 <= k < 8 * bytes.len() {
        (bytes[k / 8] as int / bit_weight(k % 8)) % 2
    } else {
        0
    }
}

/// The value of the `i`-th group of five bits.
pub open spec fn base32_digit(bytes: Seq<u8>, i: int) -> int {
    16 * bit_of(bytes, 5 * i) + 8 * bit_of(bytes, 5 * i + 1) + 4 * bit_of(bytes, 5 * i + 2) + 2
        * bit_of(bytes, 5 * i + 3) + bit_of(bytes, 5 * i + 4)
}

/// The RFC 4648 base32 character for a value in `0..32`: `A`-`Z`, then `2`-`7`.
pub open spec fn base32_char(d: int) -> char {
    if d < 26 {
        ((65 + d) as u32) as char
    } else {
        ((24 + d) as u32) as char
    }
}

/// RFC 4648 base32 text of some bytes, without padding: one character for
/// each group of five bits, the last group filled up with zero bits.
pub open spec fn base32_text(bytes: Seq<u8>) -> Seq<char> {
    Seq::new(((8 * bytes.len() + 4) / 5) as nat, |i: int| base32_char(base32_digit(bytes, i)))
}

proof fn lemma_base32_char_injective(a: int, b: int)
    requires
        0 <= a < 32,
        0 <= b < 32,
        base32_char(a) == base32_char(b),
    ensures
        a == b,
{
    assert(base32_char(a) as u32 == if a < 26 { 65 + a } else { 24 + a });
    assert(base32_char(b) as u32 == if b < 26 { 65 + b } else { 24 + b });
}

proof fn lemma_byte_from_bits(bytes: Seq<u8>, n: int)
    requires
        0 <= n < bytes.len(),
    ensures
        bytes[n] as int == 128 * bit_of(bytes, 8 * n) + 64 * bit_of(bytes, 8 * n + 1) + 32 * bit_of(
            bytes,
            8 * n + 2,
        ) + 16 * bit_of(bytes, 8 * n + 3) + 8 * bit_of(bytes, 8 * n + 4) + 4 * bit_of(
            bytes,
            8 * n + 5,
        ) + 2 * bit_of(bytes, 8 * n + 6) + bit_of(bytes, 8 * n + 7),
{
    let x = bytes[n] as int;
    assert((8 * n) / 8 == n && (8 * n) % 8 == 0);
    assert((8 * n + 1) / 8 == n && (8 * n + 1) % 8 == 1);
    assert((8 * n + 2) / 8 == n && (8 * n + 2) % 8 == 2);
    assert((8 * n + 3) / 8 == n && (8 * n + 3) % 8 == 3);
    assert((8 * n + 4) / 8 == n && (8 * n + 4) % 8 == 4);
    assert((8 * n + 5) / 8 == n && (8 * n + 5) % 8 == 5);
    assert((8 * n + 6) / 8 == n && (8 * n + 6) % 8 == 6);
    assert((8 * n + 7) / 8 == n && (8 * n + 7) % 8 == 7);
    assert(0 <= x < 256);
    assert(x / 4 == (x / 2) / 2);
    assert(x / 8 == (x / 4) / 2);
    assert(x / 16 == (x / 8) / 2);
    assert(x / 32 == (x / 16) / 2);
    assert(x / 64 == (x / 32) / 2);
    assert(x / 128 == (x / 64) / 2);
    assert(x == 2 * (x / 2) + x % 2);
    assert(x / 2 == 2 * (x / 4) + (x / 2) % 2);
    assert(x / 4 == 2 * (x / 8) + (x / 4) % 2);
    assert(x / 8 == 2 * (x / 16) + (x / 8) % 2);
    assert(x / 16 == 2 * (x / 32) + (x / 16) % 2);
    assert(x / 32 == 2 * (x / 64) + (x / 32) % 2);
    assert(x / 64 == 2 * (x / 128) + (x / 64) % 2);
    assert(x / 128 == (x / 128) % 2);
}

/// Base32 text determines the bytes: different secrets never share a setup text.
pub proof fn lemma_base32_injective(a: Seq<u8>, b: Seq<u8>)
    requires
        base32_text(a) == base32_text(b),
    ensures
        a == b,
{
    let n = (8 * a.len() + 4) / 5;
    assert(base32_text(a).len() == n);
    assert(base32_text(b).len() == (8 * b.len() + 4) / 5);
    assert(a.len() == b.len());
    assert forall|i: int| 0 <= i < n implies base32_digit(a, i) == base32_digit(b, i) by {
        assert(base32_text(a)[i] == base32_text(b)[i]);
        assert(base32_text(a)[i] == base32_char(base32_digit(a, i)));
        assert(base32_text(b)[i] == base32_char(base32_digit(b, i)));
        assert(0 <= bit_of(a, 5 * i) <= 1 && 0 <= bit_of(a, 5 * i + 1) <= 1 && 0 <= bit_of(a, 5 * i + 2) <= 1);
        assert(0 <= bit_of(a, 5 * i + 3) <= 1 && 0 <= bit_of(a, 5 * i + 4) <= 1);
        assert(0 <= bit_of(b, 5 * i) <= 1 && 0 <= bit_of(b, 5 * i + 1) <= 1 && 0 <= bit_of(b, 5 * i + 2) <= 1);
        assert(0 <= bit_of(b, 5 * i + 3) <= 1 && 0 <= bit_of(b, 5 * i + 4) <= 1);
        lemma_base32_char_injective(base32_digit(a, i), base32_digit(b, i));
    }
    assert forall|k: int| 0 <= k < 8 * a.len() implies bit_of(a, k) == bit_of(b, k) by {
        let i = k / 5;
        assert(0 <= i < n);
        assert(base32_digit(a, i) == base32_digit(b, i));
        assert(0 <= bit_of(a, 5 * i) <= 1 && 0 <= bit_of(a, 5 * i + 1) <= 1 && 0 <= bit_of(a, 5 * i + 2) <= 1);
        assert(0 <= bit_of(a, 5 * i + 3) <= 1 && 0 <= bit_of(a, 5 * i + 4) <= 1);
        assert(0 <= bit_of(b, 5 * i) <= 1 && 0 <= bit_of(b, 5 * i + 1) <= 1 && 0 <= bit_of(b, 5 * i + 2) <= 1);
        assert(0 <= bit_of(b, 5 * i + 3) <= 1 && 0 <= bit_of(b, 5 * i + 4) <= 1);
        assert(k == 5 * i + k % 5);
    }
    assert forall|m: int| 0 <= m < a.len() implies a[m] == b[m] by {
        lemma_byte_from_bits(a, m);
        lemma_byte_from_bits(b, m);
        assert(bit_of(a, 8 * m) == bit_of(b, 8 * m));
        assert(bit_of(a, 8 * m + 1) == bit_of(b, 8 * m + 1));
        assert(bit_of(a, 8 * m + 2) == bit_of(b, 8 * m + 2));
        assert(bit_of(a, 8 * m + 3) == bit_of(b, 8 * m + 3));
        assert(bit_of(a, 8 * m + 4) == bit_of(b, 8 * m + 4));
        assert(bit_of(a, 8 * m + 5) == bit_of(b, 8 * m + 5));
        assert(bit_of(a, 8 * m + 6) == bit_of(b, 8 * m + 6));
        assert(bit_of(a, 8 * m + 7) == bit_of(b, 8 * m + 7));
    }
    assert(a =~= b);
}

pub open spec fn is_digit(c: char) -> bool {
    '0' <= c && c <= '9'
}

/// Relies on `totp_rs::TOTP::generate` with HMAC-SHA-1: the code depends on
/// the secret and on `time / step` alone, and is the HOTP value modulo
/// `10^digits`, zero-padded to `digits` decimal digits. `digits` up to 9 keeps
/// `10^digits` within `u32`, and HMAC takes keys of any length.
#[verifier::external_body]
pub(crate) fn totp_generate(secret: &Vec<u8>, digits: usize, step: u64, time: u64) -> (r: String)
    requires
        1 <= digits <= 9,
        step > 0,
    ensures
        r@ == totp_code(secret@, digits, time / step),
        r@.len() == digits,
        forall|i: int| 0 <= i < r@.len() ==> is_digit(#[trigger] r@[i]),
{
    totp_rs::TOTP::new_unchecked(totp_rs::Algorithm::SHA1, digits, 0, step, secret.clone())
        .generate(time)
}

/// Relies on `totp_rs::Secret::to_encoded`, which turns raw secret bytes into
/// their unpadded RFC 4648 base32 text (`base32::encode`): five-byte chunks
/// give eight characters of five bits each, most significant first, and a
/// short last chunk keeps `(8 * len + 4) / 5` characters in all.
#[verifier::external_body]
pub(crate) fn base32_encode(bytes: &Vec<u8>) -> (r: String)
    ensures
        r@ == base32_text(bytes@),
{
    totp_rs::Secret::Raw(bytes.clone()).to_encoded().to_string()
}

/// A TOTP device; it is pending until `enabled`.
#[derive(Clone, Copy, Debug, PartialEq, Eq, Structural)]
pub struct TotpDevice {
    pub id: TotpDeviceId,
    pub user_id: UserId,
    pub enabled: bool,
    pub created_at: u64,
}

/// The secret a TOTP device shares with the authenticator, at least
/// `TOTP_SECRET_MIN_LEN` bytes.
#[derive(Debug)]
pub struct TotpSecret(Vec<u8>);

impl View for TotpSecret {
    type V = Seq<u8>;

    closed spec fn view(&self) -> Seq<u8> {
        self.0@
    }
}

impl TotpSecret {
    pub fn try_new(bytes: Vec<u8>) -> (r: Option<TotpSecret>)
        ensures
            r is Some <==> bytes@.len() >= TOTP_SECRET_MIN_LEN,
            r matches Some(s) ==> s@ == bytes@,
    {
        if bytes.len() >= TOTP_SECRET_MIN_LEN {
            Some(TotpSecret(bytes))
        } else {
            None
        }
    }

    pub fn into_inner(self) -> (r: Vec<u8>)
        ensures
            r@ == self@,
    {
        self.0
    }
}

/// How many bytes a new TOTP secret has: at least `TOTP_SECRET_MIN_LEN`.
#[derive(Clone, Copy, Debug, PartialEq, Eq)]
pub struct TotpSecretLength(usize);

impl View for TotpSecretLength {
    type V = usize;

    closed spec fn view(&self) -> usize {
        self.0
    }
}

impl TotpSecretLength {
    pub fn try_new(len: usize) -> (r: Option<TotpSecretLength>)
        ensures
            r is Some <==> len >= TOTP_SECRET_MIN_LEN,
            r matches Some(l) ==> l@ == len,
    {
        if len >= TOTP_SECRET_MIN_LEN {
            Some(TotpSecretLength(len))
        } else {
            None
        }
    }

    #[verifier::type_invariant]
    spec fn at_least_min(&self) -> bool {
        self.0 >= TOTP_SECRET_MIN_LEN
    }

    pub fn get(&self) -> (r: usize)
        ensures
            r == self@,
            r >= TOTP_SECRET_MIN_LEN,
    {
        proof {
            use_type_invariant(self);
        }
        self.0
    }
}

} // verus!

verus! {

/// Six ASCII digits.
pub open spec fn is_totp_code(s: Seq<char>) -> bool {
    s.len() == TOTP_DIGITS && forall|i: int| 0 <= i < s.len() ==> is_digit(#[trigger] s[i])
}

/// A code read off an authenticator: `TOTP_DIGITS` decimal digits.
#[derive(Debug)]
pub struct TotpCode(String);

impl View for TotpCode {
    type V = Seq<char>;

    closed spec fn view(&self) -> Seq<char> {
        self.0@
    }
}

impl TotpCode {
    pub fn try_new(s: String) -> (r: Option<TotpCode>)
        ensures
            r is Some <==> is_totp_code(s@),
            r matches Some(c) ==> c@ == s@,
    {
        let n = s.unicode_len();
        if n != TOTP_DIGITS {
            return None;
        }
        let mut i: usize = 0;
        while i < n
            invariant
                n == s@.len(),
                i <= n,
                forall|j: int| 0 <= j < i ==> is_digit(#[trigger] s@[j]),
            decreases n - i,
        {
            let c = s.as_str().get_char(i);
            if !('0' <= c && c <= '9') {
                return None;
            }
            i = i + 1;
        }
        Some(TotpCode(s))
    }

    pub fn as_str(&self) -> (r: &str)
        ensures
            r@ == self@,
    {
        self.0.as_str()
    }

    /// Whether the code reads `s`.
    pub fn reads(&self, s: &String) -> (r: bool)
        ensures
            r == (self@ == s@),
    {
        self.0 == *s
    }
}

pub open spec fn is_code_char(c: char) -> bool {
    ('A' <= c && c <= 'Z') || ('0' <= c && c <= '9')
}

/// A lower-case ASCII letter in upper case; any other character as it is.
pub open spec fn ascii_upper(c: char) -> char {
    if 'a' <= c && c <= 'z' {
        ((c as u32) - 32) as char
    } else {
        c
    }
}

/// Four groups of six upper-case letters or digits, joined by hyphens.
pub open spec fn is_recovery_code(s: Seq<char>) -> bool {
    &&& s.len() == 27
    &&& forall|i: int|
        0 <= i < s.len() ==> if i % 7 == 6 {
            #[trigger] s[i] == '-'
        } else {
            is_code_char(s[i])
        }
}

/// The characters recovery codes are drawn from.
pub open spec fn code_alphabet() -> Seq<char> {
    seq![
        'A', 'B', 'C', 'D', 'E', 'F', 'G', 'H', 'I', 'J', 'K', 'L', 'M', 'N', 'O', 'P', 'Q', 'R',
        'S', 'T', 'U', 'V', 'W', 'X', 'Y', 'Z', '0', '1', '2', '3', '4', '5', '6', '7', '8', '9',
    ]
}

fn code_alphabet_chars() -> (r: Vec<char>)
    ensures
        r@ == code_alphabet(),
        forall|i: int| 0 <= i < r@.len() ==> is_code_char(#[trigger] r@[i]),
{
    let r = vec![
        'A', 'B', 'C', 'D', 'E', 'F', 'G', 'H', 'I', 'J', 'K', 'L', 'M', 'N', 'O', 'P', 'Q', 'R',
        'S', 'T', 'U', 'V', 'W', 'X', 'Y', 'Z', '0', '1', '2', '3', '4', '5', '6', '7', '8', '9',
    ];
    assert(r@ =~= code_alphabet());
    r
}

/// A one-shot recovery code, held in upper case.
#[derive(Debug)]
pub struct MfaRecoveryCode(String);

impl View for MfaRecoveryCode {
    type V = Seq<char>;

    closed spec fn view(&self) -> Seq<char> {
        self.0@
    }
}

impl MfaRecoveryCode {
    /// Upper-cases the ASCII letters of `s` and accepts the result where it has
    /// the shape of a recovery code.
    pub fn try_new(s: &str) -> (r: Option<MfaRecoveryCode>)
        ensures
            r is Some <==> is_recovery_code(s@.map_values(|c: char| ascii_upper(c))),
            r matches Some(c) ==> c@ == s@.map_values(|c: char| ascii_upper(c)),
    {
        let ghost up = s@.map_values(|c: char| ascii_upper(c));
        let n = s.unicode_len();
        if n != 27 {
            return None;
        }
        let mut out = String::new();
        let mut i: usize = 0;
        while i < n
            invariant
                n == s@.len(),
                up == s@.map_values(|c: char| ascii_upper(c)),
                i <= n,
                out@ == up.subrange(0, i as int),
                forall|j: int|
                    0 <= j < i ==> if j % 7 == 6 {
                        #[trigger] up[j] == '-'
                    } else {
                        is_code_char(up[j])
                    },
            decreases n - i,
        {
            let c = s.get_char(i);
            let u = if 'a' <= c && c <= 'z' {
                ((c as u32 - 32) as u8) as char
            } else {
                c
            };
            assert(u == up[i as int]);
            if i % 7 == 6 {
                if u != '-' {
                    return None;
                }
            } else if !(('A' <= u && u <= 'Z') || ('0' <= u && u <= '9')) {
                return None;
            }
            push_char(&mut out, u);
            assert(out@ =~= up.subrange(0, i + 1));
            i = i + 1;
        }
        assert(up.subrange(0, n as int) =~= up);
        Some(MfaRecoveryCode(out))
    }

    /// A fresh random recovery code.
    pub fn generate() -> (r: MfaRecoveryCode)
        ensures
            is_recovery_code(r@),
    {
        let alphabet = code_alphabet_chars();
        let mut out = String::new();
        let mut i: usize = 0;
        while i < 27
            invariant
                i <= 27,
                out@.len() == i,
                alphabet@ == code_alphabet(),
                forall|k: int| 0 <= k < alphabet@.len() ==> is_code_char(#[trigger] alphabet@[k]),
                forall|j: int|
                    0 <= j < i ==> if j % 7 == 6 {
                        #[trigger] out@[j] == '-'
                    } else {
                        is_code_char(out@[j])
                    },
            decreases 27 - i,
        {
            let c = if i % 7 == 6 {
                '-'
            } else {
                let k = random_below(alphabet.len() as u64) as usize;
                alphabet[k]
            };
            push_char(&mut out, c);
            i = i + 1;
        }
        MfaRecoveryCode(out)
    }

    pub fn as_str(&self) -> (r: &str)
        ensures
            r@ == self@,
    {
        self.0.as_str()
    }
}

/// What a user shows to set up an authenticator: the secret in base32, given
/// out once.
#[derive(Debug)]
pub struct TotpSetup {
    pub secret: String,
}

/// The second factor offered at login: a TOTP code, a recovery code, or neither.
#[derive(Debug)]
pub struct MfaAuthentication {
    pub totp_code: Option<TotpCode>,
    pub recovery_code: Option<MfaRecoveryCode>,
}

} // verus!

verus! {

/// A stored TOTP device with its secret.
pub type DeviceEntry = (TotpDevice, Seq<u8>);

/// A user's stored recovery-code hash.
pub type RecoveryEntry = (UserId, Seq<u8>);

/// The mathematical content of an [`MfaStore`].
pub struct MfaView {
    pub devices: Seq<DeviceEntry>,
    pub recovery: Seq<RecoveryEntry>,
}

/// At most one device per user.
pub open spec fn one_device_per_user(v: Seq<DeviceEntry>) -> bool {
    forall|i: int, j: int|
        0 <= i < v.len() && 0 <= j < v.len() && i != j ==> (#[trigger] v[i]).0.user_id != (
        #[trigger] v[j]).0.user_id
}

/// At most one recovery code per user.
pub open spec fn one_code_per_user(v: Seq<RecoveryEntry>) -> bool {
    forall|i: int, j: int|
        0 <= i < v.len() && 0 <= j < v.len() && i != j ==> (#[trigger] v[i]).0 != (
        #[trigger] v[j]).0
}

pub open spec fn has_device(v: Seq<DeviceEntry>, u: UserId) -> bool {
    exists|i: int| 0 <= i < v.len() && (#[trigger] v[i]).0.user_id == u
}

pub open spec fn device_position(v: Seq<DeviceEntry>, u: UserId) -> int {
    choose|i: int| 0 <= i < v.len() && (#[trigger] v[i]).0.user_id == u
}

/// The device of user `u` with its secret, if any.
pub open spec fn device_of(v: Seq<DeviceEntry>, u: UserId) -> Option<DeviceEntry> {
    if has_device(v, u) {
        Some(v[device_position(v, u)])
    } else {
        None
    }
}

pub open spec fn has_code(v: Seq<RecoveryEntry>, u: UserId) -> bool {
    exists|i: int| 0 <= i < v.len() && (#[trigger] v[i]).0 == u
}

pub open spec fn code_position(v: Seq<RecoveryEntry>, u: UserId) -> int {
    choose|i: int| 0 <= i < v.len() && (#[trigger] v[i]).0 == u
}

/// The hash of user `u`'s recovery code, if one is set.
pub open spec fn recovery_hash_of(v: Seq<RecoveryEntry>, u: UserId) -> Option<Seq<u8>> {
    if has_code(v, u) {
        Some(v[code_position(v, u)].1)
    } else {
        None
    }
}

/// The devices after user `u` was given `secret`: their pending device keeps
/// its id and takes the new secret, or a new pending device is added.
pub open spec fn with_pending_secret(
    v: Seq<DeviceEntry>,
    u: UserId,
    secret: Seq<u8>,
    id: TotpDeviceId,
    now: u64,
) -> Seq<DeviceEntry> {
    if has_device(v, u) {
        v.update(device_position(v, u), (v[device_position(v, u)].0, secret))
    } else {
        v.push((TotpDevice { id, user_id: u, enabled: false, created_at: now }, secret))
    }
}

/// The devices after user `u`'s device was enabled.
pub open spec fn with_enabled(v: Seq<DeviceEntry>, u: UserId) -> Seq<DeviceEntry> {
    let p = device_position(v, u);
    v.update(p, (TotpDevice { enabled: true, ..v[p].0 }, v[p].1))
}

/// The devices without user `u`'s.
pub open spec fn without_device(v: Seq<DeviceEntry>, u: UserId) -> Seq<DeviceEntry> {
    if has_device(v, u) {
        v.remove(device_position(v, u))
    } else {
        v
    }
}

/// The recovery codes after user `u`'s was set to hash `h`.
pub open spec fn with_code(v: Seq<RecoveryEntry>, u: UserId, h: Seq<u8>) -> Seq<RecoveryEntry> {
    if has_code(v, u) {
        v.update(code_position(v, u), (u, h))
    } else {
        v.push((u, h))
    }
}

/// The recovery codes without user `u`'s.
pub open spec fn without_code(v: Seq<RecoveryEntry>, u: UserId) -> Seq<RecoveryEntry> {
    if has_code(v, u) {
        v.remove(code_position(v, u))
    } else {
        v
    }
}

struct DeviceRecord {
    device: TotpDevice,
    secret: Vec<u8>,
}

struct RecoveryRecord {
    user_id: UserId,
    hash: Vec<u8>,
}

/// TOTP devices and recovery-code hashes of every user.
pub struct MfaStore {
    devices: Vec<DeviceRecord>,
    recovery: Vec<RecoveryRecord>,
}

impl View for MfaStore {
    type V = MfaView;

    closed spec fn view(&self) -> MfaView {
        MfaView {
            devices: self.devices@.map_values(|r: DeviceRecord| (r.device, r.secret@)),
            recovery: self.recovery@.map_values(|r: RecoveryRecord| (r.user_id, r.hash@)),
        }
    }
}

impl MfaStore {
    /// At most one device, and at most one recovery code, per user.
    pub open spec fn wf(&self) -> bool {
        one_device_per_user(self@.devices) && one_code_per_user(self@.recovery)
    }

    pub fn new() -> (r: MfaStore)
        ensures
            r@.devices == Seq::<DeviceEntry>::empty(),
            r@.recovery == Seq::<RecoveryEntry>::empty(),
            r.wf(),
    {
        let r = MfaStore { devices: Vec::new(), recovery: Vec::new() };
        assert(r@.devices =~= Seq::<DeviceEntry>::empty());
        assert(r@.recovery =~= Seq::<RecoveryEntry>::empty());
        r
    }

    fn find_device(&self, u: UserId) -> (r: Option<usize>)
        requires
            self.wf(),
        ensures
            match r {
                Some(i) => i < self@.devices.len() && device_position(self@.devices, u) == i
                    && self@.devices[i as int].0.user_id == u,
                None => !has_device(self@.devices, u),
            },
    {
        let mut i: usize = 0;
        while i < self.devices.len()
            invariant
                self.wf(),
                i <= self.devices@.len(),
                self@.devices.len() == self.devices@.len(),
                forall|j: int| 0 <= j < i ==> (#[trigger] self@.devices[j]).0.user_id != u,
            decreases self.devices@.len() - i,
        {
            assert(self@.devices[i as int].0 == self.devices@[i as int].device);
            if self.devices[i].device.user_id == u {
                proof {
                    let k = device_position(self@.devices, u);
                    if k != i as int {
                        assert(self@.devices[k].0.user_id != self@.devices[i as int].0.user_id);
                    }
                }
                return Some(i);
            }
            i = i + 1;
        }
        None
    }

    fn find_code(&self, u: UserId) -> (r: Option<usize>)
        requires
            self.wf(),
        ensures
            match r {
                Some(i) => i < self@.recovery.len() && code_position(self@.recovery, u) == i
                    && self@.recovery[i as int].0 == u,
                None => !has_code(self@.recovery, u),
            },
    {
        let mut i: usize = 0;
        while i < self.recovery.len()
            invariant
                self.wf(),
                i <= self.recovery@.len(),
                self@.recovery.len() == self.recovery@.len(),
                forall|j: int| 0 <= j < i ==> (#[trigger] self@.recovery[j]).0 != u,
            decreases self.recovery@.len() - i,
        {
            assert(self@.recovery[i as int].0 == self.recovery@[i as int].user_id);
            if self.recovery[i].user_id == u {
                proof {
                    let k = code_position(self@.recovery, u);
                    if k != i as int {
                        assert(self@.recovery[k].0 != self@.recovery[i as int].0);
                    }
                }
                return Some(i);
            }
            i = i + 1;
        }
        None
    }

    /// The device of user `u`.
    pub fn device(&self, u: UserId) -> (r: Option<TotpDevice>)
        requires
            self.wf(),
        ensures
            match r {
                Some(d) => device_of(self@.devices, u) matches Some(e) && e.0 == d,
                None => device_of(self@.devices, u) is None,
            },
    {
        match self.find_device(u) {
            Some(i) => {
                assert(self@.devices[i as int].0 == self.devices@[i as int].device);
                Some(self.devices[i].device)
            },
            None => None,
        }
    }

    /// The secret of user `u`'s device.
    pub fn device_secret(&self, u: UserId) -> (r: Option<&Vec<u8>>)
        requires
            self.wf(),
        ensures
            match r {
                Some(s) => device_of(self@.devices, u) matches Some(e) && e.1 == s@,
                None => device_of(self@.devices, u) is None,
            },
    {
        match self.find_device(u) {
            Some(i) => {
                assert(self@.devices[i as int].1 == self.devices@[i as int].secret@);
                Some(&self.devices[i].secret)
            },
            None => None,
        }
    }

    /// The stored hash of user `u`'s recovery code.
    pub fn recovery_hash(&self, u: UserId) -> (r: Option<&Vec<u8>>)
        requires
            self.wf(),
        ensures
            match r {
                Some(h) => recovery_hash_of(self@.recovery, u) == Some(h@),
                None => recovery_hash_of(self@.recovery, u) is None,
            },
    {
        match self.find_code(u) {
            Some(i) => {
                assert(self@.recovery[i as int].1 == self.recovery@[i as int].hash@);
                Some(&self.recovery[i].hash)
            },
            None => None,
        }
    }

    /// Marks user `u`'s device enabled.
    pub fn enable_device_of(&mut self, u: UserId)
        requires
            old(self).wf(),
            has_device(old(self)@.devices, u),
        ensures
            final(self).wf(),
            final(self)@.devices == with_enabled(old(self)@.devices, u),
            final(self)@.recovery == old(self)@.recovery,
    {
        match self.find_device(u) {
            Some(i) => self.enable_device(i),
            None => {},
        }
    }

    /// Gives user `u` a pending device with `secret`: their existing device
    /// takes the secret and keeps its id, or a device `id` is added.
    pub fn set_pending_secret(&mut self, u: UserId, secret: Vec<u8>, id: TotpDeviceId, now: u64)
        requires
            old(self).wf(),
        ensures
            final(self).wf(),
            final(self)@.devices == with_pending_secret(old(self)@.devices, u, secret@, id, now),
            final(self)@.recovery == old(self)@.recovery,
    {
        let ghost before = self@.devices;
        let ghost s = secret@;
        match self.find_device(u) {
            Some(i) => {
                let rec = self.devices.remove(i);
                self.devices.insert(i, DeviceRecord { device: rec.device, secret });
                assert(self@.devices =~= before.update(i as int, (before[i as int].0, s)));
                assert forall|a: int, b: int|
                    0 <= a < self@.devices.len() && 0 <= b < self@.devices.len() && a != b implies (
                    #[trigger] self@.devices[a]).0.user_id != (
                    #[trigger] self@.devices[b]).0.user_id by {
                    assert(self@.devices[a].0 == before[a].0 && self@.devices[b].0 == before[b].0);
                }
            },
            None => {
                let device = TotpDevice { id, user_id: u, enabled: false, created_at: now };
                self.devices.push(DeviceRecord { device, secret });
                assert(self@.devices =~= before.push((device, s)));
                assert forall|a: int, b: int|
                    0 <= a < self@.devices.len() && 0 <= b < self@.devices.len() && a != b implies (
                    #[trigger] self@.devices[a]).0.user_id != (
                    #[trigger] self@.devices[b]).0.user_id by {
                    if a == before.len() as int {
                        assert(self@.devices[b] == before[b]);
                    } else if b == before.len() as int {
                        assert(self@.devices[a] == before[a]);
                    }
                }
            },
        }
    }

    /// Marks the device at `i` enabled.
    fn enable_device(&mut self, i: usize)
        requires
            old(self).wf(),
            i < old(self)@.devices.len(),
        ensures
            final(self).wf(),
            final(self)@.devices == old(self)@.devices.update(
                i as int,
                (TotpDevice { enabled: true, ..old(self)@.devices[i as int].0 }, old(self)@.devices[i as int].1),
            ),
            final(self)@.recovery == old(self)@.recovery,
    {
        let ghost before = self@.devices;
        let rec = self.devices.remove(i);
        let device = TotpDevice {
            id: rec.device.id,
            user_id: rec.device.user_id,
            enabled: true,
            created_at: rec.device.created_at,
        };
        self.devices.insert(i, DeviceRecord { device, secret: rec.secret });
        assert(self@.devices =~= before.update(
            i as int,
            (TotpDevice { enabled: true, ..before[i as int].0 }, before[i as int].1),
        ));
        assert forall|a: int, b: int|
            0 <= a < self@.devices.len() && 0 <= b < self@.devices.len() && a != b implies (
            #[trigger] self@.devices[a]).0.user_id != (#[trigger] self@.devices[b]).0.user_id by {
            assert(self@.devices[a].0.user_id == before[a].0.user_id);
            assert(self@.devices[b].0.user_id == before[b].0.user_id);
        }
    }

    /// Removes the device of user `u`.
    pub fn remove_device(&mut self, u: UserId)
        requires
            old(self).wf(),
        ensures
            final(self).wf(),
            final(self)@.devices == without_device(old(self)@.devices, u),
            final(self)@.recovery == old(self)@.recovery,
    {
        let ghost before = self@.devices;
        match self.find_device(u) {
            Some(i) => {
                self.devices.remove(i);
                assert(self@.devices =~= before.remove(i as int));
                assert forall|a: int, b: int|
                    0 <= a < self@.devices.len() && 0 <= b < self@.devices.len() && a != b implies (
                    #[trigger] self@.devices[a]).0.user_id != (
                    #[trigger] self@.devices[b]).0.user_id by {
                    let a2 = if a < i { a } else { a + 1 };
                    let b2 = if b < i { b } else { b + 1 };
                    assert(self@.devices[a] == before[a2] && self@.devices[b] == before[b2]);
                }
            },
            None => {},
        }
    }

    /// Sets the recovery-code hash of user `u`, replacing any earlier one.
    pub fn set_recovery_hash(&mut self, u: UserId, hash: Vec<u8>)
        requires
            old(self).wf(),
        ensures
            final(self).wf(),
            final(self)@.recovery == with_code(old(self)@.recovery, u, hash@),
            final(self)@.devices == old(self)@.devices,
    {
        let ghost before = self@.recovery;
        let ghost h = hash@;
        match self.find_code(u) {
            Some(i) => {
                self.recovery.remove(i);
                self.recovery.insert(i, RecoveryRecord { user_id: u, hash });
                assert(self@.recovery =~= before.update(i as int, (u, h)));
                assert forall|a: int, b: int|
                    0 <= a < self@.recovery.len() && 0 <= b < self@.recovery.len() && a != b implies (
                    #[trigger] self@.recovery[a]).0 != (#[trigger] self@.recovery[b]).0 by {
                    assert(self@.recovery[a].0 == before[a].0 && self@.recovery[b].0 == before[b].0);
                }
            },
            None => {
                self.recovery.push(RecoveryRecord { user_id: u, hash });
                assert(self@.recovery =~= before.push((u, h)));
                assert forall|a: int, b: int|
                    0 <= a < self@.recovery.len() && 0 <= b < self@.recovery.len() && a != b implies (
                    #[trigger] self@.recovery[a]).0 != (#[trigger] self@.recovery[b]).0 by {
                    if a == before.len() as int {
                        assert(self@.recovery[b] == before[b]);
                    } else if b == before.len() as int {
                        assert(self@.recovery[a] == before[a]);
                    }
                }
            },
        }
    }

    /// Removes the recovery code of user `u`.
    pub fn remove_recovery_hash(&mut self, u: UserId)
        requires
            old(self).wf(),
        ensures
            final(self).wf(),
            final(self)@.recovery == without_code(old(self)@.recovery, u),
            final(self)@.devices == old(self)@.devices,
    {
        let ghost before = self@.recovery;
        match self.find_code(u) {
            Some(i) => {
                self.recovery.remove(i);
                assert(self@.recovery =~= before.remove(i as int));
                assert forall|a: int, b: int|
                    0 <= a < self@.recovery.len() && 0 <= b < self@.recovery.len() && a != b implies (
                    #[trigger] self@.recovery[a]).0 != (#[trigger] self@.recovery[b]).0 by {
                    let a2 = if a < i { a } else { a + 1 };
                    let b2 = if b < i { b } else { b + 1 };
                    assert(self@.recovery[a] == before[a2] && self@.recovery[b] == before[b2]);
                }
            },
            None => {},
        }
    }
}

} // verus!

verus! {

/// After a user is given a secret, they have a pending device holding it.
pub proof fn lemma_pending_after_secret(
    v: Seq<DeviceEntry>,
    u: UserId,
    secret: Seq<u8>,
    id: TotpDeviceId,
    now: u64,
)
    requires
        one_device_per_user(v),
        !(device_of(v, u) matches Some(d) && d.0.enabled),
    ensures
        device_of(with_pending_secret(v, u, secret, id, now), u) matches Some(d) && !d.0.enabled
            && d.1 == secret,
{
    let w = with_pending_secret(v, u, secret, id, now);
    if has_device(v, u) {
        let p = device_position(v, u);
        assert(w[p].0.user_id == u);
        let q = device_position(w, u);
        if q != p {
            assert(w[q] == v[q]);
            assert(v[q].0.user_id != v[p].0.user_id);
        }
    } else {
        let p = v.len() as int;
        assert(w[p].0.user_id == u);
        let q = device_position(w, u);
        if q != p {
            assert(w[q] == v[q]);
        }
    }
}

} // verus!

verus! {

/// Giving a user a pending secret keeps one device per user.
pub proof fn lemma_pending_keeps_one_device(
    v: Seq<DeviceEntry>,
    u: UserId,
    secret: Seq<u8>,
    id: TotpDeviceId,
    now: u64,
)
    requires
        one_device_per_user(v),
    ensures
        one_device_per_user(with_pending_secret(v, u, secret, id, now)),
{
    let w = with_pending_secret(v, u, secret, id, now);
    if has_device(v, u) {
        assert forall|a: int, b: int|
            0 <= a < w.len() && 0 <= b < w.len() && a != b implies (#[trigger] w[a]).0.user_id != (
            #[trigger] w[b]).0.user_id by {
            assert(w[a].0 == v[a].0 && w[b].0 == v[b].0);
        }
    } else {
        assert forall|a: int, b: int|
            0 <= a < w.len() && 0 <= b < w.len() && a != b implies (#[trigger] w[a]).0.user_id != (
            #[trigger] w[b]).0.user_id by {
            if a == v.len() as int {
                assert(w[b] == v[b]);
            } else if b == v.len() as int {
                assert(w[a] == v[a]);
            }
        }
    }
}

/// Setting up TOTP twice without confirming resets the one pending device:
/// the second setup keeps the device (its id, its creation time) and takes
/// the new secret, and no device is added.
pub proof fn lemma_initialize_twice_resets(
    v: Seq<DeviceEntry>,
    u: UserId,
    first_secret: Seq<u8>,
    first_id: TotpDeviceId,
    first_time: u64,
    second_secret: Seq<u8>,
    second_id: TotpDeviceId,
    second_time: u64,
)
    requires
        one_device_per_user(v),
        !(device_of(v, u) matches Some(d) && d.0.enabled),
    ensures
        ({
            let once = with_pending_secret(v, u, first_secret, first_id, first_time);
            let twice = with_pending_secret(once, u, second_secret, second_id, second_time);
            &&& device_of(once, u) matches Some(d1) && device_of(twice, u) matches Some(d2) && d2.0
                == d1.0 && !d2.0.enabled && d2.1 == second_secret
            &&& twice.len() == once.len()
        }),
{
    let once = with_pending_secret(v, u, first_secret, first_id, first_time);
    lemma_pending_after_secret(v, u, first_secret, first_id, first_time);
    lemma_pending_keeps_one_device(v, u, first_secret, first_id, first_time);
    lemma_pending_after_secret(once, u, second_secret, second_id, second_time);
    let p = device_position(once, u);
    let twice = with_pending_secret(once, u, second_secret, second_id, second_time);
    assert(twice[p].0 == once[p].0);
    let q = device_position(twice, u);
    if q != p {
        assert(twice[q] == once[q]);
        assert(once[q].0.user_id != once[p].0.user_id);
    }
}

/// Enabling a pending device leaves it enabled, so a second confirmation is
/// refused, and leaves the user exactly one recovery code: the one issued.
pub proof fn lemma_enable_once(
    devices: Seq<DeviceEntry>,
    recovery: Seq<RecoveryEntry>,
    u: UserId,
    h: Seq<u8>,
)
    requires
        one_device_per_user(devices),
        one_code_per_user(recovery),
        has_device(devices, u),
    ensures
        device_of(with_enabled(devices, u), u) matches Some(d) && d.0.enabled,
        recovery_hash_of(with_code(recovery, u, h), u) == Some(h),
        one_code_per_user(with_code(recovery, u, h)),
{
    let p = device_position(devices, u);
    let w = with_enabled(devices, u);
    assert(w[p].0.user_id == u);
    let q = device_position(w, u);
    if q != p {
        assert(w[q] == devices[q]);
        assert(devices[q].0.user_id != devices[p].0.user_id);
    }
    let r = with_code(recovery, u, h);
    if has_code(recovery, u) {
        let c = code_position(recovery, u);
        assert forall|a: int, b: int|
            0 <= a < r.len() && 0 <= b < r.len() && a != b implies (#[trigger] r[a]).0 != (
            #[trigger] r[b]).0 by {
            assert(r[a].0 == recovery[a].0 && r[b].0 == recovery[b].0);
        }
        assert(r[c].0 == u);
        let k = code_position(r, u);
        if k != c {
            assert(r[k].0 != r[c].0);
        }
    } else {
        let c = recovery.len() as int;
        assert forall|a: int, b: int|
            0 <= a < r.len() && 0 <= b < r.len() && a != b implies (#[trigger] r[a]).0 != (
            #[trigger] r[b]).0 by {
            if a == c {
                assert(r[b] == recovery[b]);
            } else if b == c {
                assert(r[a] == recovery[a]);
            }
        }
        assert(r[c].0 == u);
        let k = code_position(r, u);
        if k != c {
            assert(r[k] == recovery[k]);
        }
    }
}

} // verus!
