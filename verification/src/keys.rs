//! Key manager: the 256-bit vault key, its derivation from a passphrase,
//! random generation, and the base64 form under which it is parked in the
//! operating system's credential store.
//!
//! The key itself lives only in process memory and in the credential store;
//! nothing here writes it anywhere else. Reading and writing the credential
//! store is the surrounding application's I/O; this module owns what the
//! stored value means: [`decode_stored_key`] says which stored secrets count
//! as a key, and [`encode_key`] produces the value that is stored.

use vstd::prelude::*;
use vstd::string::StrSliceExecFns;

use base64::Engine;

use crate::cipher::random_bytes;
use crate::errors::VaultError;
use crate::text::{is_space, lemma_encode_utf8_len, unicode_whitespace};

verus! {

/// Number of bytes in a vault key.
pub const KEY_LEN: usize = 32;

/// Largest passphrase (in characters) key derivation accepts; keeps the
/// UTF-8 form of the passphrase within the KDF's input limit.
pub const MAX_PASSPHRASE_LEN: usize = 0x3FFF_FFFF;

/// The fixed application-wide KDF salt, the bytes of `vaultcrm_db_salt`.
pub open spec fn kdf_salt() -> Seq<u8> {
    seq![
        0x76u8,
        0x61u8,
        0x75u8,
        0x6cu8,
        0x74u8,
        0x63u8,
        0x72u8,
        0x6du8,
        0x5fu8,
        0x64u8,
        0x62u8,
        0x5fu8,
        0x73u8,
        0x61u8,
        0x6cu8,
        0x74u8,
    ]
}

/// The fixed salt as a buffer.
fn kdf_salt_bytes() -> (r: Vec<u8>)
    ensures
        r@ == kdf_salt(),
{
    let mut v: Vec<u8> = Vec::new();
    v.push(0x76);
    v.push(0x61);
    v.push(0x75);
    v.push(0x6c);
    v.push(0x74);
    v.push(0x63);
    v.push(0x72);
    v.push(0x6d);
    v.push(0x5f);
    v.push(0x64);
    v.push(0x62);
    v.push(0x5f);
    v.push(0x73);
    v.push(0x61);
    v.push(0x6c);
    v.push(0x74);
    proof {
        assert(v@ =~= kdf_salt());
    }
    v
}

/// What the Argon2id key derivation (default parameters) produces for a
/// password and salt: 32 bytes, a function of the two alone.
pub uninterp spec fn kdf_of(password: Seq<u8>, salt: Seq<u8>) -> Seq<u8>;

/// What standard base64 encoding produces for a byte string.
pub uninterp spec fn b64_encode_of(bytes: Seq<u8>) -> Seq<char>;

/// What standard base64 decoding yields for a string: the bytes, or nothing
/// when the string is not valid base64.
pub uninterp spec fn b64_decode_of(text: Seq<char>) -> Option<Seq<u8>>;

/// Relies on argon2's `Argon2::default().hash_password_into`: Argon2id is a
/// function of password and salt alone, and with a salt of 8 to 2^32 - 1
/// bytes, a password of at most 2^32 - 1 bytes and a 32-byte output buffer
/// the call succeeds and fills the buffer.
#[verifier::external_body]
fn argon2_derive(password: &Vec<u8>, salt: &Vec<u8>) -> (r: Vec<u8>)
    requires
        password@.len() <= 0xFFFF_FFFF,
        8 <= salt@.len() <= 0xFFFF_FFFF,
    ensures
        r@ == kdf_of(password@, salt@),
        r@.len() == KEY_LEN,
{
    let mut out = [0u8; 32];
    argon2::Argon2::default()
        .hash_password_into(password.as_slice(), salt.as_slice(), &mut out)
        .unwrap();
    out.to_vec()
}

/// Relies on base64's `STANDARD` engine `encode`: the encoding is a
/// function of the bytes alone, and decoding it yields the bytes back.
#[verifier::external_body]
fn b64_encode(bytes: &Vec<u8>) -> (r: String)
    requires
        bytes@.len() <= 0xFFFF_FFFF,
    ensures
        r@ == b64_encode_of(bytes@),
        b64_decode_of(r@) == Some(bytes@),
{
    base64::engine::general_purpose::STANDARD.encode(bytes.as_slice())
}

/// Relies on base64's `STANDARD` engine `decode`: decoding is a function of
/// the text alone; it yields bytes exactly when the text is valid base64.
#[verifier::external_body]
fn b64_decode(text: &str) -> (r: Option<Vec<u8>>)
    ensures
        match r {
            Some(v) => b64_decode_of(text@) == Some(v@),
            None => b64_decode_of(text@) is None,
        },
{
    base64::engine::general_purpose::STANDARD.decode(text.as_bytes()).ok()
}

/// A 256-bit vault key. Created once per vault and replaced only by an
/// explicit re-setup or migration.
#[derive(Debug)]
pub struct VaultKey {
    bytes: Vec<u8>,
}

impl View for VaultKey {
    type V = Seq<u8>;

    closed spec fn view(&self) -> Seq<u8> {
        self.bytes@
    }
}

impl VaultKey {
    /// A key is well formed when it is exactly 32 bytes.
    pub open spec fn wf(&self) -> bool {
        self@.len() == KEY_LEN
    }

    /// Wraps raw bytes as a key; accepts exactly 32 bytes.
    pub fn from_bytes(bytes: Vec<u8>) -> (r: Option<VaultKey>)
        ensures
            match r {
                Some(k) => bytes@.len() == KEY_LEN && k@ == bytes@ && k.wf(),
                None => bytes@.len() != KEY_LEN,
            },
    {
        if bytes.len() == KEY_LEN {
            Some(VaultKey { bytes })
        } else {
            None
        }
    }

    /// Read access to the raw key bytes, for the cipher and for encoding.
    pub fn as_bytes(&self) -> (r: &Vec<u8>)
        ensures
            r@ == self@,
    {
        &self.bytes
    }

    /// A fresh, cryptographically random 256-bit key.
    pub fn generate_random_key() -> (r: VaultKey)
        ensures
            r.wf(),
    {
        VaultKey { bytes: random_bytes(KEY_LEN) }
    }
}

/// The passphrase is empty or whitespace-only (whitespace as
/// `char::is_whitespace` has it).
pub open spec fn is_blank(pass: Seq<char>) -> bool {
    forall|i: int| 0 <= i < pass.len() ==> unicode_whitespace(#[trigger] pass[i])
}

/// Executable form of [`is_blank`].
pub fn is_blank_str(s: &str) -> (r: bool)
    ensures
        r == is_blank(s@),
{
    let n = s.unicode_len();
    let mut i: usize = 0;
    while i < n
        invariant
            i <= n == s@.len(),
            forall|k: int| 0 <= k < i ==> unicode_whitespace(#[trigger] s@[k]),
        decreases n - i,
    {
        if !is_space(s.get_char(i)) {
            return false;
        }
        i = i + 1;
    }
    true
}

/// The key a passphrase derives to, under the fixed application salt.
pub open spec fn derived_key(pass: Seq<char>) -> Seq<u8> {
    kdf_of(vstd::utf8::encode_utf8(pass), kdf_salt())
}

/// Derives the vault key from a passphrase with the memory-hard KDF over
/// the fixed application salt.
///
/// Deterministic: the result is a function of the passphrase alone, so
/// repeated calls agree. Fails exactly when the passphrase is empty or
/// whitespace-only.
pub fn derive_from_passphrase(pass: &str) -> (r: Result<VaultKey, VaultError>)
    requires
        pass@.len() <= MAX_PASSPHRASE_LEN,
    ensures
        match r {
            Ok(k) => !is_blank(pass@) && k.wf() && k@ == derived_key(pass@),
            Err(e) => e == VaultError::EmptyPassphrase && is_blank(pass@),
        },
{
    if is_blank_str(pass) {
        return Err(VaultError::EmptyPassphrase);
    }
    let bytes = pass.as_bytes_vec();
    proof {
        lemma_encode_utf8_len(pass@);
    }
    let salt = kdf_salt_bytes();
    let out = argon2_derive(&bytes, &salt);
    Ok(VaultKey { bytes: out })
}

/// Two keys derived from the same passphrase are the same key: derivation
/// is deterministic across calls, machines and sessions.
pub proof fn lemma_derive_deterministic(pass: Seq<char>, k1: Seq<u8>, k2: Seq<u8>)
    ensures
        (k1 == derived_key(pass) && k2 == derived_key(pass)) ==> k1 == k2,
{
}

/// What a stored credential-store secret decodes to: 32 key bytes, or
/// nothing when the secret is absent, not base64, or of the wrong length.
pub open spec fn stored_key_spec(secret: Option<Seq<char>>) -> Option<Seq<u8>> {
    match secret {
        None => None,
        Some(s) => match b64_decode_of(s) {
            None => None,
            Some(b) => if b.len() == KEY_LEN {
                Some(b)
            } else {
                None
            },
        },
    }
}

/// The view of an optional secret string.
pub open spec fn secret_view(secret: Option<String>) -> Option<Seq<char>> {
    match secret {
        None => None,
        Some(s) => Some(s@),
    }
}

/// Decodes the credential-store secret into a vault key.
///
/// Defensive, as the startup path demands: an absent secret, one that is
/// not base64, or one that does not decode to exactly 32 bytes are all
/// treated as "no key", never as a crash.
pub fn decode_stored_key(secret: &Option<String>) -> (r: Option<VaultKey>)
    ensures
        match r {
            Some(k) => stored_key_spec(secret_view(*secret)) == Some(k@) && k.wf(),
            None => stored_key_spec(secret_view(*secret)) is None,
        },
{
    match secret {
        None => None,
        Some(s) => match b64_decode(s.as_str()) {
            None => None,
            Some(v) => VaultKey::from_bytes(v),
        },
    }
}

/// Encodes a key for the credential store: the base64 value that, decoded
/// again by [`decode_stored_key`], yields exactly this key.
pub fn encode_key(key: &VaultKey) -> (r: String)
    requires
        key.wf(),
    ensures
        r@ == b64_encode_of(key@),
        stored_key_spec(Some(r@)) == Some(key@),
{
    b64_encode(key.as_bytes())
}

/// The key a setup action settles on, given an optional passphrase:
/// derived when one is given, random otherwise.
pub fn obtain_key(passphrase: Option<&str>) -> (r: Result<VaultKey, VaultError>)
    requires
        passphrase matches Some(p) ==> p@.len() <= MAX_PASSPHRASE_LEN,
    ensures
        match r {
            Ok(k) => k.wf() && (passphrase matches Some(p) ==> !is_blank(p@) && k@ == derived_key(
                p@,
            )),
            Err(e) => e == VaultError::EmptyPassphrase && (passphrase matches Some(p) && is_blank(
                p@,
            )),
        },
{
    match passphrase {
        Some(p) => derive_from_passphrase(p),
        None => Ok(VaultKey::generate_random_key()),
    }
}

} // verus!
