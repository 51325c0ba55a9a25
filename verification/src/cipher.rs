//! Authenticated encryption of byte buffers, and the artifact wire format.
//!
//! An encrypted artifact is `nonce (12 bytes) || ciphertext || tag (16 bytes)`.
//! The nonce is drawn fresh from the operating system's entropy source for
//! every encryption, so the same plaintext never deliberately produces the
//! same artifact twice. Decryption either authenticates the whole artifact or
//! rejects it in full with one generic [`VaultError::DecryptionFailed`].

use vstd::prelude::*;

use aes_gcm::aead::Aead;
use aes_gcm::KeyInit;

use crate::errors::VaultError;

verus! {

/// Number of nonce bytes at the front of an artifact.
pub const NONCE_LEN: usize = 12;

/// Number of authentication-tag bytes at the back of an artifact.
pub const TAG_LEN: usize = 16;

/// Largest plaintext the cipher accepts (the AEAD's own plaintext limit).
pub const MAX_PLAINTEXT_LEN: u64 = 0x10_0000_0000;

/// What AES-256-GCM sealing produces for a key, nonce and plaintext:
/// the ciphertext with the authentication tag appended.
pub uninterp spec fn gcm_seal(key: Seq<u8>, nonce: Seq<u8>, plaintext: Seq<u8>) -> Seq<u8>;

/// What AES-256-GCM opening yields for a key, nonce and sealed bytes:
/// the plaintext when the tag authenticates, and nothing otherwise.
pub uninterp spec fn gcm_open(key: Seq<u8>, nonce: Seq<u8>, sealed: Seq<u8>) -> Option<Seq<u8>>;

/// Relies on aes_gcm's `Aes256Gcm` with `aead::Aead::encrypt`: sealing is a
/// function of key, nonce and plaintext alone; the result is the ciphertext
/// (same length as the plaintext) with a 16-byte tag appended; and opening
/// the result under the same key and nonce gives the plaintext back. With a
/// plaintext within the crate's `P_MAX` limit the call cannot fail.
#[verifier::external_body]
fn aead_seal(key: &Vec<u8>, nonce: &Vec<u8>, plaintext: &Vec<u8>) -> (r: Vec<u8>)
    requires
        key@.len() == 32,
        nonce@.len() == NONCE_LEN,
        plaintext@.len() <= MAX_PLAINTEXT_LEN,
    ensures
        r@ == gcm_seal(key@, nonce@, plaintext@),
        r@.len() == plaintext@.len() + TAG_LEN,
        gcm_open(key@, nonce@, r@) == Some(plaintext@),
{
    let cipher = aes_gcm::Aes256Gcm::new(aes_gcm::Key::<aes_gcm::Aes256Gcm>::from_slice(
        key.as_slice(),
    ));
    let nonce = aes_gcm::Nonce::<aes_gcm::aead::consts::U12>::from_slice(nonce.as_slice());
    cipher.encrypt(nonce, plaintext.as_slice()).unwrap()
}

/// Relies on aes_gcm's `Aes256Gcm` with `aead::Aead::decrypt`: opening is a
/// function of key, nonce and sealed bytes alone; it yields the plaintext
/// when the authentication tag verifies and one generic error otherwise.
#[verifier::external_body]
fn aead_open(key: &Vec<u8>, nonce: &Vec<u8>, sealed: &Vec<u8>) -> (r: Option<Vec<u8>>)
    requires
        key@.len() == 32,
        nonce@.len() == NONCE_LEN,
    ensures
        match r {
            Some(p) => gcm_open(key@, nonce@, sealed@) == Some(p@),
            None => gcm_open(key@, nonce@, sealed@) is None,
        },
{
    let cipher = aes_gcm::Aes256Gcm::new(aes_gcm::Key::<aes_gcm::Aes256Gcm>::from_slice(
        key.as_slice(),
    ));
    let nonce = aes_gcm::Nonce::<aes_gcm::aead::consts::U12>::from_slice(nonce.as_slice());
    cipher.decrypt(nonce, sealed.as_slice()).ok()
}

/// Relies on rand's `OsRng` through `RngCore::fill_bytes`: fills the buffer
/// from the operating system's entropy source. Nothing is assumed about the
/// values; the call panics only if the operating system cannot supply
/// entropy at all.
#[verifier::external_body]
pub(crate) fn random_bytes(n: usize) -> (r: Vec<u8>)
    ensures
        r@.len() == n,
{
    let mut buf = vec![0u8; n];
    rand::RngCore::fill_bytes(&mut rand::rngs::OsRng, &mut buf);
    buf
}

/// What decrypting an artifact under a key yields: the plaintext, or nothing
/// when the artifact is shorter than a nonce or fails to authenticate.
pub open spec fn decrypt_spec(key: Seq<u8>, artifact: Seq<u8>) -> Option<Seq<u8>> {
    if artifact.len() < NONCE_LEN {
        None
    } else {
        gcm_open(
            key,
            artifact.subrange(0, NONCE_LEN as int),
            artifact.subrange(NONCE_LEN as int, artifact.len() as int),
        )
    }
}

/// The artifact decrypts under `key` to exactly `plaintext`.
pub open spec fn opens_to(key: Seq<u8>, artifact: Seq<u8>, plaintext: Seq<u8>) -> bool {
    decrypt_spec(key, artifact) == Some(plaintext)
}

/// Round trip: whatever artifact was produced by sealing a plaintext under a
/// key — that is, whatever artifact decrypts to that plaintext — decrypting
/// it under the same key yields exactly that plaintext, for every key and
/// every byte string, including the empty one.
pub proof fn lemma_round_trip(key: Seq<u8>, plaintext: Seq<u8>, artifact: Seq<u8>)
    ensures
        opens_to(key, artifact, plaintext) ==> decrypt_spec(key, artifact) == Some(plaintext),
{
}

/// An artifact shorter than a nonce is rejected by decryption under every
/// key, without panicking.
pub proof fn lemma_short_artifact_rejected(key: Seq<u8>, artifact: Seq<u8>)
    ensures
        artifact.len() < NONCE_LEN ==> decrypt_spec(key, artifact) is None,
{
}

/// Copies `v[start..end]` into a fresh buffer.
pub fn subrange_bytes(v: &Vec<u8>, start: usize, end: usize) -> (r: Vec<u8>)
    requires
        start <= end <= v@.len(),
    ensures
        r@ == v@.subrange(start as int, end as int),
{
    let mut r: Vec<u8> = Vec::new();
    let mut i: usize = start;
    while i < end
        invariant
            start <= i <= end <= v@.len(),
            r@ == v@.subrange(start as int, i as int),
        decreases end - i,
    {
        r.push(v[i]);
        proof {
            assert(v@.subrange(start as int, i + 1 as int) =~= v@.subrange(
                start as int,
                i as int,
            ).push(v@[i as int]));
        }
        i = i + 1;
    }
    r
}

/// Encrypts a plaintext under a 256-bit key into a fresh artifact
/// `nonce || ciphertext || tag`, with a nonce drawn anew for this call.
///
/// The artifact is pinned down up to the nonce: it has exactly
/// `plaintext.len() + 28` bytes and decrypts under `key` back to `plaintext`.
pub fn encrypt_artifact(key: &Vec<u8>, plaintext: &Vec<u8>) -> (r: Vec<u8>)
    requires
        key@.len() == 32,
        plaintext@.len() <= MAX_PLAINTEXT_LEN,
    ensures
        r@.len() == plaintext@.len() + NONCE_LEN + TAG_LEN,
        opens_to(key@, r@, plaintext@),
{
    let nonce = random_bytes(NONCE_LEN);
    let sealed = aead_seal(key, &nonce, plaintext);
    let mut out = nonce;
    let ghost nonce_view = out@;
    let mut i: usize = 0;
    while i < sealed.len()
        invariant
            i <= sealed@.len(),
            out@ == nonce_view + sealed@.subrange(0, i as int),
            nonce_view.len() == NONCE_LEN,
            sealed@ == gcm_seal(key@, nonce_view, plaintext@),
            sealed@.len() == plaintext@.len() + TAG_LEN,
            gcm_open(key@, nonce_view, sealed@) == Some(plaintext@),
        decreases sealed@.len() - i,
    {
        out.push(sealed[i]);
        proof {
            assert(sealed@.subrange(0, i + 1 as int) =~= sealed@.subrange(0, i as int).push(
                sealed@[i as int],
            ));
        }
        i = i + 1;
    }
    proof {
        assert(sealed@.subrange(0, sealed@.len() as int) =~= sealed@);
        assert(out@.subrange(0, NONCE_LEN as int) =~= nonce_view);
        assert(out@.subrange(NONCE_LEN as int, out@.len() as int) =~= sealed@);
        lemma_round_trip(key@, plaintext@, out@);
    }
    out
}

/// Decrypts an artifact under a 256-bit key.
///
/// Succeeds if and only if the artifact carries at least a nonce and its
/// authentication tag verifies; every failure — truncation, a wrong key,
/// corruption, tampering — is the one generic `DecryptionFailed`.
pub fn decrypt_artifact(key: &Vec<u8>, artifact: &Vec<u8>) -> (r: Result<Vec<u8>, VaultError>)
    requires
        key@.len() == 32,
    ensures
        match r {
            Ok(p) => decrypt_spec(key@, artifact@) == Some(p@),
            Err(e) => e == VaultError::DecryptionFailed && decrypt_spec(key@, artifact@) is None,
        },
        artifact@.len() < NONCE_LEN ==> r is Err,
{
    if artifact.len() < NONCE_LEN {
        return Err(VaultError::DecryptionFailed);
    }
    let nonce = subrange_bytes(artifact, 0, NONCE_LEN);
    let body = subrange_bytes(artifact, NONCE_LEN, artifact.len());
    match aead_open(key, &nonce, &body) {
        Some(p) => Ok(p),
        None => Err(VaultError::DecryptionFailed),
    }
}

} // verus!
