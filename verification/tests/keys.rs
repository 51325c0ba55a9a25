use vault_engine::errors::VaultError;
use vault_engine::keys::{
    decode_stored_key, derive_from_passphrase, encode_key, obtain_key, VaultKey,
};

#[test]
fn derivation_is_deterministic() {
    let k1 = derive_from_passphrase("p1").unwrap();
    let k2 = derive_from_passphrase("p1").unwrap();
    assert_eq!(k1.as_bytes(), k2.as_bytes());
    assert_eq!(k1.as_bytes().len(), 32);
}

#[test]
fn different_passphrases_derive_different_keys() {
    let k1 = derive_from_passphrase("p1").unwrap();
    let k2 = derive_from_passphrase("p2").unwrap();
    assert_ne!(k1.as_bytes(), k2.as_bytes());
}

#[test]
fn derived_key_is_not_the_passphrase() {
    let k = derive_from_passphrase("0123456789abcdef0123456789abcdef").unwrap();
    assert_ne!(k.as_bytes().as_slice(), b"0123456789abcdef0123456789abcdef");
}

#[test]
fn blank_passphrases_are_rejected() {
    assert_eq!(
        derive_from_passphrase("").unwrap_err(),
        VaultError::EmptyPassphrase
    );
    assert_eq!(
        derive_from_passphrase("   \t\n").unwrap_err(),
        VaultError::EmptyPassphrase
    );
    assert_eq!(
        obtain_key(Some(" ")).unwrap_err(),
        VaultError::EmptyPassphrase
    );
    // Unicode whitespace counts as blank too.
    assert_eq!(
        derive_from_passphrase("\u{00A0}\u{2003}").unwrap_err(),
        VaultError::EmptyPassphrase
    );
}

#[test]
fn obtain_key_derives_or_draws() {
    let derived = obtain_key(Some("p1")).unwrap();
    let reference = derive_from_passphrase("p1").unwrap();
    assert_eq!(derived.as_bytes(), reference.as_bytes());
    // Without a passphrase the key is random: two draws differ.
    let r1 = obtain_key(None).unwrap();
    let r2 = obtain_key(None).unwrap();
    assert_ne!(r1.as_bytes(), r2.as_bytes());
    assert_eq!(r1.as_bytes().len(), 32);
}

#[test]
fn random_keys_differ() {
    let k1 = VaultKey::generate_random_key();
    let k2 = VaultKey::generate_random_key();
    assert_ne!(k1.as_bytes(), k2.as_bytes());
}

#[test]
fn stored_key_round_trips_through_base64() {
    let key = VaultKey::from_bytes((0u8..32).collect()).unwrap();
    let stored = encode_key(&key);
    // The stored form is base64 text, not the raw bytes.
    assert_ne!(stored.as_bytes(), key.as_bytes().as_slice());
    let back = decode_stored_key(&Some(stored)).unwrap();
    assert_eq!(back.as_bytes(), key.as_bytes());
}

#[test]
fn encodes_the_zero_key_as_expected() {
    let key = VaultKey::from_bytes(vec![0u8; 32]).unwrap();
    let stored = encode_key(&key);
    assert_eq!(stored, "A".repeat(43) + "=");
}

#[test]
fn invalid_stored_secrets_count_as_no_key() {
    assert!(decode_stored_key(&None).is_none());
    assert!(decode_stored_key(&Some("not base64 !!".to_string())).is_none());
    // Valid base64, wrong length (5 bytes).
    assert!(decode_stored_key(&Some("AAAAAAA=".to_string())).is_none());
    // Valid base64 of exactly 32 bytes decodes.
    let stored = encode_key(&VaultKey::from_bytes(vec![9u8; 32]).unwrap());
    let key = decode_stored_key(&Some(stored)).unwrap();
    assert_eq!(key.as_bytes().as_slice(), &[9u8; 32][..]);
}

#[test]
fn from_bytes_insists_on_32_bytes() {
    assert!(VaultKey::from_bytes(vec![1u8; 31]).is_none());
    assert!(VaultKey::from_bytes(vec![1u8; 33]).is_none());
    assert!(VaultKey::from_bytes(Vec::new()).is_none());
    assert!(VaultKey::from_bytes(vec![1u8; 32]).is_some());
}
