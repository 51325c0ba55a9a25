use vault_engine::cipher::{decrypt_artifact, encrypt_artifact, NONCE_LEN, TAG_LEN};
use vault_engine::errors::VaultError;

fn key_of(byte: u8) -> Vec<u8> {
    vec![byte; 32]
}

#[test]
fn round_trips_every_message() {
    let key = key_of(7);
    for msg in [
        Vec::new(),
        vec![0u8],
        b"hello vault".to_vec(),
        vec![0xAB; 1000],
    ] {
        let artifact = encrypt_artifact(&key, &msg);
        assert_eq!(artifact.len(), msg.len() + NONCE_LEN + TAG_LEN);
        assert_eq!(decrypt_artifact(&key, &artifact), Ok(msg));
    }
}

#[test]
fn rejects_every_single_bit_flip() {
    let key = key_of(1);
    let msg = b"four".to_vec();
    let artifact = encrypt_artifact(&key, &msg);
    // Flip each bit of the ciphertext and tag region in turn.
    for byte in NONCE_LEN..artifact.len() {
        for bit in 0..8 {
            let mut tampered = artifact.clone();
            tampered[byte] ^= 1 << bit;
            assert_eq!(
                decrypt_artifact(&key, &tampered),
                Err(VaultError::DecryptionFailed),
                "bit {bit} of byte {byte} went unnoticed"
            );
        }
    }
}

#[test]
fn rejects_truncated_artifacts_without_panicking() {
    let key = key_of(2);
    for len in 0..NONCE_LEN {
        let short = vec![0u8; len];
        assert_eq!(
            decrypt_artifact(&key, &short),
            Err(VaultError::DecryptionFailed)
        );
    }
    // Nonce alone, without ciphertext or tag, must also fail.
    let artifact = encrypt_artifact(&key, &b"x".to_vec());
    let nonce_only = artifact[..NONCE_LEN].to_vec();
    assert_eq!(
        decrypt_artifact(&key, &nonce_only),
        Err(VaultError::DecryptionFailed)
    );
}

#[test]
fn rejects_wrong_key() {
    let msg = b"secret".to_vec();
    let artifact = encrypt_artifact(&key_of(3), &msg);
    assert_eq!(
        decrypt_artifact(&key_of(4), &artifact),
        Err(VaultError::DecryptionFailed)
    );
}

#[test]
fn draws_a_fresh_nonce_per_encryption() {
    let key = key_of(5);
    let msg = b"same plaintext".to_vec();
    let a1 = encrypt_artifact(&key, &msg);
    let a2 = encrypt_artifact(&key, &msg);
    assert_ne!(a1, a2);
    assert_ne!(a1[..NONCE_LEN], a2[..NONCE_LEN]);
    // Both still decrypt to the same plaintext.
    assert_eq!(decrypt_artifact(&key, &a1), Ok(msg.clone()));
    assert_eq!(decrypt_artifact(&key, &a2), Ok(msg));
}

#[test]
fn ciphertext_differs_from_plaintext() {
    let key = key_of(6);
    let msg = vec![0x55u8; 64];
    let artifact = encrypt_artifact(&key, &msg);
    assert_ne!(&artifact[NONCE_LEN..NONCE_LEN + msg.len()], &msg[..]);
}
