use vault_engine::cipher::decrypt_artifact;
use vault_engine::errors::{
    EncryptionStateResponse, InitDbError, SetupReason, VaultError,
};
use vault_engine::keys::derive_from_passphrase;
use vault_engine::vault::{EncryptedPathsState, EncryptionSetupState, Vault};

fn fresh_store() -> Vec<u8> {
    b"empty store with schema".to_vec()
}

#[test]
fn empty_directory_needs_first_run_setup() {
    let mut v = Vault::new();
    assert_eq!(
        v.startup(fresh_store()),
        Err(InitDbError::NeedSetup(SetupReason::FirstRun))
    );
    assert!(v.working.is_none());
    assert!(v.artifact.is_none());
}

#[test]
fn legacy_store_without_key_needs_migration() {
    let mut v = Vault::new();
    v.legacy = Some(b"old plain data".to_vec());
    assert_eq!(
        v.startup(fresh_store()),
        Err(InitDbError::NeedSetup(SetupReason::MigratePlain))
    );
    // The legacy store is untouched until the user acts.
    assert_eq!(v.legacy, Some(b"old plain data".to_vec()));
}

#[test]
fn key_and_artifact_open_ready() {
    let mut v = Vault::new();
    v.create_key(Some("letmein"), fresh_store()).unwrap();
    v.working = None; // simulate a process restart
    assert_eq!(v.startup(fresh_store()), Ok(()));
    assert_eq!(v.working, Some(fresh_store()));
}

#[test]
fn artifact_without_key_is_fatal() {
    let mut v = Vault::new();
    v.artifact = Some(vec![1, 2, 3]);
    assert_eq!(
        v.startup(fresh_store()),
        Err(InitDbError::Other(VaultError::ArtifactWithoutKey))
    );
}

#[test]
fn corrupted_artifact_fails_startup() {
    let mut v = Vault::new();
    v.create_key(None, fresh_store()).unwrap();
    v.working = None;
    let mut broken = v.artifact.clone().unwrap();
    let last = broken.len() - 1;
    broken[last] ^= 0x01;
    v.artifact = Some(broken);
    assert_eq!(
        v.startup(fresh_store()),
        Err(InitDbError::Other(VaultError::DecryptionFailed))
    );
    assert!(v.working.is_none());
}

#[test]
fn undecodable_secret_counts_as_no_key() {
    let mut v = Vault::new();
    v.secret = Some("garbage".to_string());
    assert_eq!(
        v.startup(fresh_store()),
        Err(InitDbError::NeedSetup(SetupReason::FirstRun))
    );
}

#[test]
fn key_without_artifact_publishes_a_fresh_one() {
    let mut v = Vault::new();
    v.create_key(None, fresh_store()).unwrap();
    v.artifact = None;
    v.working = None;
    assert_eq!(v.startup(fresh_store()), Ok(()));
    assert_eq!(v.working, Some(fresh_store()));
    assert!(v.artifact.is_some());
}

#[test]
fn create_key_rejects_blank_passphrases() {
    let mut v = Vault::new();
    assert_eq!(
        v.create_key(Some("  "), fresh_store()),
        Err(VaultError::EmptyPassphrase)
    );
    assert!(v.secret.is_none());
    assert!(v.artifact.is_none());
}

#[test]
fn migration_preserves_the_legacy_bytes() {
    let legacy = b"the whole old database".to_vec();
    let mut v = Vault::new();
    v.legacy = Some(legacy.clone());
    v.migrate_plain(Some("passphrase")).unwrap();

    // The legacy file is gone from its original place, renamed aside.
    assert!(v.legacy.is_none());
    assert_eq!(v.legacy_backup, Some(legacy.clone()));

    // The new canonical artifact decrypts byte-identically to it.
    let key = derive_from_passphrase("passphrase").unwrap();
    let artifact = v.artifact.clone().unwrap();
    assert_eq!(decrypt_artifact(key.as_bytes(), &artifact), Ok(legacy));

    // And the vault now opens normally.
    assert_eq!(v.startup(fresh_store()), Ok(()));
    assert_eq!(v.working, Some(b"the whole old database".to_vec()));
}

#[test]
fn migration_without_legacy_store_fails() {
    let mut v = Vault::new();
    assert_eq!(
        v.migrate_plain(Some("pw")),
        Err(VaultError::MissingLegacyStore)
    );
}

#[test]
fn migration_rejects_blank_passphrases() {
    let mut v = Vault::new();
    v.legacy = Some(b"old".to_vec());
    assert_eq!(v.migrate_plain(Some("\t ")), Err(VaultError::EmptyPassphrase));
    assert_eq!(v.legacy, Some(b"old".to_vec()));
}

#[test]
fn fresh_install_scenario() {
    // Fresh install: nothing anywhere.
    let mut v = Vault::new();
    assert_eq!(
        v.startup(fresh_store()),
        Err(InitDbError::NeedSetup(SetupReason::FirstRun))
    );
    let setup = EncryptionSetupState { reason: Some(SetupReason::FirstRun) };
    assert_eq!(
        setup.encryption_state(),
        EncryptionStateResponse::NeedSetup { reason: SetupReason::FirstRun }
    );

    // The user creates a device key (no passphrase).
    v.create_key(None, fresh_store()).unwrap();
    assert_eq!(v.startup(fresh_store()), Ok(()));
    let done = EncryptionSetupState { reason: None };
    assert_eq!(done.encryption_state(), EncryptionStateResponse::Ready);

    // The session writes into the working copy.
    let session_bytes = b"contacts, notes, reminders".to_vec();
    v.working = Some(session_bytes.clone());

    // Shutdown flushes.
    v.flush("20240101-090000", 1).unwrap();

    // The canonical artifact exists and decrypts back to those bytes.
    let key = vault_engine::keys::decode_stored_key(&v.secret).unwrap();
    let artifact = v.artifact.clone().unwrap();
    assert_eq!(decrypt_artifact(key.as_bytes(), &artifact), Ok(session_bytes));

    // Exactly one backup exists, under the timestamped name.
    assert_eq!(v.backups.len(), 1);
    assert_eq!(v.backups[0].name, "vault-backup-20240101-090000.encrypted");
}

#[test]
fn flush_needs_an_open_vault_and_a_key() {
    let mut v = Vault::new();
    assert_eq!(v.flush("20240101-000000", 1), Err(VaultError::IoError));
    v.working = Some(b"data".to_vec());
    assert_eq!(
        v.flush("20240101-000000", 1),
        Err(VaultError::InvalidStoredKey)
    );
}

#[test]
fn flush_replicates_to_chosen_folders() {
    let mut v = Vault::new();
    v.create_key(None, fresh_store()).unwrap();
    v.set_backup_folder("  /mnt/usb/backups ");
    assert_eq!(v.backup_folder_get(), "/mnt/usb/backups");
    v.set_sync_folder("/cloud/drive");
    assert_eq!(v.sync_folder_get(), "/cloud/drive");

    v.flush("20240202-120000", 10).unwrap();

    assert_eq!(v.backups.len(), 1);
    assert_eq!(v.mirror.len(), 1);
    assert_eq!(v.mirror[0].name, "vault-backup-20240202-120000.encrypted");
    assert_eq!(v.sync_slot, v.artifact);
}

#[test]
fn flush_skips_unset_folders() {
    let mut v = Vault::new();
    v.create_key(None, fresh_store()).unwrap();
    v.flush("20240202-120000", 10).unwrap();
    assert!(v.mirror.is_empty());
    assert!(v.sync_slot.is_none());
}

#[test]
fn restore_from_sync_folder_installs_artifact_and_key() {
    // First device publishes to the sync folder.
    let mut first = Vault::new();
    first.create_key(Some("shared pw"), b"synced data".to_vec()).unwrap();
    first.set_sync_folder("/cloud");
    first.flush("20240303-080000", 3).unwrap();
    let synced = first.sync_slot.clone().unwrap();

    // Second device restores from it.
    let mut second = Vault::new();
    assert_eq!(
        second.restore_from_sync_folder(None, "shared pw"),
        Err(VaultError::IoError)
    );
    assert_eq!(
        second.restore_from_sync_folder(Some(synced.clone()), "wrong pw"),
        Err(VaultError::DecryptionFailed)
    );
    assert!(second.secret.is_none());

    second
        .restore_from_sync_folder(Some(synced.clone()), "shared pw")
        .unwrap();
    assert_eq!(second.artifact, Some(synced));
    assert_eq!(second.startup(b"unused".to_vec()), Ok(()));
    assert_eq!(second.working, Some(b"synced data".to_vec()));
}

#[test]
fn paths_state_carries_the_flush_paths() {
    let closed = EncryptedPathsState { paths: None };
    assert!(closed.paths.is_none());
    let open = EncryptedPathsState {
        paths: Some(("vault.db.tmp".to_string(), "vault.db.encrypted".to_string())),
    };
    assert_eq!(open.paths.unwrap().1, "vault.db.encrypted");
}
