use vault_engine::backup::{
    backup_file_name, is_backup_name, prune_backups, BackupEntry, BACKUP_KEEP_COUNT,
};
use vault_engine::errors::{InitDbError, SetupReason, VaultError};
use vault_engine::vault::Vault;

fn entry(name: &str, modified: u64) -> BackupEntry {
    BackupEntry { name: name.to_string(), modified }
}

#[test]
fn ten_flushes_keep_the_seven_most_recent() {
    let mut v = Vault::new();
    v.create_key(None, b"store".to_vec()).unwrap();
    let stamps = [
        "20240101-000001",
        "20240101-000002",
        "20240101-000003",
        "20240101-000004",
        "20240101-000005",
        "20240101-000006",
        "20240101-000007",
        "20240101-000008",
        "20240101-000009",
        "20240101-000010",
    ];
    for (i, stamp) in stamps.iter().enumerate() {
        v.flush(stamp, (i + 1) as u64).unwrap();
    }
    assert_eq!(v.backups.len(), BACKUP_KEEP_COUNT);
    let mut kept: Vec<u64> = v.backups.iter().map(|e| e.modified).collect();
    kept.sort();
    assert_eq!(kept, vec![4, 5, 6, 7, 8, 9, 10]);
    for e in &v.backups {
        assert!(is_backup_name(&e.name));
    }
}

#[test]
fn prune_keeps_the_most_recent_matching_entries() {
    let mut entries = Vec::new();
    for m in 1..=10u64 {
        entries.push(entry(&backup_file_name(&format!("stamp{m}")), m));
    }
    let kept = prune_backups(&entries, 7);
    assert_eq!(kept.len(), 7);
    let stamps: Vec<u64> = kept.iter().map(|e| e.modified).collect();
    assert_eq!(stamps, vec![4, 5, 6, 7, 8, 9, 10]);
}

#[test]
fn prune_never_touches_foreign_files() {
    let entries = vec![
        entry("vault.db.encrypted", 100),
        entry(&backup_file_name("a"), 1),
        entry("notes.txt", 0),
        entry(&backup_file_name("b"), 2),
        entry(&backup_file_name("c"), 3),
    ];
    let kept = prune_backups(&entries, 2);
    let names: Vec<&str> = kept.iter().map(|e| e.name.as_str()).collect();
    assert_eq!(
        names,
        vec![
            "vault.db.encrypted",
            "notes.txt",
            "vault-backup-b.encrypted",
            "vault-backup-c.encrypted",
        ]
    );
}

#[test]
fn prune_breaks_ties_without_over_deleting() {
    let entries = vec![
        entry(&backup_file_name("a"), 5),
        entry(&backup_file_name("b"), 5),
        entry(&backup_file_name("c"), 5),
    ];
    let kept = prune_backups(&entries, 2);
    // Never more than count - keep deleted, ties notwithstanding.
    assert_eq!(kept.len(), 2);
    assert_eq!(kept[0].name, "vault-backup-a.encrypted");
    assert_eq!(kept[1].name, "vault-backup-b.encrypted");
}

#[test]
fn prune_with_fewer_than_keep_deletes_nothing() {
    let entries = vec![
        entry(&backup_file_name("a"), 1),
        entry(&backup_file_name("b"), 2),
    ];
    assert_eq!(prune_backups(&entries, 7).len(), 2);
    assert_eq!(prune_backups(&Vec::new(), 7).len(), 0);
}

#[test]
fn backup_names_follow_the_convention() {
    let name = backup_file_name("20240101-090000");
    assert_eq!(name, "vault-backup-20240101-090000.encrypted");
    assert!(is_backup_name(&name));
    assert!(!is_backup_name(&"vault.db.encrypted".to_string()));
    assert!(!is_backup_name(&"vault-backup-x.txt".to_string()));
    assert!(!is_backup_name(&"other-20240101.encrypted".to_string()));
}

#[test]
fn errors_describe_themselves() {
    assert_eq!(VaultError::DecryptionFailed.describe(), "decryption failed");
    assert_eq!(
        VaultError::KeyStoreUnavailable.describe(),
        "key store unavailable"
    );
    assert_eq!(
        VaultError::EmptyPassphrase.describe(),
        "passphrase must not be empty"
    );
    assert_eq!(
        VaultError::ArtifactWithoutKey.describe(),
        "encrypted artifact exists but no key is stored"
    );
}

#[test]
fn startup_outcomes_describe_themselves() {
    assert_eq!(
        InitDbError::NeedSetup(SetupReason::FirstRun).describe(),
        "setup required: first run"
    );
    assert_eq!(
        InitDbError::NeedSetup(SetupReason::MigratePlain).describe(),
        "setup required: migrate the legacy store"
    );
    assert_eq!(
        InitDbError::Other(VaultError::IoError).describe(),
        "filesystem failure"
    );
}
