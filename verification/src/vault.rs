//! The vault lifecycle controller.
//!
//! [`Vault`] is the controller's image of the vault's persistent state: the
//! one credential-store secret, the legacy plaintext store, the canonical
//! encrypted artifact, the decrypted working copy, and the backup and sync
//! targets. Every decision the engine makes — the startup state machine,
//! the setup and migration actions, the flush pipeline, the restore from a
//! sync folder — is a verified transition on this image. The surrounding
//! application performs the matching reads, writes and renames on the real
//! credential store and filesystem, in lockstep, and keeps the canonical
//! artifact atomic by writing to a temporary file and renaming it into
//! place. A [`BackupEntry`] carries a file's name and stamp, not its
//! bytes; the lockstep obligation on the application is that every
//! retention copy it writes for a new entry holds exactly the canonical
//! artifact of that flush (the sync copy, by contrast, is modelled with
//! its bytes).
//!
//! Holding the state as plain values also makes the engine fully testable
//! without touching the platform credential facility or the disk, as an
//! in-memory fake of both.

use vstd::prelude::*;
use vstd::string::StrSliceExecFns;

use crate::backup::{
    backup_file_name, backup_file_name_spec, prune_backups, retained, BackupEntry,
    BACKUP_KEEP_COUNT,
};
use crate::cipher::{
    decrypt_artifact, decrypt_spec, encrypt_artifact, opens_to, subrange_bytes, MAX_PLAINTEXT_LEN,
};
use crate::errors::{EncryptionStateResponse, InitDbError, SetupReason, VaultError};
use crate::keys::{
    decode_stored_key, derived_key, encode_key, is_blank, obtain_key, secret_view,
    stored_key_spec, MAX_PASSPHRASE_LEN,
};
use crate::text::{chars_of, chars_to_string, trim_chars, trim_seq};

verus! {

/// The controller's image of the vault's persistent state.
///
/// Exactly one canonical artifact slot exists; the working copy exists only
/// while the vault is open; the credential store holds at most one secret.
pub struct Vault {
    /// The credential-store secret: the base64 form of the vault key.
    pub secret: Option<String>,
    /// The legacy plaintext store, if a pre-encryption install left one.
    pub legacy: Option<Vec<u8>>,
    /// Where the legacy store is parked after migration (renamed aside,
    /// never deleted).
    pub legacy_backup: Option<Vec<u8>>,
    /// The canonical encrypted artifact.
    pub artifact: Option<Vec<u8>>,
    /// The decrypted working copy, while the vault is open.
    pub working: Option<Vec<u8>>,
    /// The retention directory next to the artifact.
    pub backups: Vec<BackupEntry>,
    /// The user-chosen extra backup folder, when set.
    pub backup_folder: Option<String>,
    /// The contents of the extra backup folder.
    pub mirror: Vec<BackupEntry>,
    /// The user-chosen sync folder, when set.
    pub sync_folder: Option<String>,
    /// The fixed-name artifact copy inside the sync folder.
    pub sync_slot: Option<Vec<u8>>,
}

impl Vault {
    /// The vault key the stored secret decodes to, if any.
    pub open spec fn key(self) -> Option<Seq<u8>> {
        stored_key_spec(secret_view(self.secret))
    }

    /// The startup decision table: what one evaluation of
    /// (key present?, legacy present?, artifact present?) must yield.
    pub open spec fn startup_outcome(self) -> Result<(), InitDbError> {
        match self.key() {
            Some(k) => match self.artifact {
                Some(a) => match decrypt_spec(k, a@) {
                    Some(_) => Ok(()),
                    None => Err(InitDbError::Other(VaultError::DecryptionFailed)),
                },
                None => Ok(()),
            },
            None => match self.legacy {
                Some(_) => Err(InitDbError::NeedSetup(SetupReason::MigratePlain)),
                None => match self.artifact {
                    Some(_) => Err(InitDbError::Other(VaultError::ArtifactWithoutKey)),
                    None => Err(InitDbError::NeedSetup(SetupReason::FirstRun)),
                },
            },
        }
    }

    /// Everything but the working copy and the artifact is the same.
    pub open spec fn same_except_open(self, post: Vault) -> bool {
        post.secret == self.secret && post.legacy == self.legacy && post.legacy_backup
            == self.legacy_backup && post.backups == self.backups && post.backup_folder
            == self.backup_folder && post.mirror == self.mirror && post.sync_folder
            == self.sync_folder && post.sync_slot == self.sync_slot
    }

    /// An empty data directory with an empty credential store.
    pub fn new() -> (r: Vault)
        ensures
            r.secret is None,
            r.legacy is None,
            r.legacy_backup is None,
            r.artifact is None,
            r.working is None,
            r.backups@ == Seq::<BackupEntry>::empty(),
            r.backup_folder is None,
            r.mirror@ == Seq::<BackupEntry>::empty(),
            r.sync_folder is None,
            r.sync_slot is None,
    {
        Vault {
            secret: None,
            legacy: None,
            legacy_backup: None,
            artifact: None,
            working: None,
            backups: Vec::new(),
            backup_folder: None,
            mirror: Vec::new(),
            sync_folder: None,
            sync_slot: None,
        }
    }

    /// Evaluates the startup state machine once, as the decision table
    /// demands:
    ///
    /// | key | legacy | artifact | outcome |
    /// |-----|--------|----------|---------|
    /// | no  | no     | no       | needs setup: first run |
    /// | no  | yes    | any      | needs setup: migrate the legacy store |
    /// | no  | no     | yes      | fatal: artifact without key |
    /// | yes | any    | yes      | decrypt the artifact into the working copy |
    /// | yes | any    | no       | publish `fresh` as working copy and artifact |
    ///
    /// A stored secret that does not decode to a 32-byte key counts as "no
    /// key". A failed decryption is fatal for the session, never retried.
    /// `fresh` is the schema-initialised image of an empty store, used only
    /// in the last row.
    pub fn startup(&mut self, fresh: Vec<u8>) -> (r: Result<(), InitDbError>)
        requires
            fresh@.len() <= MAX_PLAINTEXT_LEN,
        ensures
            r == old(self).startup_outcome(),
            r is Err ==> *final(self) == *old(self),
            r is Ok ==> old(self).same_except_open(*final(self)),
            r is Ok && old(self).artifact is Some ==> final(self).artifact == old(self).artifact
                && (old(self).key() matches Some(k) && old(self).artifact matches Some(a)
                && final(self).working matches Some(w) && decrypt_spec(k, a@) == Some(w@)),
            r is Ok && old(self).artifact is None ==> (final(self).working matches Some(w) && w@
                == fresh@) && (old(self).key() matches Some(k) && final(self).artifact matches
            Some(a) && opens_to(k, a@, fresh@)),
    {
        let key = match decode_stored_key(&self.secret) {
            Some(k) => k,
            None => {
                if self.legacy.is_some() {
                    return Err(InitDbError::NeedSetup(SetupReason::MigratePlain));
                }
                if self.artifact.is_some() {
                    return Err(InitDbError::Other(VaultError::ArtifactWithoutKey));
                }
                return Err(InitDbError::NeedSetup(SetupReason::FirstRun));
            },
        };
        match &self.artifact {
            Some(a) => {
                match decrypt_artifact(key.as_bytes(), a) {
                    Ok(plain) => {
                        self.working = Some(plain);
                        Ok(())
                    },
                    Err(_) => Err(InitDbError::Other(VaultError::DecryptionFailed)),
                }
            },
            None => {
                let artifact = encrypt_artifact(key.as_bytes(), &fresh);
                self.artifact = Some(artifact);
                self.working = Some(fresh);
                Ok(())
            },
        }
    }

    /// First-run setup: settles on a key — derived from the passphrase when
    /// one is given, random otherwise — parks it in the credential store,
    /// installs `fresh` as the working copy, and publishes its encryption
    /// as the first canonical artifact.
    ///
    /// Fails exactly when a passphrase is given but blank; the state is
    /// then untouched.
    pub fn create_key(&mut self, passphrase: Option<&str>, fresh: Vec<u8>) -> (r: Result<
        (),
        VaultError,
    >)
        requires
            passphrase matches Some(p) ==> p@.len() <= MAX_PASSPHRASE_LEN,
            fresh@.len() <= MAX_PLAINTEXT_LEN,
        ensures
            match r {
                Err(e) => e == VaultError::EmptyPassphrase && (passphrase matches Some(p)
                    && is_blank(p@)) && *final(self) == *old(self),
                Ok(()) => {
                    &&& final(self).key() matches Some(k) && final(self).artifact matches Some(a)
                        && opens_to(k, a@, fresh@)
                    &&& final(self).working matches Some(w) && w@ == fresh@
                    &&& passphrase matches Some(p) ==> !is_blank(p@) && final(self).key() == Some(
                        derived_key(p@),
                    )
                    &&& final(self).legacy == old(self).legacy
                    &&& final(self).legacy_backup == old(self).legacy_backup
                    &&& final(self).backups == old(self).backups
                    &&& final(self).backup_folder == old(self).backup_folder
                    &&& final(self).mirror == old(self).mirror
                    &&& final(self).sync_folder == old(self).sync_folder
                    &&& final(self).sync_slot == old(self).sync_slot
                },
            },
    {
        let key = match obtain_key(passphrase) {
            Ok(k) => k,
            Err(e) => {
                return Err(e);
            },
        };
        let artifact = encrypt_artifact(key.as_bytes(), &fresh);
        self.secret = Some(encode_key(&key));
        self.artifact = Some(artifact);
        self.working = Some(fresh);
        Ok(())
    }

    /// Migration: encrypts the legacy plaintext store directly into the
    /// canonical artifact under a newly settled key, parks the key in the
    /// credential store, and renames the legacy store aside as a backup —
    /// it is never deleted outright.
    ///
    /// Afterwards no legacy store exists at its original place, its bytes
    /// are preserved aside, and the artifact decrypts byte-identically to
    /// them. Fails when no legacy store exists, or when the given
    /// passphrase is blank; the state is then untouched.
    pub fn migrate_plain(&mut self, passphrase: Option<&str>) -> (r: Result<(), VaultError>)
        requires
            passphrase matches Some(p) ==> p@.len() <= MAX_PASSPHRASE_LEN,
            old(self).legacy matches Some(l) ==> l@.len() <= MAX_PLAINTEXT_LEN,
        ensures
            match r {
                Err(e) => *final(self) == *old(self) && (e == VaultError::MissingLegacyStore
                    && old(self).legacy is None || e == VaultError::EmptyPassphrase && old(
                    self,
                ).legacy is Some && (passphrase matches Some(p) && is_blank(p@))),
                Ok(()) => {
                    &&& old(self).legacy matches Some(l) && final(self).legacy_backup == Some(l)
                        && (final(self).key() matches Some(k) && final(self).artifact matches
                    Some(a) && opens_to(k, a@, l@))
                    &&& final(self).legacy is None
                    &&& passphrase matches Some(p) ==> !is_blank(p@) && final(self).key() == Some(
                        derived_key(p@),
                    )
                    &&& final(self).working == old(self).working
                    &&& final(self).backups == old(self).backups
                    &&& final(self).backup_folder == old(self).backup_folder
                    &&& final(self).mirror == old(self).mirror
                    &&& final(self).sync_folder == old(self).sync_folder
                    &&& final(self).sync_slot == old(self).sync_slot
                },
            },
    {
        if self.legacy.is_none() {
            return Err(VaultError::MissingLegacyStore);
        }
        let key = match obtain_key(passphrase) {
            Ok(k) => k,
            Err(e) => {
                return Err(e);
            },
        };
        let legacy = self.legacy.take().unwrap();
        let artifact = encrypt_artifact(key.as_bytes(), &legacy);
        self.secret = Some(encode_key(&key));
        self.artifact = Some(artifact);
        self.legacy_backup = Some(legacy);
        Ok(())
    }
}

} // verus!

verus! {

/// `post` is `pre` with one entry of the given name and stamp appended and
/// the retention rule applied.
pub open spec fn pushed_then_pruned(
    pre: Seq<BackupEntry>,
    post: Seq<BackupEntry>,
    name: Seq<char>,
    mtime: u64,
    keep: int,
) -> bool {
    exists|e: BackupEntry|
        e.name@ == name && e.modified == mtime && post == retained(pre.push(e), keep)
}

/// The user chose an extra backup folder.
pub open spec fn wants_mirror(v: Vault) -> bool {
    match v.backup_folder {
        Some(f) => f@.len() > 0,
        None => false,
    }
}

/// The user chose a sync folder.
pub open spec fn wants_sync(v: Vault) -> bool {
    match v.sync_folder {
        Some(f) => f@.len() > 0,
        None => false,
    }
}

impl Vault {
    /// Flush: re-encrypts the working copy, publishes it as the canonical
    /// artifact, then hands off to backup and replication — a versioned
    /// retention copy next to the artifact (pruned to the
    /// [`BACKUP_KEEP_COUNT`] most recent), the same in the user's extra
    /// backup folder when one is chosen, and a fixed-name copy in the sync
    /// folder when one is chosen, so a second device can find it.
    ///
    /// Later stages never undo earlier ones. Fails when no working copy is
    /// open, or when the stored secret no longer decodes to a key; the
    /// state is then untouched.
    pub fn flush(&mut self, stamp: &str, mtime: u64) -> (r: Result<(), VaultError>)
        requires
            old(self).working matches Some(w) ==> w@.len() <= MAX_PLAINTEXT_LEN,
        ensures
            match r {
                Err(e) => *final(self) == *old(self) && (e == VaultError::IoError && old(
                    self,
                ).working is None || e == VaultError::InvalidStoredKey && old(self).working is Some
                    && old(self).key() is None),
                Ok(()) => {
                    &&& old(self).working matches Some(w) && old(self).key() matches Some(k) && (
                    final(self).artifact matches Some(a) && opens_to(k, a@, w@) && (wants_sync(
                        *old(self),
                    ) ==> (final(self).sync_slot matches Some(sc) && sc@ == a@)))
                    &&& pushed_then_pruned(
                        old(self).backups@,
                        final(self).backups@,
                        backup_file_name_spec(stamp@),
                        mtime,
                        BACKUP_KEEP_COUNT as int,
                    )
                    &&& wants_mirror(*old(self)) ==> pushed_then_pruned(
                        old(self).mirror@,
                        final(self).mirror@,
                        backup_file_name_spec(stamp@),
                        mtime,
                        BACKUP_KEEP_COUNT as int,
                    )
                    &&& !wants_mirror(*old(self)) ==> final(self).mirror == old(self).mirror
                    &&& !wants_sync(*old(self)) ==> final(self).sync_slot == old(self).sync_slot
                    &&& final(self).working == old(self).working
                    &&& final(self).secret == old(self).secret
                    &&& final(self).legacy == old(self).legacy
                    &&& final(self).legacy_backup == old(self).legacy_backup
                    &&& final(self).backup_folder == old(self).backup_folder
                    &&& final(self).sync_folder == old(self).sync_folder
                },
            },
    {
        if self.working.is_none() {
            return Err(VaultError::IoError);
        }
        let key = match decode_stored_key(&self.secret) {
            Some(k) => k,
            None => {
                return Err(VaultError::InvalidStoredKey);
            },
        };
        let artifact = match &self.working {
            Some(w) => encrypt_artifact(key.as_bytes(), w),
            None => {
                return Err(VaultError::IoError);
            },
        };
        self.artifact = Some(artifact);

        let entry = BackupEntry { name: backup_file_name(stamp), modified: mtime };
        let ghost ge = entry;
        self.backups.push(entry);
        let pruned = prune_backups(&self.backups, BACKUP_KEEP_COUNT);
        self.backups = pruned;
        proof {
            assert(ge.name@ == backup_file_name_spec(stamp@) && ge.modified == mtime
                && self.backups@ == retained(
                old(self).backups@.push(ge),
                BACKUP_KEEP_COUNT as int,
            ));
        }
        let do_mirror = match &self.backup_folder {
            Some(f) => !f.as_str().is_empty(),
            None => false,
        };
        if do_mirror {
            let ghost mirror_pre = self.mirror@;
            let entry2 = BackupEntry { name: backup_file_name(stamp), modified: mtime };
            let ghost ge2 = entry2;
            self.mirror.push(entry2);
            let pruned2 = prune_backups(&self.mirror, BACKUP_KEEP_COUNT);
            self.mirror = pruned2;
            proof {
                assert(ge2.name@ == backup_file_name_spec(stamp@) && ge2.modified == mtime
                    && self.mirror@ == retained(mirror_pre.push(ge2), BACKUP_KEEP_COUNT as int));
            }
        }
        let do_sync = match &self.sync_folder {
            Some(f) => !f.as_str().is_empty(),
            None => false,
        };
        if do_sync {
            let a_ref = self.artifact.as_ref().unwrap();
            let copy = subrange_bytes(a_ref, 0, a_ref.len());
            proof {
                assert(copy@ =~= a_ref@);
            }
            self.sync_slot = Some(copy);
        }
        Ok(())
    }

    /// Restore from a sync folder: `found` is what the application read
    /// from the fixed-name artifact in the folder, or nothing when the file
    /// is absent. Derives a key from the passphrase, checks that it
    /// decrypts the found artifact, installs the artifact as the canonical
    /// one and parks the key in the credential store. The caller then
    /// proceeds through the normal startup decrypt path.
    ///
    /// Fails — leaving the state untouched — when the file was absent, the
    /// passphrase is blank, or the derived key does not decrypt the file.
    pub fn restore_from_sync_folder(&mut self, found: Option<Vec<u8>>, passphrase: &str) -> (r:
        Result<(), VaultError>)
        requires
            passphrase@.len() <= MAX_PASSPHRASE_LEN,
        ensures
            match r {
                Err(e) => *final(self) == *old(self) && (e == VaultError::IoError && found is None
                    || e == VaultError::EmptyPassphrase && found is Some && is_blank(passphrase@)
                    || e == VaultError::DecryptionFailed && (found matches Some(a) && !is_blank(
                    passphrase@,
                ) && decrypt_spec(derived_key(passphrase@), a@) is None)),
                Ok(()) => {
                    &&& found matches Some(a) && final(self).artifact == Some(a) && decrypt_spec(
                        derived_key(passphrase@),
                        a@,
                    ) is Some
                    &&& !is_blank(passphrase@)
                    &&& final(self).key() == Some(derived_key(passphrase@))
                    &&& final(self).legacy == old(self).legacy
                    &&& final(self).legacy_backup == old(self).legacy_backup
                    &&& final(self).working == old(self).working
                    &&& final(self).backups == old(self).backups
                    &&& final(self).backup_folder == old(self).backup_folder
                    &&& final(self).mirror == old(self).mirror
                    &&& final(self).sync_folder == old(self).sync_folder
                    &&& final(self).sync_slot == old(self).sync_slot
                },
            },
    {
        let bytes = match found {
            None => {
                return Err(VaultError::IoError);
            },
            Some(a) => a,
        };
        let key = match crate::keys::derive_from_passphrase(passphrase) {
            Ok(k) => k,
            Err(e) => {
                return Err(e);
            },
        };
        match decrypt_artifact(key.as_bytes(), &bytes) {
            Ok(_) => {},
            Err(e) => {
                return Err(e);
            },
        }
        self.artifact = Some(bytes);
        self.secret = Some(encode_key(&key));
        Ok(())
    }

    /// Chooses the extra backup folder; the path is stored trimmed.
    pub fn set_backup_folder(&mut self, path: &str)
        ensures
            final(self).backup_folder matches Some(f) && f@ == trim_seq(path@),
            final(self).secret == old(self).secret,
            final(self).legacy == old(self).legacy,
            final(self).legacy_backup == old(self).legacy_backup,
            final(self).artifact == old(self).artifact,
            final(self).working == old(self).working,
            final(self).backups == old(self).backups,
            final(self).mirror == old(self).mirror,
            final(self).sync_folder == old(self).sync_folder,
            final(self).sync_slot == old(self).sync_slot,
    {
        let t = trim_chars(&chars_of(path));
        self.backup_folder = Some(chars_to_string(&t));
    }

    /// The chosen extra backup folder, or the empty string.
    pub fn backup_folder_get(&self) -> (r: String)
        ensures
            match self.backup_folder {
                Some(f) => r@ == f@,
                None => r@.len() == 0,
            },
    {
        match &self.backup_folder {
            Some(f) => f.clone(),
            None => String::new(),
        }
    }

    /// Chooses the sync folder; the path is stored trimmed.
    pub fn set_sync_folder(&mut self, path: &str)
        ensures
            final(self).sync_folder matches Some(f) && f@ == trim_seq(path@),
            final(self).secret == old(self).secret,
            final(self).legacy == old(self).legacy,
            final(self).legacy_backup == old(self).legacy_backup,
            final(self).artifact == old(self).artifact,
            final(self).working == old(self).working,
            final(self).backups == old(self).backups,
            final(self).backup_folder == old(self).backup_folder,
            final(self).mirror == old(self).mirror,
            final(self).sync_slot == old(self).sync_slot,
    {
        let t = trim_chars(&chars_of(path));
        self.sync_folder = Some(chars_to_string(&t));
    }

    /// The chosen sync folder, or the empty string.
    pub fn sync_folder_get(&self) -> (r: String)
        ensures
            match self.sync_folder {
                Some(f) => r@ == f@,
                None => r@.len() == 0,
            },
    {
        match &self.sync_folder {
            Some(f) => f.clone(),
            None => String::new(),
        }
    }
}

/// When the reason is `Some`, the surrounding application must run the
/// setup flow before the vault can open.
pub struct EncryptionSetupState {
    /// Why setup is needed, or `None` once the vault is ready.
    pub reason: Option<SetupReason>,
}

impl EncryptionSetupState {
    /// The state reported to the surrounding application.
    pub fn encryption_state(&self) -> (r: EncryptionStateResponse)
        ensures
            match self.reason {
                Some(reason) => r == (EncryptionStateResponse::NeedSetup { reason }),
                None => r == EncryptionStateResponse::Ready,
            },
    {
        match &self.reason {
            Some(reason) => EncryptionStateResponse::NeedSetup { reason: *reason },
            None => EncryptionStateResponse::Ready,
        }
    }
}

/// The two paths a flush needs once the vault is open: the private working
/// copy and the canonical artifact.
pub struct EncryptedPathsState {
    /// `(working copy path, artifact path)`, while the vault is open.
    pub paths: Option<(String, String)>,
}

} // verus!
