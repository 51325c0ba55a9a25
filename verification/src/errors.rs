//! Error taxonomy and setup states of the vault engine.

use vstd::prelude::*;

verus! {

/// Why the vault needs a user-driven setup step before it can open.
#[derive(Clone, Copy, Debug, PartialEq, Eq)]
pub enum SetupReason {
    /// Nothing on disk yet: first run, a key must be created.
    FirstRun,
    /// A legacy plaintext store exists and no key does: it must be migrated.
    MigratePlain,
}

/// Everything that can go wrong inside the vault engine.
///
/// `DecryptionFailed` deliberately does not distinguish a wrong key from a
/// corrupted or tampered artifact, so that callers cannot be used as an
/// oracle for which of the two happened.
#[derive(Clone, Copy, Debug, PartialEq, Eq)]
pub enum VaultError {
    /// The platform credential facility could not be reached.
    KeyStoreUnavailable,
    /// The stored secret does not decode to exactly 32 key bytes.
    InvalidStoredKey,
    /// A passphrase was given but is empty or whitespace-only.
    EmptyPassphrase,
    /// The artifact did not authenticate under the key, or is too short.
    DecryptionFailed,
    /// Migration was requested but no legacy plaintext store exists.
    MissingLegacyStore,
    /// The fresh working copy could not be initialised with its schema.
    SchemaInitError,
    /// A generic filesystem failure.
    IoError,
    /// Fatal configuration: an encrypted artifact exists but no key does.
    ArtifactWithoutKey,
}

/// Outcome of the startup path when the vault cannot open directly.
#[derive(Clone, Copy, Debug, PartialEq, Eq)]
pub enum InitDbError {
    /// Not an error of the engine itself: the caller must run a setup action.
    NeedSetup(SetupReason),
    /// A fatal startup failure.
    Other(VaultError),
}

impl InitDbError {
    /// A short, fixed description of the startup outcome.
    pub fn describe(&self) -> (r: &'static str)
        ensures
            r@ == self.describe_spec(),
    {
        match self {
            InitDbError::NeedSetup(SetupReason::FirstRun) => "setup required: first run",
            InitDbError::NeedSetup(SetupReason::MigratePlain) => "setup required: migrate the legacy store",
            InitDbError::Other(e) => e.describe(),
        }
    }

    /// What [`Self::describe`] returns, per variant.
    pub open spec fn describe_spec(&self) -> Seq<char> {
        match self {
            InitDbError::NeedSetup(SetupReason::FirstRun) => "setup required: first run"@,
            InitDbError::NeedSetup(SetupReason::MigratePlain) => "setup required: migrate the legacy store"@,
            InitDbError::Other(e) => e.describe_spec(),
        }
    }
}

/// The state reported to the surrounding application.
#[derive(Clone, Copy, Debug, PartialEq, Eq)]
pub enum EncryptionStateResponse {
    /// The vault is open: a decrypted working copy exists.
    Ready,
    /// A setup action is required first.
    NeedSetup { reason: SetupReason },
}

impl VaultError {
    /// A short, fixed description of the error.
    pub fn describe(&self) -> (r: &'static str)
        ensures
            r@ == self.describe_spec(),
    {
        match self {
            VaultError::KeyStoreUnavailable => "key store unavailable",
            VaultError::InvalidStoredKey => "stored key is invalid",
            VaultError::EmptyPassphrase => "passphrase must not be empty",
            VaultError::DecryptionFailed => "decryption failed",
            VaultError::MissingLegacyStore => "no legacy store to migrate",
            VaultError::SchemaInitError => "schema initialisation failed",
            VaultError::IoError => "filesystem failure",
            VaultError::ArtifactWithoutKey => "encrypted artifact exists but no key is stored",
        }
    }

    /// What [`Self::describe`] returns, per variant.
    pub open spec fn describe_spec(&self) -> Seq<char> {
        match self {
            VaultError::KeyStoreUnavailable => "key store unavailable"@,
            VaultError::InvalidStoredKey => "stored key is invalid"@,
            VaultError::EmptyPassphrase => "passphrase must not be empty"@,
            VaultError::DecryptionFailed => "decryption failed"@,
            VaultError::MissingLegacyStore => "no legacy store to migrate"@,
            VaultError::SchemaInitError => "schema initialisation failed"@,
            VaultError::IoError => "filesystem failure"@,
            VaultError::ArtifactWithoutKey => "encrypted artifact exists but no key is stored"@,
        }
    }
}

} // verus!
