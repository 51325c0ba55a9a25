//! Vault engine for a local-only personal CRM.
//!
//! The engine keeps the relational store encrypted at rest: one canonical
//! encrypted artifact on disk, a 256-bit vault key held in the operating
//! system's credential store, a transient decrypted working copy while the
//! vault is open, and versioned backups of the artifact after every flush.
//!
//! The crate is organised leaves first:
//! - [`errors`] — the error taxonomy and setup states;
//! - [`cipher`] — authenticated encryption of byte buffers and the artifact
//!   wire format `nonce || ciphertext || tag`;
//! - [`keys`] — key derivation, random keys, and the encoding used to park
//!   the key in the credential store;
//! - [`backup`] — backup naming and the retention (pruning) rule;
//! - [`vault`] — the lifecycle controller: the startup state machine,
//!   setup and migration actions, flush, and restore from a sync folder;
//! - [`text`] — small text helpers shared with the surrounding application
//!   (validation, normalisation, edit distance);
//! - [`records`] — the plain record types the surrounding application
//!   exchanges with its store.

pub mod backup;
pub mod cipher;
pub mod errors;
pub mod keys;
pub mod records;
pub mod text;
pub mod vault;
