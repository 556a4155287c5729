//! A patch engine for versioned game content: a declared changeset (files
//! added, removed and modified between two builds) and an authoritative
//! checksum manifest drive the verification of a directory's contents and
//! a backup-then-copy-then-remove update of the installation.
//!
//! The crate decides; reading and writing the filesystem, and the prompt
//! around it, are the embedding program's job.

pub mod changes;
pub mod hashing;
pub mod manifest;
pub mod settings;
pub mod text;
pub mod updater;
pub mod verify;
