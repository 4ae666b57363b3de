//! A verified multi-chain keystore engine: deterministic key derivation
//! from BIP39 mnemonics, chain-native address computation for Cosmos and
//! Ethereum, passphrase-encrypted at-rest key records, and a crash-safe,
//! name-unique record store, composed into the six operations a key
//! management command layer consumes. Cryptographic primitives are
//! called through a narrow trusted boundary in `crypto`; everything
//! around them is specified and proved.

use vstd::prelude::*;

pub mod adapter;
pub mod codec;
pub mod commands;
pub mod crypto;
pub mod derivation;
pub mod keystore;
pub mod record;
pub mod secret;
pub mod store;

verus! {

/// The errors any keystore operation can report. Secret material never
/// appears in an error.
#[derive(Clone, Copy, PartialEq, Eq, Structural, Debug)]
pub enum KeystoreError {
    /// The system entropy source was unavailable.
    EntropySourceError,
    /// A mnemonic phrase had a wrong word count, an unknown word or a bad
    /// checksum.
    InvalidMnemonic,
    /// A record with the requested name already exists for the chain.
    NameAlreadyExists,
    /// No record with the requested name exists for the chain.
    NotFound,
    /// The passphrase was wrong or the stored secret was corrupted.
    DecryptionFailed,
    /// A stored record failed to parse.
    CorruptRecord,
    /// The underlying storage failed.
    StorageIOError,
}

/// The chains the keystore can hold keys for.
#[derive(Clone, Copy, PartialEq, Eq, Structural, Debug)]
pub enum Chain {
    Cosmos,
    Ethereum,
}

} // verus!
