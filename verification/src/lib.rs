//! Passphrase-based file obfuscation: a payload is wrapped in random padding
//! and sealed under two layers of authenticated symmetric encryption whose
//! keys and nonces are derived deterministically from the passphrase.
//!
//! The derivation uses fixed nonces and constant base patterns; that is part
//! of the on-disk format this crate keeps, not a sound cryptographic design.

pub mod args;
pub mod secretbox;
