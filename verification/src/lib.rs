//! A decentralized-identity and verifiable-credential registry.
//!
//! The library derives deterministic identifiers (DIDs, schema ids), validates
//! claim sets against registered schemas, constructs and verifies credential
//! proofs, checks delegation scope, and drives the registry state machine that
//! ties these together.

pub mod bytes;
pub mod delegation;
pub mod did;
pub mod hashing;
pub mod proofs;
pub mod storage;
pub mod structures;
pub mod validation;
