//! The registry's value objects: DID documents, schemas, credentials,
//! delegations, and the error taxonomy.
//!
//! Identities, identifiers and textual values are byte strings (`Vec<u8>`);
//! timestamps are `u64` seconds; credential and delegation ids are `u64`.

use vstd::prelude::*;

verus! {

/// A named cryptographic key descriptor attached to a DID document.
#[derive(Clone, Debug)]
pub struct VerificationMethod {
    pub id: Vec<u8>,
    pub type_: Vec<u8>,
    pub controller: Vec<u8>,
    pub public_key_multibase: Vec<u8>,
}

/// A service-endpoint descriptor attached to a DID document.
#[derive(Clone, Debug)]
pub struct Service {
    pub id: Vec<u8>,
    pub type_: Vec<u8>,
    pub endpoint: Vec<u8>,
}

/// A DID document. The `did` is immutable after creation and derived from the
/// controller identity.
#[derive(Clone, Debug)]
pub struct DidDocument {
    pub did: Vec<u8>,
    pub controller: Vec<u8>,
    pub verification_methods: Vec<VerificationMethod>,
    pub authentication: Vec<Vec<u8>>,
    pub assertion_method: Vec<Vec<u8>>,
    pub key_agreement: Vec<Vec<u8>>,
    pub service_endpoints: Vec<Service>,
    pub created: u64,
    pub updated: u64,
}

/// A single attribute-value assertion within a credential.
#[derive(Clone, Debug)]
pub struct Claim {
    pub attribute: Vec<u8>,
    pub value: Vec<u8>,
    pub hash: Vec<u8>,
}

/// A claim set together with the Merkle root the caller committed to.
/// The root is supplied by the caller and never recomputed by the registry.
#[derive(Clone, Debug)]
pub struct Claims {
    pub data: Vec<Claim>,
    pub merkle_root: Vec<u8>,
}

/// The proof recorded on a credential: a hex-encoded digest binding issuer,
/// holder, content hash and creation timestamp.
#[derive(Clone, Debug)]
pub struct CredentialProof {
    pub type_: Vec<u8>,
    pub created: u64,
    pub verification_method: Vec<u8>,
    pub signature: Vec<u8>,
}

/// One attribute definition within a credential schema.
#[derive(Clone, Debug)]
pub struct SchemaAttribute {
    pub name: Vec<u8>,
    pub attribute_type: Vec<u8>,
    pub required: bool,
    pub data_type: Vec<u8>,
}

/// A registered credential schema, immutable after registration.
#[derive(Clone, Debug)]
pub struct CredentialSchema {
    pub id: Vec<u8>,
    pub type_: Vec<u8>,
    pub attributes: Vec<SchemaAttribute>,
    pub issuer: Vec<u8>,
    pub version: Vec<u8>,
}

/// An issued credential. `revoked` is the only mutable field and flips one
/// way, from `false` to `true`.
#[derive(Clone, Debug)]
pub struct Credential {
    pub id: u64,
    pub issuer: Vec<u8>,
    pub holder: Vec<u8>,
    pub credential_type: Vec<Vec<u8>>,
    pub schema_id: Vec<u8>,
    pub content_hash: Vec<u8>,
    pub claims: Claims,
    pub issuance_date: u64,
    pub expiration_date: Option<u64>,
    pub revoked: bool,
    pub delegation_id: Option<u64>,
    pub encryption_key: Vec<u8>,
    pub proof: CredentialProof,
}

/// A grant of issuance authority, scoped to an allow-list of credential types
/// and an expiry. `revoked` flips one way, from `false` to `true`.
#[derive(Clone, Debug)]
pub struct Delegation {
    pub id: u64,
    pub delegator: Vec<u8>,
    pub delegate: Vec<u8>,
    pub credential_types: Vec<Vec<u8>>,
    pub valid_until: u64,
    pub revoked: bool,
}

/// Why a claim set failed schema validation.
#[derive(Clone, Copy, Debug, PartialEq, Eq, Structural)]
pub enum ValidationError {
    MissingAttribute,
    TypeMismatch,
    UnsupportedType,
}

/// Why a credential failed verification.
#[derive(Clone, Copy, Debug, PartialEq, Eq, Structural)]
pub enum VerificationError {
    Revoked,
    Expired,
    InvalidProof,
}

/// Why an issuance attempt was not covered by a delegation.
#[derive(Clone, Copy, Debug, PartialEq, Eq, Structural)]
pub enum DelegationError {
    Revoked,
    Expired,
    ScopeViolation,
}

/// Why a registry operation aborted. No partial state is committed on error.
#[derive(Clone, Copy, Debug, PartialEq, Eq, Structural)]
pub enum RegistryError {
    AlreadyExists,
    NotFound,
    NotAuthorized,
    AlreadyRevoked,
    Validation(ValidationError),
    Delegation(DelegationError),
}

} // verus!
