//! Proof engine: constructs and verifies the proof recorded on a credential.
//!
//! The proof signature is the uppercase hex encoding of the SHA-256 digest of
//! the canonical byte sequence issuer ‖ holder ‖ content hash ‖ big-endian
//! timestamp. Verification recomputes that signature from the credential and
//! compares it with the recorded one; a tampered signature is rejected.

use vstd::prelude::*;

use crate::bytes::{append_bytes, bytes_eq, clone_bytes};
use crate::hashing::{
    be_bytes_of_u64, hex_encode_upper, hex_upper_of, sha256, sha256_of, u64_be_bytes,
};
use crate::structures::{Credential, CredentialProof, VerificationError};

verus! {

/// The byte string `ProofType`, the fixed proof-type tag.
pub open spec fn proof_type_tag() -> Seq<u8> {
    seq![80u8, 114, 111, 111, 102, 84, 121, 112, 101]
}

fn proof_type_bytes() -> (r: Vec<u8>)
    ensures
        r@ == proof_type_tag(),
{
    let mut v: Vec<u8> = Vec::new();
    v.push(80);
    v.push(114);
    v.push(111);
    v.push(111);
    v.push(102);
    v.push(84);
    v.push(121);
    v.push(112);
    v.push(101);
    proof {
        assert(v@ =~= proof_type_tag());
    }
    v
}

/// The canonical byte sequence a proof signs: issuer identity, holder
/// identity, content hash, and the big-endian encoding of the creation
/// timestamp, concatenated in that order.
pub open spec fn proof_message(
    issuer: Seq<u8>,
    holder: Seq<u8>,
    content_hash: Seq<u8>,
    created: u64,
) -> Seq<u8> {
    issuer + holder + content_hash + u64_be_bytes(created)
}

/// The signature a well-formed proof carries: the uppercase hex encoding of
/// the SHA-256 digest of the canonical byte sequence.
pub open spec fn proof_signature_of(
    issuer: Seq<u8>,
    holder: Seq<u8>,
    content_hash: Seq<u8>,
    created: u64,
) -> Seq<u8> {
    hex_upper_of(sha256_of(proof_message(issuer, holder, content_hash, created)))
}

fn proof_message_bytes(issuer: &Vec<u8>, holder: &Vec<u8>, content_hash: &Vec<u8>, created: u64) -> (r:
    Vec<u8>)
    ensures
        r@ == proof_message(issuer@, holder@, content_hash@, created),
{
    let mut data: Vec<u8> = Vec::new();
    append_bytes(&mut data, issuer);
    append_bytes(&mut data, holder);
    append_bytes(&mut data, content_hash);
    let created_bytes = be_bytes_of_u64(created);
    append_bytes(&mut data, &created_bytes);
    proof {
        assert(data@ =~= proof_message(issuer@, holder@, content_hash@, created));
    }
    data
}

/// Builds the proof binding issuer, holder, content hash and timestamp.
/// Deterministic given identical inputs.
pub fn generate_credential_proof(
    issuer: &Vec<u8>,
    holder: &Vec<u8>,
    merkle_root: &Vec<u8>,
    created: u64,
) -> (p: CredentialProof)
    ensures
        p.type_@ == proof_type_tag(),
        p.created == created,
        p.verification_method@ == issuer@,
        p.signature@ == proof_signature_of(issuer@, holder@, merkle_root@, created),
{
    let data = proof_message_bytes(issuer, holder, merkle_root, created);
    let digest = sha256(&data);
    let signature = hex_encode_upper(&digest);
    CredentialProof {
        type_: proof_type_bytes(),
        created,
        verification_method: clone_bytes(issuer),
        signature,
    }
}

/// Whether a credential's recorded signature matches the signature derived
/// from its own issuer, holder, content hash and proof timestamp.
pub open spec fn proof_valid(c: Credential) -> bool {
    c.proof.signature@ == proof_signature_of(c.issuer@, c.holder@, c.content_hash@, c.proof.created)
}

/// Verifies a credential's proof by recomputing the canonical digest and
/// comparing it with the recorded signature. Returns false whenever the
/// recorded signature differs from the recomputed one.
pub fn verify_credential_proof(credential: &Credential) -> (r: bool)
    ensures
        r == proof_valid(*credential),
{
    let data = proof_message_bytes(
        &credential.issuer,
        &credential.holder,
        &credential.content_hash,
        credential.proof.created,
    );
    let digest = sha256(&data);
    let expected = hex_encode_upper(&digest);
    bytes_eq(&credential.proof.signature, &expected)
}

/// The composite verification outcome: revocation is checked first, then
/// expiry against the current time, then the proof.
pub open spec fn credential_verification(c: Credential, now: u64) -> Result<
    (),
    VerificationError,
> {
    if c.revoked {
        Err(VerificationError::Revoked)
    } else if c.expiration_date is Some && now > c.expiration_date.unwrap() {
        Err(VerificationError::Expired)
    } else if !proof_valid(c) {
        Err(VerificationError::InvalidProof)
    } else {
        Ok(())
    }
}

/// Composite credential check: succeeds exactly when the credential is not
/// revoked, its expiration date (if set) has not passed, and its proof
/// verifies — an AND of exactly these three independent checks.
pub fn verify_credential(credential: &Credential, now: u64) -> (r: Result<(), VerificationError>)
    ensures
        r == credential_verification(*credential, now),
        r is Ok <==> {
            &&& !credential.revoked
            &&& match credential.expiration_date {
                Some(expiry) => now <= expiry,
                None => true,
            }
            &&& proof_valid(*credential)
        },
{
    if credential.revoked {
        return Err(VerificationError::Revoked);
    }
    if let Some(expiration_date) = credential.expiration_date {
        if now > expiration_date {
            return Err(VerificationError::Expired);
        }
    }
    if !verify_credential_proof(credential) {
        return Err(VerificationError::InvalidProof);
    }
    Ok(())
}

/// Marks a credential revoked; every other field is unchanged.
pub fn revoke_credential(credential: &mut Credential)
    ensures
        *final(credential) == (Credential { revoked: true, ..*old(credential) }),
{
    credential.revoked = true;
}

} // verus!
