use did_registry::did::DigitalIdentityContract;
use did_registry::hashing::{generate_did, generate_schema_id};
use did_registry::structures::{
    Claim, Claims, Credential, DelegationError, RegistryError, SchemaAttribute, Service,
    ValidationError, VerificationError, VerificationMethod,
};
use did_registry::proofs::{generate_credential_proof, verify_credential, verify_credential_proof};
use did_registry::validation::{is_boolean, is_integer, validate_claims_against_schema};
use did_registry::delegation::verify_delegation;
use did_registry::structures::Delegation;
use did_registry::storage::StorageModule;

fn bytes(s: &str) -> Vec<u8> {
    s.as_bytes().to_vec()
}

fn sample_method(owner: &str) -> VerificationMethod {
    VerificationMethod {
        id: bytes("key-1"),
        type_: bytes("Ed25519VerificationKey2020"),
        controller: bytes(owner),
        public_key_multibase: bytes("zExampleKey"),
    }
}

fn age_schema_attributes() -> Vec<SchemaAttribute> {
    vec![SchemaAttribute {
        name: bytes("age"),
        attribute_type: bytes("claim"),
        required: true,
        data_type: bytes("integer"),
    }]
}

fn age_claims(value: &str) -> Claims {
    Claims {
        data: vec![Claim {
            attribute: bytes("age"),
            value: bytes(value),
            hash: bytes("claim-hash"),
        }],
        merkle_root: bytes("merkle-root-1"),
    }
}

/// A registry with one vetted issuer, ready for schema registration.
fn registry_with_issuer(admin: &str, issuer: &str) -> DigitalIdentityContract {
    let mut contract = DigitalIdentityContract::init(bytes(admin));
    contract
        .register_issuer(&bytes(admin), bytes(issuer))
        .unwrap();
    contract
}

fn registered_age_schema_id(contract: &mut DigitalIdentityContract, issuer: &str) -> Vec<u8> {
    contract
        .register_schema(
            &bytes(issuer),
            bytes("AgeCredential"),
            age_schema_attributes(),
            bytes("1.0"),
        )
        .unwrap();
    generate_schema_id(&bytes("AgeCredential"), &bytes("1.0"))
}

#[test]
fn did_generation_is_deterministic() {
    let a = bytes("erd1owneraddress");
    assert_eq!(generate_did(&a), generate_did(&a));
    let b = bytes("erd1otheraddress");
    assert_ne!(generate_did(&a), generate_did(&b));
}

#[test]
fn did_for_empty_owner_matches_known_digest() {
    // SHA-256 of the empty string, uppercase-hex, behind the method prefix.
    let expected = format!(
        "did:multiversx{}",
        "E3B0C44298FC1C149AFBF4C8996FB92427AE41E4649B934CA495991B7852B855"
    );
    assert_eq!(generate_did(&Vec::new()), expected.as_bytes().to_vec());
}

#[test]
fn schema_id_matches_known_digest() {
    // SHA-256 of "abc" (type "ab", version "c"), uppercase-hex.
    let expected = "BA7816BF8F01CFEA414140DE5DAE2223B00361A396177A9CB410FF61F20015AD";
    assert_eq!(
        generate_schema_id(&bytes("ab"), &bytes("c")),
        expected.as_bytes().to_vec()
    );
}

#[test]
fn second_did_for_same_controller_already_exists() {
    let mut contract = DigitalIdentityContract::init(bytes("admin"));
    let caller = bytes("erd1owneraddress");
    contract
        .create_did(&caller, 100, sample_method("erd1owneraddress"), Vec::new())
        .unwrap();
    let again = contract.create_did(&caller, 200, sample_method("erd1owneraddress"), Vec::new());
    assert_eq!(again, Err(RegistryError::AlreadyExists));
    assert_eq!(contract.storage.did_documents.len(), 1);
}

#[test]
fn create_did_stores_document_and_index() {
    let mut contract = DigitalIdentityContract::init(bytes("admin"));
    let caller = bytes("erd1owneraddress");
    let services = vec![Service {
        id: bytes("svc-1"),
        type_: bytes("LinkedDomains"),
        endpoint: bytes("https://example.test"),
    }];
    contract
        .create_did(&caller, 100, sample_method("erd1owneraddress"), services)
        .unwrap();
    let doc = &contract.storage.did_documents[0];
    assert_eq!(doc.did, generate_did(&caller));
    assert_eq!(doc.controller, caller);
    assert_eq!(doc.verification_methods.len(), 1);
    assert_eq!(doc.authentication, vec![bytes("key-1")]);
    assert_eq!(doc.created, 100);
    assert_eq!(
        contract.storage.address_to_did(&caller),
        Some(generate_did(&caller))
    );
    assert_eq!(contract.storage.address_to_did(&bytes("nobody")), None);
}

#[test]
fn create_did_rejected_while_paused() {
    let mut contract = DigitalIdentityContract::init(bytes("admin"));
    contract.set_paused(&bytes("admin"), true).unwrap();
    assert!(contract.is_paused());
    let r = contract.create_did(
        &bytes("erd1owneraddress"),
        100,
        sample_method("erd1owneraddress"),
        Vec::new(),
    );
    assert_eq!(r, Err(RegistryError::NotAuthorized));
}

#[test]
fn set_paused_is_owner_restricted() {
    let mut contract = DigitalIdentityContract::init(bytes("admin"));
    assert_eq!(
        contract.set_paused(&bytes("stranger"), true),
        Err(RegistryError::NotAuthorized)
    );
    assert!(!contract.is_paused());
}

#[test]
fn register_schema_requires_registered_issuer() {
    let mut contract = DigitalIdentityContract::init(bytes("admin"));
    let r = contract.register_schema(
        &bytes("stranger"),
        bytes("AgeCredential"),
        age_schema_attributes(),
        bytes("1.0"),
    );
    assert_eq!(r, Err(RegistryError::NotAuthorized));
}

#[test]
fn register_schema_twice_already_exists() {
    let mut contract = registry_with_issuer("admin", "issuer");
    registered_age_schema_id(&mut contract, "issuer");
    let again = contract.register_schema(
        &bytes("issuer"),
        bytes("AgeCredential"),
        age_schema_attributes(),
        bytes("1.0"),
    );
    assert_eq!(again, Err(RegistryError::AlreadyExists));
    assert_eq!(contract.storage.credential_schemas.len(), 1);
}

#[test]
fn missing_required_attribute_is_rejected() {
    let schema_attrs = age_schema_attributes();
    let schema = did_registry::structures::CredentialSchema {
        id: bytes("schema-id"),
        type_: bytes("AgeCredential"),
        attributes: schema_attrs,
        issuer: bytes("issuer"),
        version: bytes("1.0"),
    };
    let empty_claims = Claims {
        data: Vec::new(),
        merkle_root: bytes("root"),
    };
    assert_eq!(
        validate_claims_against_schema(&empty_claims, &schema),
        Err(ValidationError::MissingAttribute)
    );
    assert_eq!(
        validate_claims_against_schema(&age_claims("abc"), &schema),
        Err(ValidationError::TypeMismatch)
    );
    assert_eq!(validate_claims_against_schema(&age_claims("30"), &schema), Ok(()));
}

#[test]
fn unsupported_data_type_is_rejected() {
    let schema = did_registry::structures::CredentialSchema {
        id: bytes("schema-id"),
        type_: bytes("AgeCredential"),
        attributes: vec![SchemaAttribute {
            name: bytes("age"),
            attribute_type: bytes("claim"),
            required: true,
            data_type: bytes("decimal"),
        }],
        issuer: bytes("issuer"),
        version: bytes("1.0"),
    };
    assert_eq!(
        validate_claims_against_schema(&age_claims("30"), &schema),
        Err(ValidationError::UnsupportedType)
    );
}

#[test]
fn integer_and_boolean_parsing_edges() {
    assert!(is_integer(&bytes("30")));
    assert!(is_integer(&bytes("-42")));
    assert!(is_integer(&bytes("+7")));
    assert!(is_integer(&bytes("0000000000000000000030")));
    assert!(is_integer(&bytes("9223372036854775807")));
    assert!(is_integer(&bytes("-9223372036854775808")));
    assert!(!is_integer(&bytes("9223372036854775808")));
    assert!(!is_integer(&bytes("-9223372036854775809")));
    assert!(!is_integer(&bytes("abc")));
    assert!(!is_integer(&bytes("")));
    assert!(!is_integer(&bytes("+")));
    assert!(!is_integer(&bytes(" 30")));
    assert!(!is_integer(&bytes("3.5")));
    assert!(is_boolean(&bytes("true")));
    assert!(is_boolean(&bytes("false")));
    assert!(!is_boolean(&bytes("True")));
    assert!(!is_boolean(&bytes("1")));
}

#[test]
fn issued_credential_verifies_and_proof_is_bound() {
    let mut contract = registry_with_issuer("admin", "issuer");
    let schema_id = registered_age_schema_id(&mut contract, "issuer");
    contract
        .issue_credential(
            &bytes("issuer"),
            1_000,
            bytes("holder"),
            vec![bytes("AgeCredential")],
            schema_id,
            age_claims("30"),
            None,
            bytes("encryption-key"),
            None,
        )
        .unwrap();
    let credential = contract.storage.credentials[0].clone();
    assert_eq!(credential.id, 0);
    assert_eq!(credential.content_hash, bytes("merkle-root-1"));
    assert!(verify_credential_proof(&credential));
    assert_eq!(verify_credential(&credential, 2_000), Ok(()));

    // A tampered signature must be rejected.
    let mut tampered = credential.clone();
    tampered.proof.signature[0] = tampered.proof.signature[0].wrapping_add(1);
    assert!(!verify_credential_proof(&tampered));
    assert_eq!(
        verify_credential(&tampered, 2_000),
        Err(VerificationError::InvalidProof)
    );
}

#[test]
fn verify_credential_is_an_and_of_three_checks() {
    let proof = generate_credential_proof(&bytes("issuer"), &bytes("holder"), &bytes("root"), 500);
    let credential = Credential {
        id: 7,
        issuer: bytes("issuer"),
        holder: bytes("holder"),
        credential_type: vec![bytes("AgeCredential")],
        schema_id: bytes("schema"),
        content_hash: bytes("root"),
        claims: Claims {
            data: Vec::new(),
            merkle_root: bytes("root"),
        },
        issuance_date: 500,
        expiration_date: Some(1_000),
        revoked: false,
        delegation_id: None,
        encryption_key: bytes("key"),
        proof,
    };
    assert_eq!(verify_credential(&credential, 900), Ok(()));

    // Expired: the expiration date has passed.
    assert_eq!(
        verify_credential(&credential, 1_001),
        Err(VerificationError::Expired)
    );

    // Revoked wins over everything else.
    let mut revoked = credential.clone();
    revoked.revoked = true;
    assert_eq!(
        verify_credential(&revoked, 900),
        Err(VerificationError::Revoked)
    );

    // Invalid proof: content hash no longer matches the signature.
    let mut mismatched = credential.clone();
    mismatched.content_hash = bytes("other-root");
    assert_eq!(
        verify_credential(&mismatched, 900),
        Err(VerificationError::InvalidProof)
    );
}

#[test]
fn revocation_is_monotone() {
    let mut contract = registry_with_issuer("admin", "issuer");
    let schema_id = registered_age_schema_id(&mut contract, "issuer");
    contract
        .issue_credential(
            &bytes("issuer"),
            1_000,
            bytes("holder"),
            vec![bytes("AgeCredential")],
            schema_id,
            age_claims("30"),
            None,
            bytes("key"),
            None,
        )
        .unwrap();
    assert_eq!(contract.mark_credential_for_deletion(0), Ok(()));
    assert!(contract.storage.credentials[0].revoked);
    assert_eq!(
        contract.mark_credential_for_deletion(0),
        Err(RegistryError::AlreadyRevoked)
    );
    assert!(contract.storage.credentials[0].revoked);
    assert_eq!(
        contract.mark_credential_for_deletion(99),
        Err(RegistryError::NotFound)
    );
}

#[test]
fn delegation_scope_is_all_of() {
    let delegation = Delegation {
        id: 0,
        delegator: bytes("issuer"),
        delegate: bytes("delegate"),
        credential_types: vec![bytes("Y")],
        valid_until: 10_000,
        revoked: false,
    };
    assert_eq!(
        verify_delegation(&delegation, &vec![bytes("X")], 5_000),
        Err(DelegationError::ScopeViolation)
    );
    let wide = Delegation {
        credential_types: vec![bytes("X"), bytes("Y")],
        ..delegation.clone()
    };
    assert_eq!(verify_delegation(&wide, &vec![bytes("X")], 5_000), Ok(()));
    assert_eq!(
        verify_delegation(&wide, &vec![bytes("X")], 10_001),
        Err(DelegationError::Expired)
    );
    let revoked = Delegation {
        revoked: true,
        ..wide.clone()
    };
    assert_eq!(
        verify_delegation(&revoked, &vec![bytes("X")], 5_000),
        Err(DelegationError::Revoked)
    );
}

#[test]
fn delegated_issuance_respects_scope_and_expiry() {
    let mut contract = registry_with_issuer("admin", "issuer");
    contract
        .register_issuer(&bytes("admin"), bytes("delegate"))
        .unwrap();
    let schema_id = registered_age_schema_id(&mut contract, "issuer");
    contract
        .delegate_credential_issuance(&bytes("issuer"), bytes("delegate"), vec![bytes("Y")], 5_000)
        .unwrap();
    contract
        .delegate_credential_issuance(
            &bytes("issuer"),
            bytes("delegate"),
            vec![bytes("X"), bytes("Y")],
            5_000,
        )
        .unwrap();
    assert_eq!(
        contract.storage.delegate_to_delegations(&bytes("delegate")),
        vec![0, 1]
    );

    // Delegation 0 only permits type Y: issuing X under it is a scope violation.
    let narrow = contract.issue_credential(
        &bytes("delegate"),
        1_000,
        bytes("holder"),
        vec![bytes("X")],
        schema_id.clone(),
        age_claims("30"),
        None,
        bytes("key"),
        Some(0),
    );
    assert_eq!(
        narrow,
        Err(RegistryError::Delegation(DelegationError::ScopeViolation))
    );

    // Delegation 1 covers X: the same request succeeds.
    let wide = contract.issue_credential(
        &bytes("delegate"),
        1_000,
        bytes("holder"),
        vec![bytes("X")],
        schema_id.clone(),
        age_claims("30"),
        None,
        bytes("key"),
        Some(1),
    );
    assert_eq!(wide, Ok(()));

    // After valid_until has elapsed the same request fails with expiry.
    let late = contract.issue_credential(
        &bytes("delegate"),
        6_000,
        bytes("holder"),
        vec![bytes("X")],
        schema_id.clone(),
        age_claims("30"),
        None,
        bytes("key"),
        Some(1),
    );
    assert_eq!(
        late,
        Err(RegistryError::Delegation(DelegationError::Expired))
    );

    // An unknown delegation id is NotFound.
    let missing = contract.issue_credential(
        &bytes("delegate"),
        1_000,
        bytes("holder"),
        vec![bytes("X")],
        schema_id,
        age_claims("30"),
        None,
        bytes("key"),
        Some(42),
    );
    assert_eq!(missing, Err(RegistryError::NotFound));
}

#[test]
fn end_to_end_issue_verify_revoke() {
    let mut contract = registry_with_issuer("admin", "issuer");
    let schema_id = registered_age_schema_id(&mut contract, "issuer");
    contract
        .issue_credential(
            &bytes("issuer"),
            1_000,
            bytes("holder"),
            vec![bytes("AgeCredential")],
            schema_id,
            age_claims("30"),
            None,
            bytes("key"),
            None,
        )
        .unwrap();
    let credential = contract.storage.credentials[0].clone();
    assert_eq!(verify_credential(&credential, 1_500), Ok(()));
    contract.mark_credential_for_deletion(0).unwrap();
    let revoked = contract.storage.credentials[0].clone();
    assert_eq!(
        verify_credential(&revoked, 1_500),
        Err(VerificationError::Revoked)
    );
}

#[test]
fn sequential_issuance_yields_increasing_ids() {
    let mut contract = registry_with_issuer("admin", "issuer");
    let schema_id = registered_age_schema_id(&mut contract, "issuer");
    for age in ["30", "31", "32"] {
        contract
            .issue_credential(
                &bytes("issuer"),
                1_000,
                bytes("holder"),
                vec![bytes("AgeCredential")],
                schema_id.clone(),
                age_claims(age),
                None,
                bytes("key"),
                None,
            )
            .unwrap();
    }
    let ids: Vec<u64> = contract.storage.credentials.iter().map(|c| c.id).collect();
    assert_eq!(ids, vec![0, 1, 2]);
    assert_eq!(contract.storage.next_credential_id, 3);
    assert_eq!(
        contract.storage.holder_credentials(&bytes("holder")),
        vec![0, 1, 2]
    );
}

#[test]
fn issue_requires_schema_and_issuer() {
    let mut contract = registry_with_issuer("admin", "issuer");
    let missing_schema = contract.issue_credential(
        &bytes("issuer"),
        1_000,
        bytes("holder"),
        vec![bytes("AgeCredential")],
        bytes("no-such-schema"),
        age_claims("30"),
        None,
        bytes("key"),
        None,
    );
    assert_eq!(missing_schema, Err(RegistryError::NotFound));

    let schema_id = registered_age_schema_id(&mut contract, "issuer");
    let not_issuer = contract.issue_credential(
        &bytes("stranger"),
        1_000,
        bytes("holder"),
        vec![bytes("AgeCredential")],
        schema_id.clone(),
        age_claims("30"),
        None,
        bytes("key"),
        None,
    );
    assert_eq!(not_issuer, Err(RegistryError::NotAuthorized));

    let bad_claims = contract.issue_credential(
        &bytes("issuer"),
        1_000,
        bytes("holder"),
        vec![bytes("AgeCredential")],
        schema_id,
        age_claims("not-a-number"),
        None,
        bytes("key"),
        None,
    );
    assert_eq!(
        bad_claims,
        Err(RegistryError::Validation(ValidationError::TypeMismatch))
    );
    assert!(contract.storage.credentials.is_empty());
}

#[test]
fn data_deletion_revokes_all_holder_credentials() {
    let mut contract = registry_with_issuer("admin", "issuer");
    let schema_id = registered_age_schema_id(&mut contract, "issuer");
    assert_eq!(
        contract.request_data_deletion(&bytes("holder")),
        Err(RegistryError::NotFound)
    );
    for holder in ["holder", "holder", "other"] {
        contract
            .issue_credential(
                &bytes("issuer"),
                1_000,
                bytes(holder),
                vec![bytes("AgeCredential")],
                schema_id.clone(),
                age_claims("30"),
                None,
                bytes("key"),
                None,
            )
            .unwrap();
    }
    assert_eq!(contract.request_data_deletion(&bytes("holder")), Ok(()));
    assert!(contract.storage.credentials[0].revoked);
    assert!(contract.storage.credentials[1].revoked);
    assert!(!contract.storage.credentials[2].revoked);
    assert_eq!(
        contract.request_data_deletion(&bytes("holder")),
        Err(RegistryError::AlreadyRevoked)
    );
}

#[test]
fn storage_starts_empty() {
    let contract = DigitalIdentityContract::init(bytes("admin"));
    let s: &StorageModule = &contract.storage;
    assert!(s.did_documents.is_empty());
    assert!(s.credential_schemas.is_empty());
    assert!(s.credentials.is_empty());
    assert!(s.delegations.is_empty());
    assert_eq!(s.next_credential_id, 0);
    assert_eq!(s.next_delegation_id, 0);
    assert_eq!(s.admin, bytes("admin"));
    assert!(!s.paused);
}
