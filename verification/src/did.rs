//! Registry state machine: DID creation, schema registration, credential
//! issuance (optionally under a delegation), delegation grants, and
//! deletion-marking. Every operation is all-or-nothing: on any error the
//! state is unchanged.
//!
//! The caller identity and the current timestamp are ambient context supplied
//! by the host with each call; event emission and issuer vetting policy are
//! host concerns as well.

use vstd::prelude::*;

use crate::bytes::{bytes_eq, clone_bytes, contains_bytes};
use crate::delegation::{delegation_check, verify_delegation};
use crate::hashing::{did_of, generate_did, generate_schema_id, schema_id_of};
use crate::proofs::{generate_credential_proof, proof_type_tag, proof_signature_of, proof_valid,
    revoke_credential};
use crate::storage::{find_credential, find_delegation, find_schema, find_credential_index,
    find_delegation_index, find_did_index, find_schema_index, StorageModule};
use crate::structures::{Claim, Claims, Credential, CredentialSchema, Delegation, DidDocument,
    RegistryError, SchemaAttribute, Service, VerificationMethod};
use crate::validation::{validate_claims_against_schema, validate_result};

verus! {

/// The registry contract: the persisted state plus the operations on it.
pub struct DigitalIdentityContract {
    pub storage: StorageModule,
}

/// What remains to admit an issuance once the caller is authorized:
/// the schema must exist and the claim set must validate against it.
pub open spec fn schema_admission(
    s: StorageModule,
    schema_id: Seq<u8>,
    claims_data: Seq<Claim>,
) -> Result<(), RegistryError> {
    match find_schema(s.credential_schemas@, schema_id) {
        Option::None => Err(RegistryError::NotFound),
        Option::Some(schema) => match validate_result(claims_data, schema.attributes@) {
            Option::Some(e) => Err(RegistryError::Validation(e)),
            Option::None => Ok(()),
        },
    }
}

/// Everything that can reject a credential issuance, in check order: pause,
/// issuer registration, the delegation (when issuing under one), the schema,
/// and claim validation.
pub open spec fn issuance_admission(
    s: StorageModule,
    caller: Seq<u8>,
    requested: Seq<Seq<u8>>,
    schema_id: Seq<u8>,
    claims_data: Seq<Claim>,
    delegation_id: Option<u64>,
    now: u64,
) -> Result<(), RegistryError> {
    if s.paused {
        Err(RegistryError::NotAuthorized)
    } else if !s.is_issuer(caller) {
        Err(RegistryError::NotAuthorized)
    } else {
        match delegation_id {
            Option::Some(id) => match find_delegation(s.delegations@, id) {
                Option::None => Err(RegistryError::NotFound),
                Option::Some(d) => match delegation_check(d, requested, now) {
                    Result::Err(e) => Err(RegistryError::Delegation(e)),
                    Result::Ok(_) => schema_admission(s, schema_id, claims_data),
                },
            },
            Option::None => schema_admission(s, schema_id, claims_data),
        }
    }
}

impl DigitalIdentityContract {
    /// Well-formedness of the whole registry.
    pub open spec fn wf(self) -> bool {
        self.storage.wf()
    }

    /// A fresh registry owned by `admin`: unpaused, no issuers, no documents,
    /// no schemas, no credentials, no delegations, both counters at zero.
    pub fn init(admin: Vec<u8>) -> (c: DigitalIdentityContract)
        ensures
            c.wf(),
            c.storage.admin == admin,
            !c.storage.paused,
            c.storage.issuers@.len() == 0,
            c.storage.did_documents@.len() == 0,
            c.storage.credential_schemas@.len() == 0,
            c.storage.credentials@.len() == 0,
            c.storage.next_credential_id == 0,
            c.storage.delegations@.len() == 0,
            c.storage.next_delegation_id == 0,
    {
        DigitalIdentityContract {
            storage: StorageModule {
                admin,
                paused: false,
                issuers: Vec::new(),
                did_documents: Vec::new(),
                credential_schemas: Vec::new(),
                credentials: Vec::new(),
                next_credential_id: 0,
                delegations: Vec::new(),
                next_delegation_id: 0,
            },
        }
    }

    /// Whether the registry is paused.
    pub fn is_paused(&self) -> (r: bool)
        ensures
            r == self.storage.paused,
    {
        self.storage.paused
    }

    /// Sets the pause flag. Owner-restricted: only the admin may call it.
    pub fn set_paused(&mut self, caller: &Vec<u8>, paused: bool) -> (r: Result<(), RegistryError>)
        requires
            old(self).wf(),
        ensures
            final(self).wf(),
            ({
                let s = old(self).storage;
                if caller@ != s.admin@ {
                    r == Err::<(), RegistryError>(RegistryError::NotAuthorized) && *final(self)
                        == *old(self)
                } else {
                    &&& r is Ok
                    &&& final(self).storage == (StorageModule { paused, ..s })
                }
            }),
    {
        if !bytes_eq(caller, &self.storage.admin) {
            return Err(RegistryError::NotAuthorized);
        }
        self.storage.paused = paused;
        Ok(())
    }

    /// Registers an account as an issuer. Owner-restricted: only the admin
    /// may vet issuers.
    pub fn register_issuer(&mut self, caller: &Vec<u8>, issuer: Vec<u8>) -> (r: Result<
        (),
        RegistryError,
    >)
        requires
            old(self).wf(),
        ensures
            final(self).wf(),
            ({
                let s = old(self).storage;
                if caller@ != s.admin@ {
                    r == Err::<(), RegistryError>(RegistryError::NotAuthorized) && *final(self)
                        == *old(self)
                } else {
                    &&& r is Ok
                    &&& final(self).storage == (StorageModule {
                        issuers: final(self).storage.issuers,
                        ..s
                    })
                    &&& final(self).storage.issuers@ == s.issuers@.push(issuer)
                }
            }),
    {
        if !bytes_eq(caller, &self.storage.admin) {
            return Err(RegistryError::NotAuthorized);
        }
        self.storage.issuers.push(issuer);
        Ok(())
    }

    /// Establishes the caller's DID document. The DID is derived from the
    /// caller identity; a second document for the same controller (or any
    /// DID collision) is rejected with `AlreadyExists`, and nothing changes.
    pub fn create_did(
        &mut self,
        caller: &Vec<u8>,
        now: u64,
        verification_method: VerificationMethod,
        services: Vec<Service>,
    ) -> (r: Result<(), RegistryError>)
        requires
            old(self).wf(),
        ensures
            final(self).wf(),
            ({
                let s = old(self).storage;
                if s.paused {
                    r == Err::<(), RegistryError>(RegistryError::NotAuthorized) && *final(self)
                        == *old(self)
                } else if s.has_did(did_of(caller@)) {
                    r == Err::<(), RegistryError>(RegistryError::AlreadyExists) && *final(self)
                        == *old(self)
                } else {
                    &&& r is Ok
                    &&& final(self).storage == (StorageModule {
                        did_documents: final(self).storage.did_documents,
                        ..s
                    })
                    &&& final(self).storage.did_documents@ == s.did_documents@.push(
                        final(self).storage.did_documents@.last(),
                    )
                    &&& ({
                        let d = final(self).storage.did_documents@.last();
                        &&& d.did@ == did_of(caller@)
                        &&& d.controller@ == caller@
                        &&& d.verification_methods@ == seq![verification_method]
                        &&& d.authentication.deep_view() == seq![verification_method.id@]
                        &&& d.assertion_method@.len() == 0
                        &&& d.key_agreement@.len() == 0
                        &&& d.service_endpoints == services
                        &&& d.created == now
                        &&& d.updated == now
                    })
                }
            }),
            // one DID per controlling account: a second document for the
            // same controller is always refused
            !old(self).storage.paused && old(self).storage.has_controller(caller@) ==> r == Err::<
                (),
                RegistryError,
            >(RegistryError::AlreadyExists),
    {
        if self.storage.paused {
            return Err(RegistryError::NotAuthorized);
        }
        let did = generate_did(caller);
        match find_did_index(&self.storage.did_documents, &did) {
            Some(_) => {
                return Err(RegistryError::AlreadyExists);
            },
            None => {},
        }
        proof {
            if old(self).storage.has_controller(caller@) {
                let j = choose|j: int|
                    0 <= j < old(self).storage.did_documents@.len()
                        && old(self).storage.did_documents@[j].controller@ == caller@;
                assert(old(self).storage.did_documents@[j].did@ == did_of(caller@));
                assert(false);
            }
        }
        let mut authentication: Vec<Vec<u8>> = Vec::new();
        authentication.push(clone_bytes(&verification_method.id));
        proof {
            assert(authentication.deep_view() =~~= seq![verification_method.id@]);
        }
        let mut verification_methods: Vec<VerificationMethod> = Vec::new();
        verification_methods.push(verification_method);
        let document = DidDocument {
            did,
            controller: clone_bytes(caller),
            verification_methods,
            authentication,
            assertion_method: Vec::new(),
            key_agreement: Vec::new(),
            service_endpoints: services,
            created: now,
            updated: now,
        };
        self.storage.did_documents.push(document);
        proof {
            assert(self.storage.did_documents@.last().verification_methods@ =~= seq![
                verification_method,
            ]);
        }
        Ok(())
    }

    /// Registers a credential schema. Only registered issuers may register;
    /// the schema id is derived from the (type, version) pair, and a clash —
    /// same pair again, or a digest collision — is rejected with
    /// `AlreadyExists`, leaving the state unchanged.
    pub fn register_schema(
        &mut self,
        caller: &Vec<u8>,
        type_: Vec<u8>,
        attributes: Vec<SchemaAttribute>,
        version: Vec<u8>,
    ) -> (r: Result<(), RegistryError>)
        requires
            old(self).wf(),
        ensures
            final(self).wf(),
            ({
                let s = old(self).storage;
                if s.paused {
                    r == Err::<(), RegistryError>(RegistryError::NotAuthorized) && *final(self)
                        == *old(self)
                } else if !s.is_issuer(caller@) {
                    r == Err::<(), RegistryError>(RegistryError::NotAuthorized) && *final(self)
                        == *old(self)
                } else if find_schema(s.credential_schemas@, schema_id_of(type_@, version@))
                    is Some {
                    r == Err::<(), RegistryError>(RegistryError::AlreadyExists) && *final(self)
                        == *old(self)
                } else {
                    &&& r is Ok
                    &&& final(self).storage == (StorageModule {
                        credential_schemas: final(self).storage.credential_schemas,
                        ..s
                    })
                    &&& final(self).storage.credential_schemas@ == s.credential_schemas@.push(
                        final(self).storage.credential_schemas@.last(),
                    )
                    &&& ({
                        let schema = final(self).storage.credential_schemas@.last();
                        &&& schema.id@ == schema_id_of(type_@, version@)
                        &&& schema.type_ == type_
                        &&& schema.attributes == attributes
                        &&& schema.issuer@ == caller@
                        &&& schema.version == version
                    })
                }
            }),
    {
        if self.storage.paused {
            return Err(RegistryError::NotAuthorized);
        }
        if !contains_bytes(&self.storage.issuers, caller) {
            return Err(RegistryError::NotAuthorized);
        }
        let schema_id = generate_schema_id(&type_, &version);
        match find_schema_index(&self.storage.credential_schemas, &schema_id) {
            Some(_) => {
                return Err(RegistryError::AlreadyExists);
            },
            None => {},
        }
        let schema = CredentialSchema { id: schema_id, type_, attributes, issuer: clone_bytes(
            caller,
        ), version };
        self.storage.credential_schemas.push(schema);
        Ok(())
    }

    /// Allocates the next credential id: returns the counter's current value
    /// and advances the counter by one. Being the sole allocator, it hands
    /// out strictly increasing, never-repeating ids.
    pub fn generate_credential_id(&mut self) -> (id: u64)
        requires
            old(self).wf(),
            old(self).storage.next_credential_id < u64::MAX,
        ensures
            final(self).wf(),
            id == old(self).storage.next_credential_id,
            final(self).storage == (StorageModule {
                next_credential_id: final(self).storage.next_credential_id,
                ..old(self).storage
            }),
            final(self).storage.next_credential_id == id + 1,
    {
        let counter = self.storage.next_credential_id;
        self.storage.next_credential_id = counter + 1;
        counter
    }

    /// Issues a credential against a registered schema, optionally under a
    /// delegation. The claim set must validate against the schema; the new
    /// credential takes the next counter id, carries the caller-supplied
    /// Merkle root as its content hash, and is proved by the canonical
    /// digest signature, so it verifies at issuance time.
    pub fn issue_credential(
        &mut self,
        caller: &Vec<u8>,
        now: u64,
        holder: Vec<u8>,
        credential_type: Vec<Vec<u8>>,
        schema_id: Vec<u8>,
        claims: Claims,
        expiration_date: Option<u64>,
        encryption_key: Vec<u8>,
        delegation_id: Option<u64>,
    ) -> (r: Result<(), RegistryError>)
        requires
            old(self).wf(),
            old(self).storage.next_credential_id < u64::MAX,
        ensures
            final(self).wf(),
            ({
                let s = old(self).storage;
                match issuance_admission(
                    s,
                    caller@,
                    credential_type.deep_view(),
                    schema_id@,
                    claims.data@,
                    delegation_id,
                    now,
                ) {
                    Result::Err(e) => r == Err::<(), RegistryError>(e) && *final(self) == *old(
                        self,
                    ),
                    Result::Ok(_) => {
                        &&& r is Ok
                        &&& final(self).storage == (StorageModule {
                            credentials: final(self).storage.credentials,
                            next_credential_id: final(self).storage.next_credential_id,
                            ..s
                        })
                        &&& final(self).storage.next_credential_id == s.next_credential_id + 1
                        &&& final(self).storage.credentials@ == s.credentials@.push(
                            final(self).storage.credentials@.last(),
                        )
                        &&& ({
                            let c = final(self).storage.credentials@.last();
                            &&& c.id == s.next_credential_id
                            &&& c.issuer@ == caller@
                            &&& c.holder == holder
                            &&& c.credential_type == credential_type
                            &&& c.schema_id == schema_id
                            &&& c.content_hash@ == claims.merkle_root@
                            &&& c.claims == claims
                            &&& c.issuance_date == now
                            &&& c.expiration_date == expiration_date
                            &&& !c.revoked
                            &&& c.delegation_id == delegation_id
                            &&& c.encryption_key == encryption_key
                            &&& c.proof.type_@ == proof_type_tag()
                            &&& c.proof.created == now
                            &&& c.proof.verification_method@ == caller@
                            &&& c.proof.signature@ == proof_signature_of(
                                caller@,
                                holder@,
                                claims.merkle_root@,
                                now,
                            )
                            &&& proof_valid(c)
                        })
                    },
                }
            }),
    {
        if self.storage.paused {
            return Err(RegistryError::NotAuthorized);
        }
        if !contains_bytes(&self.storage.issuers, caller) {
            return Err(RegistryError::NotAuthorized);
        }
        if let Some(d_id) = delegation_id {
            match find_delegation_index(&self.storage.delegations, d_id) {
                None => {
                    return Err(RegistryError::NotFound);
                },
                Some(di) => {
                    match verify_delegation(&self.storage.delegations[di], &credential_type, now) {
                        Err(e) => {
                            return Err(RegistryError::Delegation(e));
                        },
                        Ok(_) => {},
                    }
                },
            }
        }
        let si = match find_schema_index(&self.storage.credential_schemas, &schema_id) {
            None => {
                return Err(RegistryError::NotFound);
            },
            Some(si) => si,
        };
        match validate_claims_against_schema(&claims, &self.storage.credential_schemas[si]) {
            Err(e) => {
                return Err(RegistryError::Validation(e));
            },
            Ok(_) => {},
        }
        let credential_id = self.generate_credential_id();
        let proof = generate_credential_proof(caller, &holder, &claims.merkle_root, now);
        let credential = Credential {
            id: credential_id,
            issuer: clone_bytes(caller),
            holder,
            credential_type,
            schema_id,
            content_hash: clone_bytes(&claims.merkle_root),
            claims,
            issuance_date: now,
            expiration_date,
            revoked: false,
            delegation_id,
            encryption_key,
            proof,
        };
        self.storage.credentials.push(credential);
        Ok(())
    }

    /// Grants issuance authority over `credential_types` to `delegate` until
    /// `valid_until`. Only registered issuers may delegate; the delegation
    /// takes the next counter id.
    pub fn delegate_credential_issuance(
        &mut self,
        caller: &Vec<u8>,
        delegate: Vec<u8>,
        credential_types: Vec<Vec<u8>>,
        valid_until: u64,
    ) -> (r: Result<(), RegistryError>)
        requires
            old(self).wf(),
            old(self).storage.next_delegation_id < u64::MAX,
        ensures
            final(self).wf(),
            ({
                let s = old(self).storage;
                if s.paused {
                    r == Err::<(), RegistryError>(RegistryError::NotAuthorized) && *final(self)
                        == *old(self)
                } else if !s.is_issuer(caller@) {
                    r == Err::<(), RegistryError>(RegistryError::NotAuthorized) && *final(self)
                        == *old(self)
                } else {
                    &&& r is Ok
                    &&& final(self).storage == (StorageModule {
                        delegations: final(self).storage.delegations,
                        next_delegation_id: final(self).storage.next_delegation_id,
                        ..s
                    })
                    &&& final(self).storage.next_delegation_id == s.next_delegation_id + 1
                    &&& final(self).storage.delegations@ == s.delegations@.push(
                        final(self).storage.delegations@.last(),
                    )
                    &&& ({
                        let d = final(self).storage.delegations@.last();
                        &&& d.id == s.next_delegation_id
                        &&& d.delegator@ == caller@
                        &&& d.delegate == delegate
                        &&& d.credential_types == credential_types
                        &&& d.valid_until == valid_until
                        &&& !d.revoked
                    })
                }
            }),
    {
        if self.storage.paused {
            return Err(RegistryError::NotAuthorized);
        }
        if !contains_bytes(&self.storage.issuers, caller) {
            return Err(RegistryError::NotAuthorized);
        }
        let delegation_id = self.storage.next_delegation_id;
        let delegation = Delegation {
            id: delegation_id,
            delegator: clone_bytes(caller),
            delegate,
            credential_types,
            valid_until,
            revoked: false,
        };
        self.storage.delegations.push(delegation);
        self.storage.next_delegation_id = delegation_id + 1;
        Ok(())
    }

    /// Marks one credential revoked. Revocation is monotone: a credential
    /// that is already revoked is rejected with `AlreadyRevoked`, and no
    /// operation ever sets `revoked` back to false.
    pub fn mark_credential_for_deletion(&mut self, credential_id: u64) -> (r: Result<
        (),
        RegistryError,
    >)
        requires
            old(self).wf(),
        ensures
            final(self).wf(),
            ({
                let s = old(self).storage;
                match find_credential(s.credentials@, credential_id) {
                    Option::None => r == Err::<(), RegistryError>(RegistryError::NotFound)
                        && *final(self) == *old(self),
                    Option::Some(c) => if c.revoked {
                        &&& r == Err::<(), RegistryError>(RegistryError::AlreadyRevoked)
                        &&& *final(self) == *old(self)
                    } else {
                        &&& r is Ok
                        &&& final(self).storage == (StorageModule {
                            credentials: final(self).storage.credentials,
                            ..s
                        })
                        &&& final(self).storage.credentials@.len() == s.credentials@.len()
                        &&& forall|j: int|
                            0 <= j < s.credentials@.len() && s.credentials@[j].id != credential_id
                                ==> final(self).storage.credentials@[j] == s.credentials@[j]
                        &&& forall|j: int|
                            0 <= j < s.credentials@.len() && s.credentials@[j].id == credential_id
                                ==> final(self).storage.credentials@[j] == (Credential {
                                revoked: true,
                                ..s.credentials@[j]
                            })
                    },
                }
            }),
            // monotonicity: whatever the outcome, revoked credentials stay revoked
            forall|j: int|
                (0 <= j < old(self).storage.credentials@.len()
                    && old(self).storage.credentials@[j].revoked)
                    ==> final(self).storage.credentials@[j].revoked,
    {
        match find_credential_index(&self.storage.credentials, credential_id) {
            None => Err(RegistryError::NotFound),
            Some(i) => {
                if self.storage.credentials[i].revoked {
                    return Err(RegistryError::AlreadyRevoked);
                }
                let mut credential = self.storage.credentials.remove(i);
                revoke_credential(&mut credential);
                self.storage.credentials.insert(i, credential);
                proof {
                    let pre = old(self).storage.credentials@;
                    let post = self.storage.credentials@;
                    assert(post =~= pre.update(i as int, (Credential {
                        revoked: true,
                        ..pre[i as int]
                    })));
                    assert forall|j: int|
                        0 <= j < pre.len() && pre[j].id == credential_id implies j == i as int by {
                        if j != i as int {
                            assert(pre[j].id != pre[i as int].id);
                        }
                    }
                }
                Ok(())
            },
        }
    }

    /// Right-to-erasure request: marks every credential held by the caller
    /// revoked, all-or-nothing. A holder without credentials is rejected
    /// with `NotFound`; if any held credential is already revoked the whole
    /// request is rejected with `AlreadyRevoked` and nothing changes.
    pub fn request_data_deletion(&mut self, caller: &Vec<u8>) -> (r: Result<(), RegistryError>)
        requires
            old(self).wf(),
        ensures
            final(self).wf(),
            ({
                let s = old(self).storage;
                if !s.holder_has_credential(caller@) {
                    r == Err::<(), RegistryError>(RegistryError::NotFound) && *final(self) == *old(
                        self,
                    )
                } else if s.holder_has_revoked_credential(caller@) {
                    r == Err::<(), RegistryError>(RegistryError::AlreadyRevoked) && *final(self)
                        == *old(self)
                } else {
                    &&& r is Ok
                    &&& final(self).storage == (StorageModule {
                        credentials: final(self).storage.credentials,
                        ..s
                    })
                    &&& final(self).storage.credentials@.len() == s.credentials@.len()
                    &&& forall|j: int|
                        0 <= j < s.credentials@.len() && s.credentials@[j].holder@ == caller@
                            ==> final(self).storage.credentials@[j] == (Credential {
                            revoked: true,
                            ..s.credentials@[j]
                        })
                    &&& forall|j: int|
                        0 <= j < s.credentials@.len() && s.credentials@[j].holder@ != caller@
                            ==> final(self).storage.credentials@[j] == s.credentials@[j]
                }
            }),
    {
        let n = self.storage.credentials.len();
        let mut has_any = false;
        let mut has_revoked = false;
        let mut i: usize = 0;
        while i < n
            invariant
                0 <= i <= n,
                n == self.storage.credentials@.len(),
                has_any == exists|j: int|
                    0 <= j < i && self.storage.credentials@[j].holder@ == caller@,
                has_revoked == exists|j: int|
                    0 <= j < i && self.storage.credentials@[j].holder@ == caller@
                        && self.storage.credentials@[j].revoked,
            decreases n - i,
        {
            if bytes_eq(&self.storage.credentials[i].holder, caller) {
                has_any = true;
                if self.storage.credentials[i].revoked {
                    has_revoked = true;
                }
            }
            i += 1;
        }
        if !has_any {
            return Err(RegistryError::NotFound);
        }
        if has_revoked {
            return Err(RegistryError::AlreadyRevoked);
        }
        let mut k: usize = 0;
        while k < n
            invariant
                0 <= k <= n,
                n == self.storage.credentials@.len(),
                old(self).storage.credentials@.len() == n,
                self.storage == (StorageModule {
                    credentials: self.storage.credentials,
                    ..old(self).storage
                }),
                forall|j: int|
                    k <= j < n ==> self.storage.credentials@[j] == old(
                        self,
                    ).storage.credentials@[j],
                forall|j: int|
                    0 <= j < k && old(self).storage.credentials@[j].holder@ == caller@
                        ==> self.storage.credentials@[j] == (Credential {
                        revoked: true,
                        ..old(self).storage.credentials@[j]
                    }),
                forall|j: int|
                    0 <= j < k && old(self).storage.credentials@[j].holder@ != caller@
                        ==> self.storage.credentials@[j] == old(self).storage.credentials@[j],
            decreases n - k,
        {
            if bytes_eq(&self.storage.credentials[k].holder, caller) {
                let ghost pre = self.storage.credentials@;
                let mut credential = self.storage.credentials.remove(k);
                revoke_credential(&mut credential);
                self.storage.credentials.insert(k, credential);
                proof {
                    assert(self.storage.credentials@ =~= pre.update(k as int, (Credential {
                        revoked: true,
                        ..pre[k as int]
                    })));
                }
            }
            k += 1;
        }
        proof {
            assert forall|a: int, b: int|
                0 <= a < b < self.storage.credentials@.len() implies self.storage.credentials@[a].id
                < self.storage.credentials@[b].id by {
                assert(self.storage.credentials@[a].id == old(self).storage.credentials@[a].id);
                assert(self.storage.credentials@[b].id == old(self).storage.credentials@[b].id);
            }
            assert forall|a: int|
                0 <= a < self.storage.credentials@.len() implies self.storage.credentials@[a].id
                < self.storage.next_credential_id by {
                assert(self.storage.credentials@[a].id == old(self).storage.credentials@[a].id);
            }
        }
        Ok(())
    }
}

/// Credential ids are allocated by a strictly increasing counter: in every
/// well-formed registry state the stored credential ids are strictly
/// increasing in issuance order — hence pairwise distinct — and all lie
/// below the next id to be allocated.
pub proof fn lemma_credential_ids_strictly_increasing(s: StorageModule)
    requires
        s.wf(),
    ensures
        forall|i: int, j: int|
            0 <= i < j < s.credentials@.len() ==> s.credentials@[i].id < s.credentials@[j].id,
        forall|i: int| 0 <= i < s.credentials@.len() ==> s.credentials@[i].id
            < s.next_credential_id,
{
}

} // verus!
