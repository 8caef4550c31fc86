//! The registry's persisted state: one struct whose fields are the stored
//! maps and counters, with its well-formedness invariant and lookups.
//!
//! Documents are keyed by DID, schemas by derived id, credentials and
//! delegations by counter-allocated numeric id. The derived indexes of the
//! caller-facing surface (holder credentials, delegate delegations,
//! address-to-DID) are computed from the stored entries, whose order is
//! insertion order.

use vstd::prelude::*;

use crate::bytes::{bytes_eq, clone_bytes};
use crate::hashing::did_of;
use crate::structures::{Credential, CredentialSchema, Delegation, DidDocument};

verus! {

/// The persisted registry state.
pub struct StorageModule {
    pub admin: Vec<u8>,
    pub paused: bool,
    pub issuers: Vec<Vec<u8>>,
    pub did_documents: Vec<DidDocument>,
    pub credential_schemas: Vec<CredentialSchema>,
    pub credentials: Vec<Credential>,
    pub next_credential_id: u64,
    pub delegations: Vec<Delegation>,
    pub next_delegation_id: u64,
}

/// The first schema with the given id, if any.
pub open spec fn find_schema(schemas: Seq<CredentialSchema>, id: Seq<u8>) -> Option<
    CredentialSchema,
>
    decreases schemas.len(),
{
    if schemas.len() == 0 {
        Option::None
    } else if schemas[0].id@ == id {
        Option::Some(schemas[0])
    } else {
        find_schema(schemas.drop_first(), id)
    }
}

/// The first credential with the given id, if any.
pub open spec fn find_credential(credentials: Seq<Credential>, id: u64) -> Option<Credential>
    decreases credentials.len(),
{
    if credentials.len() == 0 {
        Option::None
    } else if credentials[0].id == id {
        Option::Some(credentials[0])
    } else {
        find_credential(credentials.drop_first(), id)
    }
}

/// The first delegation with the given id, if any.
pub open spec fn find_delegation(delegations: Seq<Delegation>, id: u64) -> Option<Delegation>
    decreases delegations.len(),
{
    if delegations.len() == 0 {
        Option::None
    } else if delegations[0].id == id {
        Option::Some(delegations[0])
    } else {
        find_delegation(delegations.drop_first(), id)
    }
}

/// The ids of the credentials held by `holder`, in issuance order.
pub open spec fn holder_ids(credentials: Seq<Credential>, holder: Seq<u8>) -> Seq<u64>
    decreases credentials.len(),
{
    if credentials.len() == 0 {
        Seq::empty()
    } else if credentials.last().holder@ == holder {
        holder_ids(credentials.drop_last(), holder).push(credentials.last().id)
    } else {
        holder_ids(credentials.drop_last(), holder)
    }
}

/// The ids of the delegations granted to `delegate`, in grant order.
pub open spec fn delegate_ids(delegations: Seq<Delegation>, delegate: Seq<u8>) -> Seq<u64>
    decreases delegations.len(),
{
    if delegations.len() == 0 {
        Seq::empty()
    } else if delegations.last().delegate@ == delegate {
        delegate_ids(delegations.drop_last(), delegate).push(delegations.last().id)
    } else {
        delegate_ids(delegations.drop_last(), delegate)
    }
}

impl StorageModule {
    /// Whether `address` is a registered issuer.
    pub open spec fn is_issuer(self, address: Seq<u8>) -> bool {
        self.issuers.deep_view().contains(address)
    }

    /// Whether a document with this DID is stored.
    pub open spec fn has_did(self, did: Seq<u8>) -> bool {
        exists|i: int| 0 <= i < self.did_documents@.len() && self.did_documents@[i].did@ == did
    }

    /// Whether a document controlled by this account is stored.
    pub open spec fn has_controller(self, controller: Seq<u8>) -> bool {
        exists|i: int|
            0 <= i < self.did_documents@.len() && self.did_documents@[i].controller@ == controller
    }

    /// Whether this holder owns at least one credential.
    pub open spec fn holder_has_credential(self, holder: Seq<u8>) -> bool {
        exists|i: int| 0 <= i < self.credentials@.len() && self.credentials@[i].holder@ == holder
    }

    /// Whether this holder owns a credential that is already revoked.
    pub open spec fn holder_has_revoked_credential(self, holder: Seq<u8>) -> bool {
        exists|i: int|
            0 <= i < self.credentials@.len() && self.credentials@[i].holder@ == holder
                && self.credentials@[i].revoked
    }

    /// Well-formedness: DIDs are unique and derived from their controller;
    /// schema ids are unique; credential and delegation ids are strictly
    /// increasing in storage order and below their counters.
    pub open spec fn wf(self) -> bool {
        &&& forall|i: int, j: int|
            0 <= i < j < self.did_documents@.len() ==> self.did_documents@[i].did@
                != self.did_documents@[j].did@
        &&& forall|i: int|
            0 <= i < self.did_documents@.len() ==> self.did_documents@[i].did@ == did_of(
                self.did_documents@[i].controller@,
            )
        &&& forall|i: int, j: int|
            0 <= i < j < self.credential_schemas@.len() ==> self.credential_schemas@[i].id@
                != self.credential_schemas@[j].id@
        &&& forall|i: int, j: int|
            0 <= i < j < self.credentials@.len() ==> self.credentials@[i].id
                < self.credentials@[j].id
        &&& forall|i: int|
            0 <= i < self.credentials@.len() ==> self.credentials@[i].id
                < self.next_credential_id
        &&& forall|i: int, j: int|
            0 <= i < j < self.delegations@.len() ==> self.delegations@[i].id
                < self.delegations@[j].id
        &&& forall|i: int|
            0 <= i < self.delegations@.len() ==> self.delegations@[i].id
                < self.next_delegation_id
    }

    /// The stored DID for an account, if the account controls one.
    pub fn address_to_did(&self, address: &Vec<u8>) -> (r: Option<Vec<u8>>)
        ensures
            match r {
                Option::Some(did) => exists|i: int|
                    0 <= i < self.did_documents@.len() && self.did_documents@[i].controller@
                        == address@ && self.did_documents@[i].did@ == did@,
                Option::None => !self.has_controller(address@),
            },
    {
        let n = self.did_documents.len();
        let mut i: usize = 0;
        while i < n
            invariant
                0 <= i <= n,
                n == self.did_documents@.len(),
                forall|j: int| 0 <= j < i ==> self.did_documents@[j].controller@ != address@,
            decreases n - i,
        {
            if bytes_eq(&self.did_documents[i].controller, address) {
                return Some(clone_bytes(&self.did_documents[i].did));
            }
            i += 1;
        }
        None
    }

    /// The ids of the credentials held by `holder`, in issuance order.
    pub fn holder_credentials(&self, holder: &Vec<u8>) -> (r: Vec<u64>)
        ensures
            r@ == holder_ids(self.credentials@, holder@),
    {
        let n = self.credentials.len();
        let mut r: Vec<u64> = Vec::new();
        let mut i: usize = 0;
        proof {
            assert(self.credentials@.take(0) =~= Seq::<Credential>::empty());
        }
        while i < n
            invariant
                0 <= i <= n,
                n == self.credentials@.len(),
                r@ == holder_ids(self.credentials@.take(i as int), holder@),
            decreases n - i,
        {
            proof {
                let pre = self.credentials@.take(i as int);
                let post = self.credentials@.take(i + 1);
                assert(post.drop_last() =~= pre);
                assert(post.last() == self.credentials@[i as int]);
            }
            if bytes_eq(&self.credentials[i].holder, holder) {
                r.push(self.credentials[i].id);
            }
            i += 1;
        }
        proof {
            assert(self.credentials@.take(n as int) =~= self.credentials@);
        }
        r
    }

    /// The ids of the delegations granted to `delegate`, in grant order.
    pub fn delegate_to_delegations(&self, delegate: &Vec<u8>) -> (r: Vec<u64>)
        ensures
            r@ == delegate_ids(self.delegations@, delegate@),
    {
        let n = self.delegations.len();
        let mut r: Vec<u64> = Vec::new();
        let mut i: usize = 0;
        proof {
            assert(self.delegations@.take(0) =~= Seq::<Delegation>::empty());
        }
        while i < n
            invariant
                0 <= i <= n,
                n == self.delegations@.len(),
                r@ == delegate_ids(self.delegations@.take(i as int), delegate@),
            decreases n - i,
        {
            proof {
                let pre = self.delegations@.take(i as int);
                let post = self.delegations@.take(i + 1);
                assert(post.drop_last() =~= pre);
                assert(post.last() == self.delegations@[i as int]);
            }
            if bytes_eq(&self.delegations[i].delegate, delegate) {
                r.push(self.delegations[i].id);
            }
            i += 1;
        }
        proof {
            assert(self.delegations@.take(n as int) =~= self.delegations@);
        }
        r
    }
}

proof fn lemma_find_schema_skip(schemas: Seq<CredentialSchema>, id: Seq<u8>, i: int)
    requires
        0 <= i <= schemas.len(),
        forall|j: int| 0 <= j < i ==> schemas[j].id@ != id,
    ensures
        find_schema(schemas, id) == find_schema(schemas.skip(i), id),
    decreases i,
{
    if i > 0 {
        lemma_find_schema_skip(schemas, id, i - 1);
        let s = schemas.skip(i - 1);
        assert(s[0] == schemas[i - 1]);
        assert(s.drop_first() =~= schemas.skip(i));
    } else {
        assert(schemas.skip(0) =~= schemas);
    }
}

proof fn lemma_find_credential_skip(credentials: Seq<Credential>, id: u64, i: int)
    requires
        0 <= i <= credentials.len(),
        forall|j: int| 0 <= j < i ==> credentials[j].id != id,
    ensures
        find_credential(credentials, id) == find_credential(credentials.skip(i), id),
    decreases i,
{
    if i > 0 {
        lemma_find_credential_skip(credentials, id, i - 1);
        let s = credentials.skip(i - 1);
        assert(s[0] == credentials[i - 1]);
        assert(s.drop_first() =~= credentials.skip(i));
    } else {
        assert(credentials.skip(0) =~= credentials);
    }
}

proof fn lemma_find_delegation_skip(delegations: Seq<Delegation>, id: u64, i: int)
    requires
        0 <= i <= delegations.len(),
        forall|j: int| 0 <= j < i ==> delegations[j].id != id,
    ensures
        find_delegation(delegations, id) == find_delegation(delegations.skip(i), id),
    decreases i,
{
    if i > 0 {
        lemma_find_delegation_skip(delegations, id, i - 1);
        let s = delegations.skip(i - 1);
        assert(s[0] == delegations[i - 1]);
        assert(s.drop_first() =~= delegations.skip(i));
    } else {
        assert(delegations.skip(0) =~= delegations);
    }
}

pub(crate) fn find_did_index(documents: &Vec<DidDocument>, did: &Vec<u8>) -> (r: Option<usize>)
    ensures
        match r {
            Option::Some(i) => i < documents@.len() && documents@[i as int].did@ == did@,
            Option::None => forall|j: int| 0 <= j < documents@.len() ==> documents@[j].did@ != did@,
        },
{
    let n = documents.len();
    let mut i: usize = 0;
    while i < n
        invariant
            0 <= i <= n,
            n == documents@.len(),
            forall|j: int| 0 <= j < i ==> documents@[j].did@ != did@,
        decreases n - i,
    {
        if bytes_eq(&documents[i].did, did) {
            return Some(i);
        }
        i += 1;
    }
    None
}

pub(crate) fn find_schema_index(schemas: &Vec<CredentialSchema>, id: &Vec<u8>) -> (r: Option<
    usize,
>)
    ensures
        match r {
            Option::Some(i) => i < schemas@.len() && schemas@[i as int].id@ == id@ && find_schema(
                schemas@,
                id@,
            ) == Option::Some(schemas@[i as int]),
            Option::None => {
                &&& find_schema(schemas@, id@) is None
                &&& forall|j: int| 0 <= j < schemas@.len() ==> schemas@[j].id@ != id@
            },
        },
{
    let n = schemas.len();
    let mut i: usize = 0;
    while i < n
        invariant
            0 <= i <= n,
            n == schemas@.len(),
            forall|j: int| 0 <= j < i ==> schemas@[j].id@ != id@,
        decreases n - i,
    {
        if bytes_eq(&schemas[i].id, id) {
            proof {
                lemma_find_schema_skip(schemas@, id@, i as int);
                assert(schemas@.skip(i as int)[0] == schemas@[i as int]);
            }
            return Some(i);
        }
        i += 1;
    }
    proof {
        lemma_find_schema_skip(schemas@, id@, n as int);
        assert(schemas@.skip(n as int) =~= Seq::<CredentialSchema>::empty());
    }
    None
}

pub(crate) fn find_credential_index(credentials: &Vec<Credential>, id: u64) -> (r: Option<usize>)
    ensures
        match r {
            Option::Some(i) => i < credentials@.len() && credentials@[i as int].id == id
                && find_credential(credentials@, id) == Option::Some(credentials@[i as int]),
            Option::None => {
                &&& find_credential(credentials@, id) is None
                &&& forall|j: int| 0 <= j < credentials@.len() ==> credentials@[j].id != id
            },
        },
{
    let n = credentials.len();
    let mut i: usize = 0;
    while i < n
        invariant
            0 <= i <= n,
            n == credentials@.len(),
            forall|j: int| 0 <= j < i ==> credentials@[j].id != id,
        decreases n - i,
    {
        if credentials[i].id == id {
            proof {
                lemma_find_credential_skip(credentials@, id, i as int);
                assert(credentials@.skip(i as int)[0] == credentials@[i as int]);
            }
            return Some(i);
        }
        i += 1;
    }
    proof {
        lemma_find_credential_skip(credentials@, id, n as int);
        assert(credentials@.skip(n as int) =~= Seq::<Credential>::empty());
    }
    None
}

pub(crate) fn find_delegation_index(delegations: &Vec<Delegation>, id: u64) -> (r: Option<usize>)
    ensures
        match r {
            Option::Some(i) => i < delegations@.len() && delegations@[i as int].id == id
                && find_delegation(delegations@, id) == Option::Some(delegations@[i as int]),
            Option::None => {
                &&& find_delegation(delegations@, id) is None
                &&& forall|j: int| 0 <= j < delegations@.len() ==> delegations@[j].id != id
            },
        },
{
    let n = delegations.len();
    let mut i: usize = 0;
    while i < n
        invariant
            0 <= i <= n,
            n == delegations@.len(),
            forall|j: int| 0 <= j < i ==> delegations@[j].id != id,
        decreases n - i,
    {
        if delegations[i].id == id {
            proof {
                lemma_find_delegation_skip(delegations@, id, i as int);
                assert(delegations@.skip(i as int)[0] == delegations@[i as int]);
            }
            return Some(i);
        }
        i += 1;
    }
    proof {
        lemma_find_delegation_skip(delegations@, id, n as int);
        assert(delegations@.skip(n as int) =~= Seq::<Delegation>::empty());
    }
    None
}

} // verus!
