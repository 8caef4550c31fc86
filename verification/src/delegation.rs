//! Delegation authorizer: checks that a delegation is unrevoked, unexpired,
//! and that its allow-list covers every requested credential type.

use vstd::prelude::*;

use crate::bytes::contains_bytes;
use crate::structures::{Delegation, DelegationError};

verus! {

/// Every requested credential type is present in the allow-list
/// (all-of semantics, not any-of).
pub open spec fn scope_covers(allowed: Seq<Seq<u8>>, requested: Seq<Seq<u8>>) -> bool {
    forall|i: int| 0 <= i < requested.len() ==> allowed.contains(requested[i])
}

/// The delegation check outcome: revocation first, then expiry against the
/// current time, then the credential-type scope.
pub open spec fn delegation_check(d: Delegation, requested: Seq<Seq<u8>>, now: u64) -> Result<
    (),
    DelegationError,
> {
    if d.revoked {
        Err(DelegationError::Revoked)
    } else if now > d.valid_until {
        Err(DelegationError::Expired)
    } else if !scope_covers(d.credential_types.deep_view(), requested) {
        Err(DelegationError::ScopeViolation)
    } else {
        Ok(())
    }
}

/// Validates that a delegation still authorizes issuing a credential whose
/// type tags are `credential_type`: the delegation must be unrevoked and
/// unexpired, and every requested type must be on its allow-list.
pub fn verify_delegation(delegation: &Delegation, credential_type: &Vec<Vec<u8>>, now: u64) -> (r:
    Result<(), DelegationError>)
    ensures
        r == delegation_check(*delegation, credential_type.deep_view(), now),
{
    if delegation.revoked {
        return Err(DelegationError::Revoked);
    }
    if now > delegation.valid_until {
        return Err(DelegationError::Expired);
    }
    let n = credential_type.len();
    let mut i: usize = 0;
    while i < n
        invariant
            0 <= i <= n,
            n == credential_type.len(),
            !delegation.revoked,
            now <= delegation.valid_until,
            forall|j: int|
                0 <= j < i ==> delegation.credential_types.deep_view().contains(
                    credential_type.deep_view()[j],
                ),
        decreases n - i,
    {
        proof {
            assert(credential_type.deep_view()[i as int] == credential_type@[i as int]@);
        }
        if !contains_bytes(&delegation.credential_types, &credential_type[i]) {
            proof {
                assert(!delegation.credential_types.deep_view().contains(
                    credential_type.deep_view()[i as int],
                ));
                assert(!scope_covers(
                    delegation.credential_types.deep_view(),
                    credential_type.deep_view(),
                ));
            }
            return Err(DelegationError::ScopeViolation);
        }
        i += 1;
    }
    Ok(())
}

} // verus!
