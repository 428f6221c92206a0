//! Founding use-cases: the direct founding shortcut and the petition-driven
//! path (open a petition, gather sign-offs, found for real at quorum).
use vstd::prelude::*;

use super::errors::{FoundDemosError, SignFoundingError, StartFoundingError, StoreError};
use super::model::UserId;

verus! {

/// Founding use-cases, over the founding, community, membership and clock
/// ports plus the account service peer.
pub struct FoundingService<F, D, M, C, A> {
    foundings: F,
    demoi: D,
    memberships: M,
    clock: C,
    account: A,
}

/// Whether `slug` names one of the open petitions.
pub open spec fn slug_pending(petition_slugs: Seq<String>, slug: Seq<char>) -> bool {
    exists|k: int| 0 <= k < petition_slugs.len() && #[trigger] petition_slugs[k]@ == slug
}

impl<F, D, M, C, A> FoundingService<F, D, M, C, A> {
    /// The ports this service was built with, in constructor order.
    pub closed spec fn ports(&self) -> (F, D, M, C, A) {
        (self.foundings, self.demoi, self.memberships, self.clock, self.account)
    }

    /// Build the service over its ports and its account peer.
    pub fn new(foundings: F, demoi: D, memberships: M, clock: C, account: A) -> (s: Self)
        ensures
            s.ports() == (foundings, demoi, memberships, clock, account),
    {
        FoundingService { foundings, demoi, memberships, clock, account }
    }

    /// A franchise-barred account may take no path to the franchise, so it may
    /// neither found a community nor co-sign a petition.
    pub fn ensure_not_barred(&self, is_franchise_barred: bool) -> (r: Result<(), FoundDemosError>)
        ensures
            is_franchise_barred ==> (r matches Err(FoundDemosError::Rejected(m)) && m@
                == "this account is barred from the franchise"@),
            !is_franchise_barred ==> r is Ok,
    {
        if is_franchise_barred {
            Err(FoundDemosError::Rejected("this account is barred from the franchise".to_string()))
        } else {
            Ok(())
        }
    }

    /// A community can be founded under `slug` only if no live community has
    /// it.
    pub fn found_demos_check(&self, slug_taken: bool) -> (r: Result<(), FoundDemosError>)
        ensures
            r == if slug_taken {
                Err::<(), FoundDemosError>(FoundDemosError::Store(StoreError::AlreadyExists))
            } else {
                Ok::<(), FoundDemosError>(())
            },
    {
        if slug_taken {
            Err(FoundDemosError::Store(StoreError::AlreadyExists))
        } else {
            Ok(())
        }
    }

    /// The check on opening a petition for a derived `slug`: it needs at least
    /// one letter or number, and must not be taken by a live community or an
    /// open petition (`petition_slugs`).
    pub fn start_founding_check(&self, slug: &String, slug_live: bool, petition_slugs: &Vec<String>) -> (r: Result<(), StartFoundingError>)
        ensures
            slug@.len() == 0 ==> (r matches Err(StartFoundingError::Rejected(m)) && m@
                == "a community name needs at least one letter or number"@),
            slug_live ==> r is Err,
            forall|k: int| 0 <= k < petition_slugs@.len() && #[trigger] petition_slugs@[k]@ == slug@ ==> r is Err,
            slug@.len() > 0 ==> r == if slug_live || slug_pending(petition_slugs@, slug@) {
                Err::<(), StartFoundingError>(StartFoundingError::Store(StoreError::AlreadyExists))
            } else {
                Ok::<(), StartFoundingError>(())
            },
    {
        if slug.as_str().is_empty() {
            return Err(
                StartFoundingError::Rejected("a community name needs at least one letter or number".to_string()),
            );
        }
        if slug_live {
            return Err(StartFoundingError::Store(StoreError::AlreadyExists));
        }
        let mut k: usize = 0;
        while k < petition_slugs.len()
            invariant
                slug@.len() > 0,
                !slug_live,
                k <= petition_slugs@.len(),
                forall|j: int| 0 <= j < k ==> petition_slugs@[j]@ != slug@,
            decreases petition_slugs@.len() - k,
        {
            if petition_slugs[k] == *slug {
                return Err(StartFoundingError::Store(StoreError::AlreadyExists));
            }
            k = k + 1;
        }
        Ok(())
    }

    /// The founder cannot co-sign their own petition (they already back it).
    pub fn sign_check(&self, user: UserId, founder: UserId) -> (r: Result<(), SignFoundingError>)
        ensures
            user == founder ==> (r matches Err(SignFoundingError::Rejected(m)) && m@
                == "the founder already backs this founding"@),
            user != founder ==> r is Ok,
    {
        if user.0 == founder.0 {
            Err(SignFoundingError::Rejected("the founder already backs this founding".to_string()))
        } else {
            Ok(())
        }
    }
}

} // verus!
