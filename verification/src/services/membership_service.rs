//! Membership use-cases: the two-layer enfranchisement decision and the
//! contribution score.
use vstd::prelude::*;

use super::enfranchise_outcome::EnfranchiseOutcome;
use super::model::Timestamp;

verus! {

/// Trailing window, in days, of the enfranchisement rate cap.
pub const RATE_CAP_WINDOW_DAYS: i64 = 30;

/// Seconds in a day.
pub const SECONDS_PER_DAY: i64 = 86400;

/// A contribution score adjusted by `delta`, clamped to the range of `i64`.
pub open spec fn adjusted_contribution(contribution: i64, delta: i64) -> int {
    if contribution + delta > i64::MAX {
        i64::MAX as int
    } else if contribution + delta < i64::MIN {
        i64::MIN as int
    } else {
        contribution + delta
    }
}

/// Recording a contribution never moves the score against the change: a gain
/// never lowers it, a loss never raises it, and a zero change keeps it. The
/// score moves by exactly the change while that fits, and otherwise stops at
/// the bound it would cross.
pub proof fn law_contribution_moves_with_the_change(contribution: i64, delta: i64)
    ensures
        delta >= 0 ==> adjusted_contribution(contribution, delta) >= contribution,
        delta <= 0 ==> adjusted_contribution(contribution, delta) <= contribution,
        delta == 0 ==> adjusted_contribution(contribution, delta) == contribution,
        i64::MIN <= contribution + delta <= i64::MAX ==> adjusted_contribution(contribution, delta) == contribution
            + delta,
        contribution + delta > i64::MAX ==> adjusted_contribution(contribution, delta) == i64::MAX,
        contribution + delta < i64::MIN ==> adjusted_contribution(contribution, delta) == i64::MIN,
{
}

/// Membership use-cases, over the user, community, membership and clock ports.
pub struct MembershipService<U, D, M, C> {
    users: U,
    demoi: D,
    memberships: M,
    clock: C,
}

impl<U, D, M, C> MembershipService<U, D, M, C> {
    /// The ports this service was built with, in constructor order.
    pub closed spec fn ports(&self) -> (U, D, M, C) {
        (self.users, self.demoi, self.memberships, self.clock)
    }

    /// Build the service over its ports.
    pub fn new(users: U, demoi: D, memberships: M, clock: C) -> (s: Self)
        ensures
            s.ports() == (users, demoi, memberships, clock),
    {
        MembershipService { users, demoi, memberships, clock }
    }

    /// Layer 1 (eligibility) then Layer 2 (rate cap): a voter is already
    /// admitted; an ineligible member is told what they lack; an eligible one
    /// is queued when the window has no admission slot left, otherwise
    /// admitted. The boolean says whether the member must now be promoted to
    /// voter (tier and enfranchisement time recorded).
    pub fn request_enfranchisement<E>(&self, is_voter: bool, eligibility: E, is_eligible: bool, slots: u64) -> (r: (EnfranchiseOutcome<E>, bool))
        ensures
            r == if is_voter {
                (EnfranchiseOutcome::<E>::Admitted, false)
            } else if !is_eligible {
                (EnfranchiseOutcome::NotEligible(eligibility), false)
            } else if slots == 0 {
                (EnfranchiseOutcome::<E>::Queued, false)
            } else {
                (EnfranchiseOutcome::<E>::Admitted, true)
            },
    {
        if is_voter {
            return (EnfranchiseOutcome::Admitted, false);
        }
        if !is_eligible {
            return (EnfranchiseOutcome::NotEligible(eligibility), false);
        }
        if slots == 0 {
            return (EnfranchiseOutcome::Queued, false);
        }
        (EnfranchiseOutcome::Admitted, true)
    }

    /// The start of the rate-cap window ending at `now`: thirty days earlier.
    pub fn rate_cap_window_start(&self, now: Timestamp) -> (t: Timestamp)
        requires
            now.0 - RATE_CAP_WINDOW_DAYS * SECONDS_PER_DAY >= i64::MIN,
        ensures
            t.0 == now.0 - RATE_CAP_WINDOW_DAYS * SECONDS_PER_DAY,
    {
        Timestamp(now.0 - RATE_CAP_WINDOW_DAYS * SECONDS_PER_DAY)
    }

    /// A contribution score adjusted by `delta`, saturating at the bounds of
    /// `i64` rather than wrapping.
    pub fn record_contribution(&self, contribution: i64, delta: i64) -> (c: i64)
        ensures
            c == adjusted_contribution(contribution, delta),
    {
        match contribution.checked_add(delta) {
            Some(v) => v,
            None => if delta > 0 {
                i64::MAX
            } else {
                i64::MIN
            },
        }
    }
}

} // verus!
