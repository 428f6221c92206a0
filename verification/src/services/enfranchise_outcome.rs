//! Result of a member asking to be admitted to the franchise.
use vstd::prelude::*;

verus! {

/// Result of a member asking to be admitted to the franchise; `E` is the
/// eligibility report that lists unmet requirements.
#[derive(Clone, PartialEq, Eq, Debug)]
pub enum EnfranchiseOutcome<E> {
    /// Admitted as a voter.
    Admitted,
    /// Eligible, but the demos has no admission slots this 30-day window. The
    /// member keeps their place in the qualification queue.
    Queued,
    /// Not yet eligible; carries the unmet requirements.
    NotEligible(E),
}

} // verus!
