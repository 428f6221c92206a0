//! The single-box implementation of the governance-writes port: run every
//! write against the local `Services` directly.
use vstd::prelude::*;

use super::services::Services;

verus! {

/// Runs governance writes against the local `Services` — correct whenever this
/// process owns the target community (always true single-box).
pub struct LocalWrites<P> {
    services: Services<P>,
}

impl<P> LocalWrites<P> {
    /// The services the writes run against.
    pub closed spec fn services_spec(&self) -> &Services<P> {
        &self.services
    }

    /// Run writes against `services`.
    pub fn new(services: Services<P>) -> (w: Self)
        ensures
            *w.services_spec() == services,
    {
        LocalWrites { services }
    }

    /// The services the writes run against.
    pub fn services(&self) -> (s: &Services<P>)
        ensures
            s == self.services_spec(),
    {
        &self.services
    }
}

} // verus!
