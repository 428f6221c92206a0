//! Where a search looks.
use vstd::prelude::*;

use super::model::DemosId;

verus! {

/// Where a search looks.
#[derive(Clone, Copy, PartialEq, Eq, Debug)]
pub enum SearchScope {
    /// Across every community.
    All,
    /// Restricted to a single community.
    Demos(DemosId),
}

} // verus!
