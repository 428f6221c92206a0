//! What a search turned up.
use vstd::prelude::*;

use super::model::{Demos, Post};

verus! {

/// What a search turned up: matching posts and (site-wide only) communities.
#[derive(Clone, Debug)]
pub struct SearchResults {
    pub posts: Vec<Post>,
    pub communities: Vec<Demos>,
}

} // verus!
