//! One entry in a member's personalized home feed.
use vstd::prelude::*;

use super::model::Post;

verus! {

/// One entry in a feed: a post with its net score and its community's slug.
#[derive(Clone, Debug)]
pub struct FeedItem {
    pub post: Post,
    pub score: i64,
    pub community_slug: String,
}

} // verus!
