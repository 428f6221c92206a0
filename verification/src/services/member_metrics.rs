//! A member's earned standing in one community.
use vstd::prelude::*;

verus! {

/// A member's earned standing in one community, computed from real engagement
/// (not a hand-incremented counter). Its [`popularity`](Self::popularity) is the
/// canonical "contribution" that gates the franchise and posting.
#[derive(Clone, Copy, PartialEq, Eq, Debug)]
pub struct MemberMetrics {
    /// Non-removed posts authored in this community.
    pub posts: u32,
    /// Non-removed comments authored in this community.
    pub comments: u32,
    /// Net upvotes (up − down) across those posts.
    pub net_post_upvotes: i64,
    /// Net upvotes across those comments.
    pub net_comment_upvotes: i64,
}

impl Default for MemberMetrics {
    /// All counts and net scores zero.
    fn default() -> (m: Self)
        ensures
            m.posts == 0,
            m.comments == 0,
            m.net_post_upvotes == 0,
            m.net_comment_upvotes == 0,
    {
        MemberMetrics { posts: 0, comments: 0, net_post_upvotes: 0, net_comment_upvotes: 0 }
    }
}

impl MemberMetrics {
    /// Popularity as a mathematical integer: the net upvotes on the member's
    /// posts and comments together.
    pub open spec fn popularity_value(&self) -> int {
        self.net_post_upvotes + self.net_comment_upvotes
    }

    /// Popularity: net upvotes on the member's posts **and** comments here. This
    /// is the value cached as the membership's contribution. The sum must fit
    /// in an `i64` (the addition would overflow otherwise).
    pub fn popularity(&self) -> (p: i64)
        requires
            i64::MIN <= self.popularity_value() <= i64::MAX,
        ensures
            p == self.popularity_value(),
    {
        self.net_post_upvotes + self.net_comment_upvotes
    }
}

} // verus!
