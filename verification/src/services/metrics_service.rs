//! Member-engagement metrics: a member's per-community contribution, computed
//! from the scores of their posts and comments with their own ballots
//! subtracted.
use vstd::prelude::*;

use super::member_metrics::MemberMetrics;
use super::model::PostId;
use super::vote_value::{vote_value, vote_weight};

verus! {

/// One of the member's posts in the community, with its net score and the
/// member's own vote on it.
#[derive(Clone, Copy, PartialEq, Eq, Debug)]
pub struct PostTally {
    pub removed: bool,
    pub score: i64,
    pub own_vote: Option<bool>,
}

/// One of the member's comments (anywhere), with the post it hangs under, its
/// net score and the member's own vote on it.
#[derive(Clone, Copy, PartialEq, Eq, Debug)]
pub struct CommentTally {
    pub post_id: PostId,
    pub removed: bool,
    pub score: i64,
    pub own_vote: Option<bool>,
}

/// The community's appraisal of one item: its score without the author's own
/// ballot.
pub open spec fn appraisal(score: i64, own_vote: Option<bool>) -> int {
    score - vote_weight(own_vote)
}

/// Nobody earns contribution by voting on their own content: whatever the
/// rest of the community gave an item (`others`) and however its author voted
/// on it, the item's appraisal is what the others gave it.
pub proof fn law_own_vote_is_neutral(others: int, own_vote: Option<bool>, score: i64)
    requires
        score == others + vote_weight(own_vote),
    ensures
        appraisal(score, own_vote) == others,
{
}

/// Two tallies of the same posts that differ at most in the member's own
/// ballots: each post's score is the rest of the community's net
/// (`others[k]`) plus the member's own ballot.
pub open spec fn same_posts_but_own_votes(a: Seq<PostTally>, b: Seq<PostTally>, others: Seq<int>) -> bool {
    &&& a.len() == b.len()
    &&& a.len() == others.len()
    &&& forall|k: int|
        0 <= k < a.len() ==> {
            &&& (#[trigger] a[k]).removed == b[k].removed
            &&& a[k].score == others[k] + vote_weight(a[k].own_vote)
            &&& b[k].score == others[k] + vote_weight(b[k].own_vote)
        }
}

/// Two tallies of the same comments that differ at most in the member's own
/// ballots.
pub open spec fn same_comments_but_own_votes(a: Seq<CommentTally>, b: Seq<CommentTally>, others: Seq<int>) -> bool {
    &&& a.len() == b.len()
    &&& a.len() == others.len()
    &&& forall|k: int|
        0 <= k < a.len() ==> {
            &&& (#[trigger] a[k]).removed == b[k].removed
            &&& a[k].post_id == b[k].post_id
            &&& a[k].score == others[k] + vote_weight(a[k].own_vote)
            &&& b[k].score == others[k] + vote_weight(b[k].own_vote)
        }
}

/// Voting on one's own content never changes one's metrics: two tallies of a
/// member's posts and comments that differ only in the member's own ballots
/// give the same counts and the same net scores, so the same popularity.
pub proof fn law_own_votes_never_change_metrics(
    posts_a: Seq<PostTally>,
    posts_b: Seq<PostTally>,
    post_others: Seq<int>,
    comments_a: Seq<CommentTally>,
    comments_b: Seq<CommentTally>,
    comment_others: Seq<int>,
    here: Seq<PostId>,
)
    requires
        same_posts_but_own_votes(posts_a, posts_b, post_others),
        same_comments_but_own_votes(comments_a, comments_b, comment_others),
    ensures
        counted_posts(posts_a) == counted_posts(posts_b),
        post_appraisal(posts_a) == post_appraisal(posts_b),
        counted_comments(comments_a, here) == counted_comments(comments_b, here),
        comment_appraisal(comments_a, here) == comment_appraisal(comments_b, here),
{
    lemma_posts_ignore_own_votes(posts_a, posts_b, post_others);
    lemma_comments_ignore_own_votes(comments_a, comments_b, comment_others, here);
}

/// Only live content here counts: adding a removed post, or a comment that is
/// removed or hangs under a post elsewhere, changes neither count nor score,
/// while each live item adds one to its count and its appraisal to its score.
pub proof fn law_only_live_content_here_counts(
    posts: Seq<PostTally>,
    p: PostTally,
    comments: Seq<CommentTally>,
    c: CommentTally,
    here: Seq<PostId>,
)
    ensures
        p.removed ==> counted_posts(posts.push(p)) == counted_posts(posts) && post_appraisal(posts.push(p))
            == post_appraisal(posts),
        !p.removed ==> counted_posts(posts.push(p)) == counted_posts(posts) + 1 && post_appraisal(posts.push(p))
            == post_appraisal(posts) + p.score - vote_weight(p.own_vote),
        c.removed || !here.contains(c.post_id) ==> counted_comments(comments.push(c), here) == counted_comments(
            comments,
            here,
        ) && comment_appraisal(comments.push(c), here) == comment_appraisal(comments, here),
        !c.removed && here.contains(c.post_id) ==> counted_comments(comments.push(c), here) == counted_comments(
            comments,
            here,
        ) + 1 && comment_appraisal(comments.push(c), here) == comment_appraisal(comments, here) + c.score
            - vote_weight(c.own_vote),
{
    assert(posts.push(p).drop_last() =~= posts);
    assert(comments.push(c).drop_last() =~= comments);
}

/// Induction for the posts half of the own-vote law.
proof fn lemma_posts_ignore_own_votes(a: Seq<PostTally>, b: Seq<PostTally>, others: Seq<int>)
    requires
        same_posts_but_own_votes(a, b, others),
    ensures
        counted_posts(a) == counted_posts(b),
        post_appraisal(a) == post_appraisal(b),
    decreases a.len(),
{
    if a.len() > 0 {
        let n = a.len() - 1;
        assert(a[n].removed == b[n].removed);
        let (da, db, dot) = (a.drop_last(), b.drop_last(), others.drop_last());
        assert forall|k: int| 0 <= k < da.len() implies {
            &&& (#[trigger] da[k]).removed == db[k].removed
            &&& da[k].score == dot[k] + vote_weight(da[k].own_vote)
            &&& db[k].score == dot[k] + vote_weight(db[k].own_vote)
        } by {
            assert(da[k] == a[k] && db[k] == b[k]);
        }
        lemma_posts_ignore_own_votes(da, db, dot);
    }
}

/// Induction for the comments half of the own-vote law.
proof fn lemma_comments_ignore_own_votes(a: Seq<CommentTally>, b: Seq<CommentTally>, others: Seq<int>, here: Seq<PostId>)
    requires
        same_comments_but_own_votes(a, b, others),
    ensures
        counted_comments(a, here) == counted_comments(b, here),
        comment_appraisal(a, here) == comment_appraisal(b, here),
    decreases a.len(),
{
    if a.len() > 0 {
        let n = a.len() - 1;
        assert(a[n].removed == b[n].removed && a[n].post_id == b[n].post_id);
        let (da, db, dot) = (a.drop_last(), b.drop_last(), others.drop_last());
        assert forall|k: int| 0 <= k < da.len() implies {
            &&& (#[trigger] da[k]).removed == db[k].removed
            &&& da[k].post_id == db[k].post_id
            &&& da[k].score == dot[k] + vote_weight(da[k].own_vote)
            &&& db[k].score == dot[k] + vote_weight(db[k].own_vote)
        } by {
            assert(da[k] == a[k] && db[k] == b[k]);
        }
        lemma_comments_ignore_own_votes(da, db, dot, here);
    }
}

/// How many of the posts count (are not removed).
pub open spec fn counted_posts(s: Seq<PostTally>) -> nat
    decreases s.len(),
{
    if s.len() == 0 {
        0
    } else {
        counted_posts(s.drop_last()) + if s.last().removed {
            0nat
        } else {
            1nat
        }
    }
}

/// The summed appraisal of the posts that count.
pub open spec fn post_appraisal(s: Seq<PostTally>) -> int
    decreases s.len(),
{
    if s.len() == 0 {
        0
    } else {
        post_appraisal(s.drop_last()) + if s.last().removed {
            0
        } else {
            appraisal(s.last().score, s.last().own_vote)
        }
    }
}

/// Whether a comment counts: it is not removed and its post is in the
/// community.
pub open spec fn comment_counts(c: CommentTally, here: Seq<PostId>) -> bool {
    !c.removed && here.contains(c.post_id)
}

/// How many of the comments count.
pub open spec fn counted_comments(s: Seq<CommentTally>, here: Seq<PostId>) -> nat
    decreases s.len(),
{
    if s.len() == 0 {
        0
    } else {
        counted_comments(s.drop_last(), here) + if comment_counts(s.last(), here) {
            1nat
        } else {
            0nat
        }
    }
}

/// The summed appraisal of the comments that count.
pub open spec fn comment_appraisal(s: Seq<CommentTally>, here: Seq<PostId>) -> int
    decreases s.len(),
{
    if s.len() == 0 {
        0
    } else {
        comment_appraisal(s.drop_last(), here) + if comment_counts(s.last(), here) {
            appraisal(s.last().score, s.last().own_vote)
        } else {
            0
        }
    }
}

/// Whether every count and running sum the tally makes stays within the
/// counters' types: the counts of counted posts and comments fit in a `u32`,
/// each counted item's appraisal fits in an `i64`, and so does every running
/// sum of the counted appraisals.
pub open spec fn tally_fits(posts: Seq<PostTally>, comments: Seq<CommentTally>, here: Seq<PostId>) -> bool {
    &&& counted_posts(posts) <= u32::MAX
    &&& counted_comments(comments, here) <= u32::MAX
    &&& forall|k: int|
        0 <= k < posts.len() && !posts[k].removed ==> i64::MIN <= #[trigger] appraisal(
            posts[k].score,
            posts[k].own_vote,
        ) <= i64::MAX
    &&& forall|k: int|
        0 <= k <= posts.len() ==> i64::MIN <= #[trigger] post_appraisal(posts.take(k)) <= i64::MAX
    &&& forall|k: int|
        0 <= k < comments.len() && comment_counts(comments[k], here) ==> i64::MIN <= #[trigger] appraisal(
            comments[k].score,
            comments[k].own_vote,
        ) <= i64::MAX
    &&& forall|k: int|
        0 <= k <= comments.len() ==> i64::MIN <= #[trigger] comment_appraisal(comments.take(k), here)
            <= i64::MAX
}

/// Member-engagement metrics use-cases, over the content and vote ports.
pub struct MetricsService<P, C, PV, CV, M> {
    posts: P,
    comments: C,
    post_votes: PV,
    comment_votes: CV,
    memberships: M,
}

impl<P, C, PV, CV, M> MetricsService<P, C, PV, CV, M> {
    /// The ports this service was built with, in constructor order.
    pub closed spec fn ports(&self) -> (P, C, PV, CV, M) {
        (self.posts, self.comments, self.post_votes, self.comment_votes, self.memberships)
    }

    /// Build the service over its ports.
    pub fn new(posts: P, comments: C, post_votes: PV, comment_votes: CV, memberships: M) -> (s: Self)
        ensures
            s.ports() == (posts, comments, post_votes, comment_votes, memberships),
    {
        MetricsService { posts, comments, post_votes, comment_votes, memberships }
    }

    /// The post-store port.
    pub fn posts(&self) -> (p: &P)
        ensures
            *p == self.ports().0,
    {
        &self.posts
    }

    /// The comment-store port.
    pub fn comments(&self) -> (c: &C)
        ensures
            *c == self.ports().1,
    {
        &self.comments
    }

    /// The post-vote port.
    pub fn post_votes(&self) -> (v: &PV)
        ensures
            *v == self.ports().2,
    {
        &self.post_votes
    }

    /// The comment-vote port.
    pub fn comment_votes(&self) -> (v: &CV)
        ensures
            *v == self.ports().3,
    {
        &self.comment_votes
    }

    /// The membership port.
    pub fn memberships(&self) -> (m: &M)
        ensures
            *m == self.ports().4,
    {
        &self.memberships
    }

    /// A member's engagement metrics in one community: the count and summed
    /// appraisal of their non-removed posts there, and of their non-removed
    /// comments on posts there (`here` lists the community's posts). Each item's
    /// appraisal is its net score minus the member's own ballot on it, so nobody
    /// earns contribution by voting on their own content. `None` when a count
    /// or a sum would leave its counter's type.
    pub fn member_metrics(&self, posts: &Vec<PostTally>, comments: &Vec<CommentTally>, here: &Vec<PostId>) -> (r: Option<MemberMetrics>)
        ensures
            match r {
                Some(m) => tally_fits(posts@, comments@, here@) && m.posts == counted_posts(posts@)
                    && m.net_post_upvotes == post_appraisal(posts@) && m.comments == counted_comments(comments@, here@)
                    && m.net_comment_upvotes == comment_appraisal(comments@, here@),
                None => !tally_fits(posts@, comments@, here@),
            },
    {
        let mut m = MemberMetrics { posts: 0, comments: 0, net_post_upvotes: 0, net_comment_upvotes: 0 };
        let mut k: usize = 0;
        while k < posts.len()
            invariant
                k <= posts@.len(),
                m.posts == counted_posts(posts@.take(k as int)),
                m.net_post_upvotes == post_appraisal(posts@.take(k as int)),
                m.comments == 0,
                m.net_comment_upvotes == 0,
                forall|j: int| 0 <= j <= k ==> i64::MIN <= #[trigger] post_appraisal(posts@.take(j)) <= i64::MAX,
                forall|j: int|
                    0 <= j < k && !posts@[j].removed ==> i64::MIN <= #[trigger] appraisal(
                        posts@[j].score,
                        posts@[j].own_vote,
                    ) <= i64::MAX,
            decreases posts@.len() - k,
        {
            let p = posts[k];
            let ghost t = posts@.take(k + 1);
            assert(t.drop_last() =~= posts@.take(k as int));
            if !p.removed {
                let own = vote_value(p.own_vote);
                let next_count = m.posts.checked_add(1);
                let item = p.score.checked_sub(own);
                assert(t.last() == posts@[k as int]);
                assert(counted_posts(t) == counted_posts(posts@.take(k as int)) + 1);
                assert(post_appraisal(t) == post_appraisal(posts@.take(k as int)) + appraisal(
                    posts@[k as int].score,
                    posts@[k as int].own_vote,
                ));
                if next_count.is_none() || item.is_none() {
                    proof {
                        lemma_counted_posts_prefix(posts@, k + 1);
                        if tally_fits(posts@, comments@, here@) {
                            assert(i64::MIN <= appraisal(posts@[k as int].score, posts@[k as int].own_vote) <= i64::MAX);
                        }
                    }
                    return None;
                }
                let sum = m.net_post_upvotes.checked_add(item.unwrap());
                if sum.is_none() {
                    proof {
                        if tally_fits(posts@, comments@, here@) {
                            assert(i64::MIN <= post_appraisal(posts@.take(k + 1)) <= i64::MAX);
                        }
                    }
                    return None;
                }
                m.posts = next_count.unwrap();
                m.net_post_upvotes = sum.unwrap();
            }
            k = k + 1;
        }
        assert(posts@.take(posts@.len() as int) =~= posts@);
        let mut k: usize = 0;
        while k < comments.len()
            invariant
                k <= comments@.len(),
                m.posts == counted_posts(posts@),
                m.net_post_upvotes == post_appraisal(posts@),
                forall|j: int| 0 <= j <= posts@.len() ==> i64::MIN <= #[trigger] post_appraisal(posts@.take(j)) <= i64::MAX,
                forall|j: int|
                    0 <= j < posts@.len() && !posts@[j].removed ==> i64::MIN <= #[trigger] appraisal(
                        posts@[j].score,
                        posts@[j].own_vote,
                    ) <= i64::MAX,
                m.comments == counted_comments(comments@.take(k as int), here@),
                m.net_comment_upvotes == comment_appraisal(comments@.take(k as int), here@),
                forall|j: int|
                    0 <= j <= k ==> i64::MIN <= #[trigger] comment_appraisal(comments@.take(j), here@) <= i64::MAX,
                forall|j: int|
                    0 <= j < k && comment_counts(comments@[j], here@) ==> i64::MIN <= #[trigger] appraisal(
                        comments@[j].score,
                        comments@[j].own_vote,
                    ) <= i64::MAX,
            decreases comments@.len() - k,
        {
            let c = comments[k];
            let ghost t = comments@.take(k + 1);
            assert(t.drop_last() =~= comments@.take(k as int));
            if !c.removed && contains_post(here, c.post_id) {
                let own = vote_value(c.own_vote);
                let next_count = m.comments.checked_add(1);
                let item = c.score.checked_sub(own);
                assert(t.last() == comments@[k as int]);
                assert(comment_counts(comments@[k as int], here@));
                assert(counted_comments(t, here@) == counted_comments(comments@.take(k as int), here@) + 1);
                assert(comment_appraisal(t, here@) == comment_appraisal(comments@.take(k as int), here@) + appraisal(
                    comments@[k as int].score,
                    comments@[k as int].own_vote,
                ));
                if next_count.is_none() || item.is_none() {
                    proof {
                        lemma_counted_comments_prefix(comments@, here@, k + 1);
                        if tally_fits(posts@, comments@, here@) {
                            assert(i64::MIN <= appraisal(comments@[k as int].score, comments@[k as int].own_vote)
                                <= i64::MAX);
                        }
                    }
                    return None;
                }
                let sum = m.net_comment_upvotes.checked_add(item.unwrap());
                if sum.is_none() {
                    proof {
                        if tally_fits(posts@, comments@, here@) {
                            assert(i64::MIN <= comment_appraisal(comments@.take(k + 1), here@) <= i64::MAX);
                        }
                    }
                    return None;
                }
                m.comments = next_count.unwrap();
                m.net_comment_upvotes = sum.unwrap();
            }
            k = k + 1;
        }
        assert(comments@.take(comments@.len() as int) =~= comments@);
        Some(m)
    }
}

/// Whether `id` is among `ids`.
fn contains_post(ids: &Vec<PostId>, id: PostId) -> (r: bool)
    ensures
        r == ids@.contains(id),
{
    let mut k: usize = 0;
    while k < ids.len()
        invariant
            k <= ids@.len(),
            forall|j: int| 0 <= j < k ==> ids@[j] != id,
        decreases ids@.len() - k,
    {
        if ids[k].0 == id.0 {
            assert(ids@[k as int] == id);
            return true;
        }
        k = k + 1;
    }
    false
}

/// The count of counted posts never shrinks along prefixes.
proof fn lemma_counted_posts_prefix(s: Seq<PostTally>, k: int)
    requires
        0 <= k <= s.len(),
    ensures
        counted_posts(s.take(k)) <= counted_posts(s),
    decreases s.len(),
{
    if k < s.len() {
        assert(s.drop_last().take(k) =~= s.take(k));
        lemma_counted_posts_prefix(s.drop_last(), k);
    } else {
        assert(s.take(k) =~= s);
    }
}

/// The count of counted comments never shrinks along prefixes.
proof fn lemma_counted_comments_prefix(s: Seq<CommentTally>, here: Seq<PostId>, k: int)
    requires
        0 <= k <= s.len(),
    ensures
        counted_comments(s.take(k), here) <= counted_comments(s, here),
    decreases s.len(),
{
    if k < s.len() {
        assert(s.drop_last().take(k) =~= s.take(k));
        lemma_counted_comments_prefix(s.drop_last(), here, k);
    } else {
        assert(s.take(k) =~= s);
    }
}

} // verus!
