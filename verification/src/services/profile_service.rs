//! Member-profile listings: a member's own posts and comments, newest first.
use vstd::prelude::*;

use super::listing::{keys_in, rank_by_keys, reversed};
use super::model::{Comment, Post, UserId};
use super::ranking::is_ranking;

verus! {

/// The positions of `author`'s profile posts among `posts`, in order.
pub open spec fn profile_post_positions(posts: Seq<Post>, author: UserId) -> Seq<int> {
    Seq::new(posts.len(), |i: int| i).filter(|i: int| posts[i].author == author && !posts[i].removed)
}

/// Newest-first keys (creation time, with no score) of chosen posts.
pub open spec fn post_recency_keys(posts: Seq<Post>, pos: Seq<int>) -> Seq<(i64, i64)> {
    Seq::new(pos.len(), |k: int| (0i64, posts[pos[k]].created_at.0))
}

/// The positions of the non-removed comments among `comments`, in order.
pub open spec fn kept_comment_positions(comments: Seq<Comment>) -> Seq<int> {
    Seq::new(comments.len(), |i: int| i).filter(|i: int| !comments[i].removed)
}

/// Newest-first keys of chosen comments.
pub open spec fn comment_recency_keys(comments: Seq<Comment>, pos: Seq<int>) -> Seq<(i64, i64)> {
    Seq::new(pos.len(), |k: int| (0i64, comments[pos[k]].created_at.0))
}

/// A profile lists exactly the member's own posts that are not removed, and
/// exactly the authored comments that are not removed.
pub proof fn law_profile_lists_exactly_the_live_work(posts: Seq<Post>, author: UserId, comments: Seq<Comment>)
    ensures
        forall|i: int|
            0 <= i < posts.len() ==> (#[trigger] profile_post_positions(posts, author).contains(i) <==> posts[i].author
                == author && !posts[i].removed),
        forall|i: int|
            0 <= i < comments.len() ==> (#[trigger] kept_comment_positions(comments).contains(i)
                <==> !comments[i].removed),
{
    let pp = |i: int| posts[i].author == author && !posts[i].removed;
    let cp = |i: int| !comments[i].removed;
    let pa = Seq::new(posts.len(), |i: int| i);
    let ca = Seq::new(comments.len(), |i: int| i);
    assert forall|i: int| 0 <= i < posts.len() implies (#[trigger] profile_post_positions(posts, author).contains(i)
        <==> posts[i].author == author && !posts[i].removed) by {
        if pp(i) {
            pa.lemma_filter_contains(pp, i);
            assert(pa[i] == i);
        }
        if pa.filter(pp).contains(i) {
            let k = choose|k: int| 0 <= k < pa.filter(pp).len() && pa.filter(pp)[k] == i;
            pa.lemma_filter_pred(pp, k);
        }
    }
    assert forall|i: int| 0 <= i < comments.len() implies (#[trigger] kept_comment_positions(comments).contains(i)
        <==> !comments[i].removed) by {
        if cp(i) {
            ca.lemma_filter_contains(cp, i);
            assert(ca[i] == i);
        }
        if ca.filter(cp).contains(i) {
            let k = choose|k: int| 0 <= k < ca.filter(cp).len() && ca.filter(cp)[k] == i;
            ca.lemma_filter_pred(cp, k);
        }
    }
}

/// Member-profile listing use-cases, over the post and comment ports.
pub struct ProfileService<P, C> {
    posts: P,
    comments: C,
}

impl<P, C> ProfileService<P, C> {
    /// The ports this service was built with.
    pub closed spec fn ports(&self) -> (P, C) {
        (self.posts, self.comments)
    }

    /// Build the service over its ports.
    pub fn new(posts: P, comments: C) -> (s: Self)
        ensures
            s.ports() == (posts, comments),
    {
        ProfileService { posts, comments }
    }

    /// Every non-removed post by `author` among `all_posts` (the site-wide
    /// list), newest first; posts created at the same instant keep their
    /// listed order.
    pub fn posts_by_author(&self, all_posts: Vec<Post>, author: UserId) -> (out: Vec<Post>)
        ensures
            ({
                let pos = profile_post_positions(all_posts@, author);
                &&& out@.len() == pos.len()
                &&& exists|order: Seq<usize>|
                    #![trigger is_ranking(post_recency_keys(all_posts@, pos), order)]
                    is_ranking(post_recency_keys(all_posts@, pos), order) && forall|k: int|
                        0 <= k < out@.len() ==> #[trigger] out@[k] == all_posts@[pos[order[k] as int]]
            }),
    {
        let n = all_posts.len();
        let ghost orig = all_posts@;
        let ghost pred = |i: int| orig[i].author == author && !orig[i].removed;
        let mut queue = reversed(all_posts);
        let mut kept: Vec<Post> = Vec::new();
        let mut zs: Vec<i64> = Vec::new();
        let mut cc: Vec<i64> = Vec::new();
        let mut i: usize = 0;
        while i < n
            invariant
                n == orig.len(),
                i <= n,
                queue@.len() == n - i,
                forall|j: int| 0 <= j < queue@.len() ==> #[trigger] queue@[j] == orig[n - 1 - j],
                pred == (|i: int| orig[i].author == author && !orig[i].removed),
                ({
                    let pos = Seq::new(i as nat, |j: int| j).filter(pred);
                    &&& kept@.len() == pos.len()
                    &&& zs@.len() == pos.len()
                    &&& cc@.len() == pos.len()
                    &&& forall|k: int|
                        0 <= k < pos.len() ==> {
                            &&& #[trigger] kept@[k] == orig[pos[k]]
                            &&& zs@[k] == 0
                            &&& cc@[k] == orig[pos[k]].created_at.0
                        }
                }),
            decreases n - i,
        {
            let p = queue.pop().unwrap();
            proof {
                reveal_with_fuel(Seq::<int>::filter, 1);
            }
            let ghost prev = Seq::new(i as nat, |j: int| j).filter(pred);
            let ghost next = Seq::new((i + 1) as nat, |j: int| j).filter(pred);
            assert(Seq::new((i + 1) as nat, |j: int| j).drop_last() =~= Seq::new(i as nat, |j: int| j));
            assert(Seq::new((i + 1) as nat, |j: int| j).last() == i as int);
            assert(p == orig[i as int]);
            assert(pred(i as int) == (orig[i as int].author == author && !orig[i as int].removed));
            if p.author.0 == author.0 && !p.removed {
                assert(next == prev.push(i as int));
                let ghost (ok, oz, oc) = (kept@, zs@, cc@);
                zs.push(0);
                cc.push(p.created_at.0);
                kept.push(p);
                assert forall|k: int| 0 <= k < next.len() implies {
                    &&& #[trigger] kept@[k] == orig[next[k]]
                    &&& zs@[k] == 0
                    &&& cc@[k] == orig[next[k]].created_at.0
                } by {
                    if k < prev.len() {
                        assert(next[k] == prev[k]);
                        assert(kept@[k] == ok[k] && zs@[k] == oz[k] && cc@[k] == oc[k]);
                        assert(ok[k] == orig[prev[k]]);
                    } else {
                        assert(k == prev.len());
                        assert(next[k] == i as int);
                        assert(kept@[k] == orig[i as int]);
                    }
                }
            } else {
                assert(next == prev);
            }
            i = i + 1;
        }
        let ghost pos = profile_post_positions(orig, author);
        assert(Seq::new(n as nat, |j: int| j).filter(pred) == pos);
        assert forall|k: int| 0 <= k < pos.len() implies #[trigger] keys_in(zs@, cc@)[k] == post_recency_keys(orig, pos)[k] by {
            assert(kept@[k] == orig[pos[k]]);
        }
        assert(keys_in(zs@, cc@) =~= post_recency_keys(orig, pos));
        let out = rank_by_keys(kept, &zs, &cc);
        out
    }

    /// Every non-removed comment among `authored` (the author's comments),
    /// newest first; comments made at the same instant keep their listed
    /// order.
    pub fn comments_by_author(&self, authored: Vec<Comment>) -> (out: Vec<Comment>)
        ensures
            ({
                let pos = kept_comment_positions(authored@);
                &&& out@.len() == pos.len()
                &&& exists|order: Seq<usize>|
                    #![trigger is_ranking(comment_recency_keys(authored@, pos), order)]
                    is_ranking(comment_recency_keys(authored@, pos), order) && forall|k: int|
                        0 <= k < out@.len() ==> #[trigger] out@[k] == authored@[pos[order[k] as int]]
            }),
    {
        let n = authored.len();
        let ghost orig = authored@;
        let ghost pred = |i: int| !orig[i].removed;
        let mut queue = reversed(authored);
        let mut kept: Vec<Comment> = Vec::new();
        let mut zs: Vec<i64> = Vec::new();
        let mut cc: Vec<i64> = Vec::new();
        let mut i: usize = 0;
        while i < n
            invariant
                n == orig.len(),
                i <= n,
                queue@.len() == n - i,
                forall|j: int| 0 <= j < queue@.len() ==> #[trigger] queue@[j] == orig[n - 1 - j],
                pred == (|i: int| !orig[i].removed),
                ({
                    let pos = Seq::new(i as nat, |j: int| j).filter(pred);
                    &&& kept@.len() == pos.len()
                    &&& zs@.len() == pos.len()
                    &&& cc@.len() == pos.len()
                    &&& forall|k: int|
                        0 <= k < pos.len() ==> {
                            &&& #[trigger] kept@[k] == orig[pos[k]]
                            &&& zs@[k] == 0
                            &&& cc@[k] == orig[pos[k]].created_at.0
                        }
                }),
            decreases n - i,
        {
            let c = queue.pop().unwrap();
            proof {
                reveal_with_fuel(Seq::<int>::filter, 1);
            }
            let ghost prev = Seq::new(i as nat, |j: int| j).filter(pred);
            let ghost next = Seq::new((i + 1) as nat, |j: int| j).filter(pred);
            assert(Seq::new((i + 1) as nat, |j: int| j).drop_last() =~= Seq::new(i as nat, |j: int| j));
            assert(Seq::new((i + 1) as nat, |j: int| j).last() == i as int);
            assert(c == orig[i as int]);
            assert(pred(i as int) == !orig[i as int].removed);
            if !c.removed {
                assert(next == prev.push(i as int));
                let ghost (ok, oz, oc) = (kept@, zs@, cc@);
                zs.push(0);
                cc.push(c.created_at.0);
                kept.push(c);
                assert forall|k: int| 0 <= k < next.len() implies {
                    &&& #[trigger] kept@[k] == orig[next[k]]
                    &&& zs@[k] == 0
                    &&& cc@[k] == orig[next[k]].created_at.0
                } by {
                    if k < prev.len() {
                        assert(next[k] == prev[k]);
                        assert(kept@[k] == ok[k] && zs@[k] == oz[k] && cc@[k] == oc[k]);
                        assert(ok[k] == orig[prev[k]]);
                    } else {
                        assert(k == prev.len());
                        assert(next[k] == i as int);
                        assert(kept@[k] == orig[i as int]);
                    }
                }
            } else {
                assert(next == prev);
            }
            i = i + 1;
        }
        let ghost pos = kept_comment_positions(orig);
        assert(Seq::new(n as nat, |j: int| j).filter(pred) == pos);
        assert forall|k: int| 0 <= k < pos.len() implies #[trigger] keys_in(zs@, cc@)[k] == comment_recency_keys(orig, pos)[k] by {
            assert(kept@[k] == orig[pos[k]]);
        }
        assert(keys_in(zs@, cc@) =~= comment_recency_keys(orig, pos));
        let out = rank_by_keys(kept, &zs, &cc);
        out
    }
}

} // verus!
