//! Feed read use-cases: the site-wide "top" leaderboard and the personalized
//! home feed.
use vstd::prelude::*;

use super::feed_item::FeedItem;
use super::listing::{keys_in, rank_by_keys, reversed};
use super::model::{Demos, DemosId, Post};
use super::ranking::is_ranking;

verus! {

/// How many posts the site-wide "top" feed shows.
pub const TOP_FEED_LIMIT: usize = 50;

/// Whether a post may appear in a listing: it is neither removed nor hidden
/// pending review.
pub open spec fn is_listed(p: Post) -> bool {
    !p.removed && !p.pending_review
}

/// The listable posts' positions, in order.
pub open spec fn listed_positions(posts: Seq<Post>) -> Seq<int> {
    Seq::new(posts.len(), |i: int| i).filter(listed_at(posts))
}

/// Whether the post at a position is listable.
pub open spec fn listed_at(posts: Seq<Post>) -> spec_fn(int) -> bool {
    |i: int| is_listed(posts[i])
}

/// The ranking keys `(score, created_at)` of the listable posts, in order.
pub open spec fn listed_keys(posts: Seq<Post>, scores: Seq<i64>) -> Seq<(i64, i64)> {
    let pos = listed_positions(posts);
    Seq::new(pos.len(), |k: int| (scores[pos[k]], posts[pos[k]].created_at.0))
}

/// The slug of the community `id` among `demoi` (the last one listed with that
/// id, as a map built from the list keeps), or the empty text if none.
pub open spec fn slug_of(demoi: Seq<Demos>, id: DemosId) -> Seq<char>
    decreases demoi.len(),
{
    if demoi.len() == 0 {
        Seq::empty()
    } else if demoi.last().id == id {
        demoi.last().slug@
    } else {
        slug_of(demoi.drop_last(), id)
    }
}

/// One joined community's contribution to the home feed: the community (if it
/// still exists), its score bar, and its posts with their net scores.
#[derive(Clone, Debug)]
pub struct FeedSection {
    pub demos: Option<Demos>,
    pub threshold: i64,
    pub posts: Vec<Post>,
    pub scores: Vec<i64>,
}

/// Whether the post at a section position makes the feed: listable and
/// scoring at least the community's bar.
pub open spec fn qualifies_at(s: FeedSection) -> spec_fn(int) -> bool {
    |j: int| is_listed(s.posts@[j]) && s.scores@[j] >= s.threshold
}

/// The section's posts that make the feed, with score and slug, in order; none
/// when the community is gone.
pub open spec fn section_entries(s: FeedSection) -> Seq<(Post, i64, Seq<char>)> {
    match s.demos {
        Some(d) => Seq::new(s.posts@.len(), |j: int| j).filter(qualifies_at(s)).map_values(
            |j: int| (s.posts@[j], s.scores@[j], d.slug@),
        ),
        None => Seq::empty(),
    }
}

/// Every section's entries, section by section.
pub open spec fn feed_entries(ss: Seq<FeedSection>) -> Seq<(Post, i64, Seq<char>)>
    decreases ss.len(),
{
    if ss.len() == 0 {
        Seq::empty()
    } else {
        feed_entries(ss.drop_last()) + section_entries(ss.last())
    }
}

/// Whether the candidate items, and their key columns, hold exactly the
/// entries `e`, in order.
pub open spec fn holds_entries(cands: Seq<FeedItem>, cs: Seq<i64>, cc: Seq<i64>, e: Seq<(Post, i64, Seq<char>)>) -> bool {
    &&& cands.len() == e.len()
    &&& cs.len() == e.len()
    &&& cc.len() == e.len()
    &&& forall|k: int|
        0 <= k < e.len() ==> {
            &&& #[trigger] cands[k].post == e[k].0
            &&& cands[k].score == e[k].1
            &&& cands[k].community_slug@ == e[k].2
            &&& cs[k] == e[k].1
            &&& cc[k] == e[k].0.created_at.0
        }
}

/// The ranking keys of feed entries.
pub open spec fn entry_keys(e: Seq<(Post, i64, Seq<char>)>) -> Seq<(i64, i64)> {
    Seq::new(e.len(), |k: int| (e[k].1, e[k].0.created_at.0))
}

/// The top feed draws only on listable posts: every position it ranks holds
/// a post that is neither removed nor hidden pending review, and the positions
/// keep the posts' input order.
pub proof fn law_top_feed_draws_on_listed_posts(posts: Seq<Post>, k: int)
    requires
        0 <= k < listed_positions(posts).len(),
    ensures
        0 <= listed_positions(posts)[k] < posts.len(),
        is_listed(posts[listed_positions(posts)[k]]),
        forall|l: int| 0 <= l < k ==> listed_positions(posts)[l] < listed_positions(posts)[k],
{
    lemma_filtered_positions(posts.len(), listed_at(posts));
}

/// Every entry a joined community contributes to the home feed is a listable
/// post scoring at least that community's bar, tagged with its slug.
pub proof fn law_home_feed_entries_clear_the_bar(s: FeedSection, k: int)
    requires
        s.scores@.len() == s.posts@.len(),
        0 <= k < section_entries(s).len(),
    ensures
        is_listed(section_entries(s)[k].0),
        section_entries(s)[k].1 >= s.threshold,
        s.demos matches Some(d) && section_entries(s)[k].2 == d.slug@,
{
    match s.demos {
        Some(d) => {
            lemma_filtered_positions(s.posts@.len(), qualifies_at(s));
            let pos = Seq::new(s.posts@.len(), |j: int| j).filter(qualifies_at(s));
            assert(qualifies_at(s)(pos[k]));
        },
        None => {},
    }
}

/// The top feed considers every listable post: each one's position is among
/// those it ranks.
pub proof fn law_top_feed_considers_every_listed_post(posts: Seq<Post>)
    ensures
        forall|i: int| 0 <= i < posts.len() && is_listed(#[trigger] posts[i]) ==> listed_positions(posts).contains(i),
{
    let all = Seq::new(posts.len(), |j: int| j);
    assert forall|i: int| 0 <= i < posts.len() && is_listed(#[trigger] posts[i]) implies listed_positions(
        posts,
    ).contains(i) by {
        all.lemma_filter_contains(listed_at(posts), i);
        assert(all[i] == i);
    }
}

/// A joined community contributes every listable post that clears its bar,
/// tagged with its slug; a community that is gone contributes nothing.
pub proof fn law_home_feed_takes_every_post_clearing_the_bar(s: FeedSection, j: int)
    requires
        s.scores@.len() == s.posts@.len(),
    ensures
        s.demos is None ==> section_entries(s).len() == 0,
        s.demos is Some && 0 <= j < s.posts@.len() && is_listed(s.posts@[j]) && s.scores@[j] >= s.threshold
            ==> section_entries(s).contains((s.posts@[j], s.scores@[j], s.demos->0.slug@)),
{
    if let Some(d) = s.demos {
        if 0 <= j < s.posts@.len() && is_listed(s.posts@[j]) && s.scores@[j] >= s.threshold {
            let all = Seq::new(s.posts@.len(), |i: int| i);
            let pos = all.filter(qualifies_at(s));
            all.lemma_filter_contains(qualifies_at(s), j);
            assert(all[j] == j);
            let k = choose|k: int| 0 <= k < pos.len() && pos[k] == j;
            let f = |i: int| (s.posts@[i], s.scores@[i], d.slug@);
            assert(pos.map_values(f)[k] == (s.posts@[j], s.scores@[j], d.slug@));
        }
    }
}

/// The home feed gathers the entries of every joined community.
pub proof fn law_home_feed_gathers_every_section(ss: Seq<FeedSection>, i: int, x: (Post, i64, Seq<char>))
    requires
        0 <= i < ss.len(),
        section_entries(ss[i]).contains(x),
    ensures
        feed_entries(ss).contains(x),
    decreases ss.len(),
{
    let prev = feed_entries(ss.drop_last());
    let last = section_entries(ss.last());
    if i == ss.len() - 1 {
        let k = choose|k: int| 0 <= k < last.len() && last[k] == x;
        assert((prev + last)[prev.len() + k] == x);
    } else {
        assert(ss.drop_last()[i] == ss[i]);
        law_home_feed_gathers_every_section(ss.drop_last(), i, x);
        let k = choose|k: int| 0 <= k < prev.len() && prev[k] == x;
        assert((prev + last)[k] == x);
    }
}

/// The positions `0..n` kept by `pred` are in range, satisfy `pred`, and are
/// strictly increasing.
proof fn lemma_filtered_positions(n: nat, pred: spec_fn(int) -> bool)
    ensures
        ({
            let pos = Seq::new(n, |j: int| j).filter(pred);
            &&& forall|k: int| 0 <= k < pos.len() ==> 0 <= #[trigger] pos[k] < n && pred(pos[k])
            &&& forall|k: int, l: int| 0 <= k < l < pos.len() ==> #[trigger] pos[k] < #[trigger] pos[l]
        }),
    decreases n,
{
    reveal_with_fuel(Seq::<int>::filter, 1);
    if n > 0 {
        let m = (n - 1) as nat;
        lemma_filtered_positions(m, pred);
        let all = Seq::new(n, |j: int| j);
        assert(all.drop_last() =~= Seq::new(m, |j: int| j));
        assert(all.last() == m as int);
        let prev = Seq::new(m, |j: int| j).filter(pred);
        let pos = all.filter(pred);
        if pred(m as int) {
            assert(pos == prev.push(m as int));
            assert forall|k: int| 0 <= k < prev.len() implies #[trigger] prev[k] < m by {}
        } else {
            assert(pos == prev);
        }
    }
}

/// The recommendation read use-case's handle: the post-vote, recommender,
/// post and community ports it reads.
pub struct RecommendFeed<PV, R, P, D> {
    post_votes: PV,
    recommender: R,
    posts: P,
    demoi: D,
}

impl<PV, R, P, D> RecommendFeed<PV, R, P, D> {
    /// The ports this handle holds, in constructor order.
    pub closed spec fn ports(&self) -> (PV, R, P, D) {
        (self.post_votes, self.recommender, self.posts, self.demoi)
    }

    /// A handle over these ports.
    pub fn new(post_votes: PV, recommender: R, posts: P, demoi: D) -> (h: Self)
        ensures
            h.ports() == (post_votes, recommender, posts, demoi),
    {
        RecommendFeed { post_votes, recommender, posts, demoi }
    }

    /// The post-vote port.
    pub fn post_votes(&self) -> (p: &PV)
        ensures
            *p == self.ports().0,
    {
        &self.post_votes
    }

    /// The recommender port.
    pub fn recommender(&self) -> (r: &R)
        ensures
            *r == self.ports().1,
    {
        &self.recommender
    }

    /// The post port.
    pub fn posts(&self) -> (p: &P)
        ensures
            *p == self.ports().2,
    {
        &self.posts
    }

    /// The community port.
    pub fn demoi(&self) -> (d: &D)
        ensures
            *d == self.ports().3,
    {
        &self.demoi
    }
}

/// The recommendation model-refresh use-case's handle: the post-vote and
/// recommender ports it reads and rewrites.
pub struct RefreshRecommendations<PV, R> {
    post_votes: PV,
    recommender: R,
}

impl<PV, R> RefreshRecommendations<PV, R> {
    /// The ports this handle holds, in constructor order.
    pub closed spec fn ports(&self) -> (PV, R) {
        (self.post_votes, self.recommender)
    }

    /// A handle over these ports.
    pub fn new(post_votes: PV, recommender: R) -> (h: Self)
        ensures
            h.ports() == (post_votes, recommender),
    {
        RefreshRecommendations { post_votes, recommender }
    }

    /// The post-vote port.
    pub fn post_votes(&self) -> (p: &PV)
        ensures
            *p == self.ports().0,
    {
        &self.post_votes
    }

    /// The recommender port.
    pub fn recommender(&self) -> (r: &R)
        ensures
            *r == self.ports().1,
    {
        &self.recommender
    }
}

/// Feed read use-cases, over the community, post, post-vote, membership and
/// recommender ports.
pub struct FeedService<D, P, PV, M, R> {
    demoi: D,
    posts: P,
    post_votes: PV,
    memberships: M,
    recommender: R,
}

impl<D, P, PV, M, R> FeedService<D, P, PV, M, R> {
    /// The ports this service was built with, in constructor order.
    pub closed spec fn ports(&self) -> (D, P, PV, M, R) {
        (self.demoi, self.posts, self.post_votes, self.memberships, self.recommender)
    }

    /// Build the service over its ports.
    pub fn new(demoi: D, posts: P, post_votes: PV, memberships: M, recommender: R) -> (s: Self)
        ensures
            s.ports() == (demoi, posts, post_votes, memberships, recommender),
    {
        FeedService { demoi, posts, post_votes, memberships, recommender }
    }

    /// The site-wide "top" feed over every post (`scores[i]` is post `i`'s net
    /// score; `demoi` lists the communities): the listable posts, ranked by
    /// score (highest first) then recency (newest first), capped at
    /// [`TOP_FEED_LIMIT`]. Each item carries its community's slug (empty if
    /// the community is unknown).
    #[verifier::spinoff_prover]
    pub fn top_posts(&self, demoi: &Vec<Demos>, posts: Vec<Post>, scores: &Vec<i64>) -> (out: Vec<FeedItem>)
        requires
            scores@.len() == posts@.len(),
        ensures
            ({
                let pos = listed_positions(posts@);
                &&& out@.len() == if pos.len() < TOP_FEED_LIMIT {
                    pos.len()
                } else {
                    TOP_FEED_LIMIT as nat
                }
                &&& exists|order: Seq<usize>|
                    #![trigger is_ranking(listed_keys(posts@, scores@), order)]
                    is_ranking(listed_keys(posts@, scores@), order) && forall|k: int|
                        0 <= k < out@.len() ==> {
                            let i = pos[order[k] as int];
                            &&& #[trigger] out@[k].post == posts@[i]
                            &&& out@[k].score == scores@[i]
                            &&& out@[k].community_slug@ == slug_of(demoi@, posts@[i].demos_id)
                        }
            }),
    {
        let n = posts.len();
        let ghost orig = posts@;
        let ghost pred = listed_at(orig);
        let mut queue = reversed(posts);
        let mut cands: Vec<FeedItem> = Vec::new();
        let mut cs: Vec<i64> = Vec::new();
        let mut cc: Vec<i64> = Vec::new();
        let mut i: usize = 0;
        while i < n
            invariant
                n == orig.len(),
                n == scores@.len(),
                i <= n,
                queue@.len() == n - i,
                forall|j: int| 0 <= j < queue@.len() ==> #[trigger] queue@[j] == orig[n - 1 - j],
                ({
                    let pos = Seq::new(i as nat, |j: int| j).filter(pred);
                    &&& cands@.len() == pos.len()
                    &&& cs@ == pos.map_values(|j: int| scores@[j])
                    &&& cc@ == pos.map_values(|j: int| orig[j].created_at.0)
                    &&& forall|k: int| 0 <= k < pos.len() ==> {
                        &&& #[trigger] cands@[k].post == orig[pos[k]]
                        &&& cands@[k].score == scores@[pos[k]]
                        &&& cands@[k].community_slug@ == slug_of(demoi@, orig[pos[k]].demos_id)
                    }
                    &&& forall|k: int| 0 <= k < pos.len() ==> 0 <= #[trigger] pos[k] < i
                }),
                pred == listed_at(orig),
            decreases n - i,
        {
            let p = queue.pop().unwrap();
            proof {
                reveal_with_fuel(Seq::<int>::filter, 1);
            }
            let ghost prev = Seq::new(i as nat, |j: int| j).filter(pred);
            let ghost next = Seq::new((i + 1) as nat, |j: int| j).filter(pred);
            assert(Seq::new((i + 1) as nat, |j: int| j).drop_last() =~= Seq::new(i as nat, |j: int| j));
            assert(p == orig[i as int]);
            assert(Seq::new((i + 1) as nat, |j: int| j).last() == i as int);
            assert(pred(i as int) == is_listed(orig[i as int]));
            if !p.removed && !p.pending_review {
                assert(next == prev.push(i as int));
                let slug = slug_for(demoi, p.demos_id);
                cs.push(scores[i]);
                cc.push(p.created_at.0);
                cands.push(FeedItem { post: p, score: scores[i], community_slug: slug });
                assert(cs@ =~= next.map_values(|j: int| scores@[j]));
                assert(cc@ =~= next.map_values(|j: int| orig[j].created_at.0));
                assert forall|k: int| 0 <= k < next.len() implies {
                    &&& #[trigger] cands@[k].post == orig[next[k]]
                    &&& cands@[k].score == scores@[next[k]]
                    &&& cands@[k].community_slug@ == slug_of(demoi@, orig[next[k]].demos_id)
                } by {
                    if k < prev.len() {
                        assert(next[k] == prev[k]);
                    }
                }
                assert forall|k: int| 0 <= k < next.len() implies 0 <= #[trigger] next[k] < i + 1 by {
                    if k < prev.len() {
                        assert(next[k] == prev[k]);
                    }
                }
            } else {
                assert(next == prev);
            }
            i = i + 1;
        }
        let ghost pos = listed_positions(orig);
        assert(Seq::new(n as nat, |j: int| j).filter(pred) == pos);
        assert(keys_in(cs@, cc@) =~= listed_keys(orig, scores@));
        let mut out = rank_by_keys(cands, &cs, &cc);
        out.truncate(TOP_FEED_LIMIT);
        out
    }

    /// The personalized home feed over the member's joined communities: from
    /// each section whose community still exists, the listable posts scoring
    /// at least that community's bar, ranked together by score (highest
    /// first) then recency (newest first). Each item carries its community's
    /// slug.
    #[verifier::spinoff_prover]
    pub fn feed(&self, sections: Vec<FeedSection>) -> (out: Vec<FeedItem>)
        requires
            forall|k: int| 0 <= k < sections@.len() ==> (#[trigger] sections@[k]).scores@.len() == sections@[k].posts@.len(),
        ensures
            ({
                let e = feed_entries(sections@);
                &&& out@.len() == e.len()
                &&& exists|order: Seq<usize>|
                    #![trigger is_ranking(entry_keys(e), order)]
                    is_ranking(entry_keys(e), order) && forall|k: int|
                        0 <= k < out@.len() ==> {
                            let x = e[order[k] as int];
                            &&& #[trigger] out@[k].post == x.0
                            &&& out@[k].score == x.1
                            &&& out@[k].community_slug@ == x.2
                        }
            }),
    {
        let ns = sections.len();
        let ghost orig = sections@;
        let mut queue = reversed(sections);
        let mut cands: Vec<FeedItem> = Vec::new();
        let mut cs: Vec<i64> = Vec::new();
        let mut cc: Vec<i64> = Vec::new();
        let mut si: usize = 0;
        while si < ns
            invariant
                ns == orig.len(),
                si <= ns,
                forall|k: int| 0 <= k < orig.len() ==> (#[trigger] orig[k]).scores@.len() == orig[k].posts@.len(),
                queue@.len() == ns - si,
                forall|j: int| 0 <= j < queue@.len() ==> #[trigger] queue@[j] == orig[ns - 1 - j],
                holds_entries(cands@, cs@, cc@, feed_entries(orig.take(si as int))),
            decreases ns - si,
        {
            let section = queue.pop().unwrap();
            let ghost sec = section;
            let ghost before = feed_entries(orig.take(si as int));
            assert(sec == orig[si as int]);
            assert(orig.take(si + 1).drop_last() =~= orig.take(si as int));
            assert(feed_entries(orig.take(si + 1)) == before + section_entries(sec));
            let FeedSection { demos, threshold, posts, scores } = section;
            match demos {
                None => {
                    assert(section_entries(sec) =~= Seq::<(Post, i64, Seq<char>)>::empty());
                    assert(before + section_entries(sec) =~= before);
                },
                Some(d) => {
                    let np = posts.len();
                    let ghost pred = qualifies_at(sec);
                    let mut pq = reversed(posts);
                    let mut j: usize = 0;
                    while j < np
                        invariant
                            np == sec.posts@.len(),
                            np == scores@.len(),
                            scores@ == sec.scores@,
                            threshold == sec.threshold,
                            sec.demos == Some(d),
                            pred == qualifies_at(sec),
                            j <= np,
                            pq@.len() == np - j,
                            forall|t: int| 0 <= t < pq@.len() ==> #[trigger] pq@[t] == sec.posts@[np - 1 - t],
                            holds_entries(
                                cands@,
                                cs@,
                                cc@,
                                before + Seq::new(j as nat, |t: int| t).filter(pred).map_values(
                                    |t: int| (sec.posts@[t], sec.scores@[t], d.slug@),
                                ),
                            ),
                        decreases np - j,
                    {
                        let p = pq.pop().unwrap();
                        proof {
                            reveal_with_fuel(Seq::<int>::filter, 1);
                        }
                        let ghost prevf = Seq::new(j as nat, |t: int| t).filter(pred);
                        let ghost nextf = Seq::new((j + 1) as nat, |t: int| t).filter(pred);
                        let ghost f = |t: int| (sec.posts@[t], sec.scores@[t], d.slug@);
                        assert(Seq::new((j + 1) as nat, |t: int| t).drop_last() =~= Seq::new(j as nat, |t: int| t));
                        assert(p == sec.posts@[j as int]);
                        assert(Seq::new((j + 1) as nat, |t: int| t).last() == j as int);
                        assert(pred(j as int) == (is_listed(sec.posts@[j as int]) && sec.scores@[j as int] >= sec.threshold));
                        let score = scores[j];
                        if !p.removed && !p.pending_review && score >= threshold {
                            assert(nextf == prevf.push(j as int));
                            assert(nextf.map_values(f) =~= prevf.map_values(f).push(f(j as int)));
                            let slug = d.slug.clone();
                            cs.push(score);
                            cc.push(p.created_at.0);
                            cands.push(FeedItem { post: p, score, community_slug: slug });
                            assert((before + nextf.map_values(f)) =~= (before + prevf.map_values(f)).push(f(j as int)));
                        } else {
                            assert(nextf == prevf);
                        }
                        j = j + 1;
                    }
                    assert(Seq::new(np as nat, |t: int| t) =~= Seq::new(sec.posts@.len(), |t: int| t));
                    let ghost part = Seq::new(np as nat, |t: int| t).filter(pred).map_values(
                        |t: int| (sec.posts@[t], sec.scores@[t], d.slug@),
                    );
                    assert(part =~= section_entries(sec));
                },
            }
            proof {
                let e2 = feed_entries(orig.take(si + 1));
                assert(e2 == before + section_entries(sec));
            }
            si = si + 1;
        }
        assert(orig.take(ns as int) =~= orig);
        let ghost e = feed_entries(orig);
        assert forall|k: int| 0 <= k < e.len() implies #[trigger] keys_in(cs@, cc@)[k] == entry_keys(e)[k] by {
            assert(cands@[k].post == e[k].0);
        }
        assert(keys_in(cs@, cc@) =~= entry_keys(e));
        let out = rank_by_keys(cands, &cs, &cc);
        out
    }
}

impl<D: Clone, P: Clone, PV: Clone, M, R: Clone> FeedService<D, P, PV, M, R> {
    /// The recommendation read use-case, over (clones of) this service's
    /// post-vote, recommender, post and community ports.
    pub fn recommend_feed(&self) -> (h: RecommendFeed<PV, R, P, D>)
        ensures
            cloned(self.ports().2, h.ports().0),
            cloned(self.ports().4, h.ports().1),
            cloned(self.ports().1, h.ports().2),
            cloned(self.ports().0, h.ports().3),
    {
        RecommendFeed::new(
            self.post_votes.clone(),
            self.recommender.clone(),
            self.posts.clone(),
            self.demoi.clone(),
        )
    }

    /// The recommendation model-refresh use-case, over (clones of) this
    /// service's post-vote and recommender ports.
    pub fn refresh_recommendations(&self) -> (h: RefreshRecommendations<PV, R>)
        ensures
            cloned(self.ports().2, h.ports().0),
            cloned(self.ports().4, h.ports().1),
    {
        RefreshRecommendations::new(self.post_votes.clone(), self.recommender.clone())
    }
}

/// The slug of community `id` among `demoi` (the last listed with that id), or
/// the empty string.
fn slug_for(demoi: &Vec<Demos>, id: DemosId) -> (s: String)
    ensures
        s@ == slug_of(demoi@, id),
{
    let mut k = demoi.len();
    assert(demoi@.take(k as int) =~= demoi@);
    while k > 0
        invariant
            k <= demoi@.len(),
            slug_of(demoi@, id) == slug_of(demoi@.take(k as int), id),
        decreases k,
    {
        let ghost t = demoi@.take(k as int);
        assert(t.drop_last() =~= demoi@.take(k - 1));
        if demoi[k - 1].id.0 == id.0 {
            return demoi[k - 1].slug.clone();
        }
        k = k - 1;
    }
    assert(demoi@.take(0) =~= Seq::<Demos>::empty());
    String::new()
}

} // verus!
