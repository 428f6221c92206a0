//! Wiring: the ports a composition root chooses, the per-area services built
//! over them, and one shared instance of each.
use std::sync::Arc;

use vstd::prelude::*;

use super::blocking_service::BlockingService;
use super::content_service::ContentService;
use super::feed_service::{FeedService, RecommendFeed, RefreshRecommendations};
use super::founding_service::FoundingService;
use super::membership_service::MembershipService;
use super::metrics_service::MetricsService;
use super::profile_service::ProfileService;
use super::search_service::SearchService;
use super::services::Services;

verus! {

/// The ports the per-area services read: users, communities, memberships,
/// posts, comments, post and comment votes, the NSFW scanner, the clock,
/// founding petitions and the recommender; `rest` holds the ports only the
/// driver's flows use (reports, trials, proposals, notifications, ...).
pub struct Ports<U, D, M, P, C, PV, CV, S, K, F, R, X> {
    pub users: U,
    pub demoi: D,
    pub memberships: M,
    pub posts: P,
    pub comments: C,
    pub post_votes: PV,
    pub comment_votes: CV,
    pub nsfw_scanner: S,
    pub clock: K,
    pub foundings: F,
    pub recommender: R,
    pub rest: X,
}

impl<
    U: Clone,
    D: Clone,
    M: Clone,
    P: Clone,
    C: Clone,
    PV: Clone,
    CV: Clone,
    S: Clone,
    K: Clone,
    F: Clone,
    R: Clone,
    X,
> Services<Ports<U, D, M, P, C, PV, CV, S, K, F, R, X>> {
    /// The blocking service, over a clone of the user port.
    pub fn blocking_service(&self) -> (s: BlockingService<U>)
        ensures
            cloned(self.ports.users, s.users_port()),
    {
        BlockingService::new(self.ports.users.clone())
    }

    /// The profile service, over clones of the post and comment ports.
    pub fn profile_service(&self) -> (s: ProfileService<P, C>)
        ensures
            cloned(self.ports.posts, s.ports().0),
            cloned(self.ports.comments, s.ports().1),
    {
        ProfileService::new(self.ports.posts.clone(), self.ports.comments.clone())
    }

    /// The search service, over clones of the post and community ports.
    pub fn search_service(&self) -> (s: SearchService<P, D>)
        ensures
            cloned(self.ports.posts, s.ports().0),
            cloned(self.ports.demoi, s.ports().1),
    {
        SearchService::new(self.ports.posts.clone(), self.ports.demoi.clone())
    }

    /// The metrics service, over clones of the content, vote and membership
    /// ports.
    pub fn metrics_service(&self) -> (s: MetricsService<P, C, PV, CV, M>)
        ensures
            cloned(self.ports.posts, s.ports().0),
            cloned(self.ports.comments, s.ports().1),
            cloned(self.ports.post_votes, s.ports().2),
            cloned(self.ports.comment_votes, s.ports().3),
            cloned(self.ports.memberships, s.ports().4),
    {
        MetricsService::new(
            self.ports.posts.clone(),
            self.ports.comments.clone(),
            self.ports.post_votes.clone(),
            self.ports.comment_votes.clone(),
            self.ports.memberships.clone(),
        )
    }

    /// The membership service, over clones of the user, community,
    /// membership and clock ports.
    pub fn membership_service(&self) -> (s: MembershipService<U, D, M, K>)
        ensures
            cloned(self.ports.users, s.ports().0),
            cloned(self.ports.demoi, s.ports().1),
            cloned(self.ports.memberships, s.ports().2),
            cloned(self.ports.clock, s.ports().3),
    {
        MembershipService::new(
            self.ports.users.clone(),
            self.ports.demoi.clone(),
            self.ports.memberships.clone(),
            self.ports.clock.clone(),
        )
    }

    /// The founding service, over clones of the founding, community,
    /// membership and clock ports; its account peer reads the franchise bar
    /// from a clone of the user port.
    pub fn founding_service(&self) -> (s: FoundingService<F, D, M, K, U>)
        ensures
            cloned(self.ports.foundings, s.ports().0),
            cloned(self.ports.demoi, s.ports().1),
            cloned(self.ports.memberships, s.ports().2),
            cloned(self.ports.clock, s.ports().3),
            cloned(self.ports.users, s.ports().4),
    {
        FoundingService::new(
            self.ports.foundings.clone(),
            self.ports.demoi.clone(),
            self.ports.memberships.clone(),
            self.ports.clock.clone(),
            self.ports.users.clone(),
        )
    }

    /// The content service, over clones of its storage, scanner and clock
    /// ports; its peers are the driver's own flows, so none is held here.
    pub fn content_service(&self) -> (s: ContentService<P, C, PV, CV, S, D, U, K, (), (), (), ()>)
        ensures
            cloned(self.ports.posts, s.ports().0),
            cloned(self.ports.comments, s.ports().1),
            cloned(self.ports.post_votes, s.ports().2),
            cloned(self.ports.comment_votes, s.ports().3),
            cloned(self.ports.nsfw_scanner, s.ports().4),
            cloned(self.ports.demoi, s.ports().5),
            cloned(self.ports.users, s.ports().6),
            cloned(self.ports.clock, s.ports().7),
    {
        ContentService::new(
            self.ports.posts.clone(),
            self.ports.comments.clone(),
            self.ports.post_votes.clone(),
            self.ports.comment_votes.clone(),
            self.ports.nsfw_scanner.clone(),
            self.ports.demoi.clone(),
            self.ports.users.clone(),
            self.ports.clock.clone(),
            (),
            (),
            (),
            (),
        )
    }

    /// The feed service, over clones of the community, post, post-vote,
    /// membership and recommender ports.
    pub fn feed_service(&self) -> (s: FeedService<D, P, PV, M, R>)
        ensures
            cloned(self.ports.demoi, s.ports().0),
            cloned(self.ports.posts, s.ports().1),
            cloned(self.ports.post_votes, s.ports().2),
            cloned(self.ports.memberships, s.ports().3),
            cloned(self.ports.recommender, s.ports().4),
    {
        FeedService::new(
            self.ports.demoi.clone(),
            self.ports.posts.clone(),
            self.ports.post_votes.clone(),
            self.ports.memberships.clone(),
            self.ports.recommender.clone(),
        )
    }

    /// The recommendation read use-case, over clones of the post-vote,
    /// recommender, post and community ports.
    pub fn recommend_feed(&self) -> (h: RecommendFeed<PV, R, P, D>)
        ensures
            cloned(self.ports.post_votes, h.ports().0),
            cloned(self.ports.recommender, h.ports().1),
            cloned(self.ports.posts, h.ports().2),
            cloned(self.ports.demoi, h.ports().3),
    {
        RecommendFeed::new(
            self.ports.post_votes.clone(),
            self.ports.recommender.clone(),
            self.ports.posts.clone(),
            self.ports.demoi.clone(),
        )
    }

    /// The recommendation model-refresh use-case, over clones of the
    /// post-vote and recommender ports.
    pub fn refresh_recommendations(&self) -> (h: RefreshRecommendations<PV, R>)
        ensures
            cloned(self.ports.post_votes, h.ports().0),
            cloned(self.ports.recommender, h.ports().1),
    {
        RefreshRecommendations::new(self.ports.post_votes.clone(), self.ports.recommender.clone())
    }
}

/// One shared instance of each per-area service, so a consumer can hold just
/// the services it uses.
pub struct ServiceSet<U, D, M, P, C, PV, CV, S, K, F, R> {
    pub blocking: Arc<BlockingService<U>>,
    pub profile: Arc<ProfileService<P, C>>,
    pub search: Arc<SearchService<P, D>>,
    pub metrics: Arc<MetricsService<P, C, PV, CV, M>>,
    pub membership: Arc<MembershipService<U, D, M, K>>,
    pub founding: Arc<FoundingService<F, D, M, K, U>>,
    pub content: Arc<ContentService<P, C, PV, CV, S, D, U, K, (), (), (), ()>>,
    pub feed: Arc<FeedService<D, P, PV, M, R>>,
}

impl<U: Clone, D: Clone, M: Clone, P: Clone, C: Clone, PV: Clone, CV: Clone, S: Clone, K: Clone, F: Clone, R: Clone>
    ServiceSet<U, D, M, P, C, PV, CV, S, K, F, R> {
    /// Assemble every service from a wired container: each over clones of
    /// the container's own ports.
    pub fn from_services<X>(s: &Services<Ports<U, D, M, P, C, PV, CV, S, K, F, R, X>>) -> (set: Self)
        ensures
            cloned(s.ports.users, set.blocking.users_port()),
            cloned(s.ports.posts, set.profile.ports().0),
            cloned(s.ports.comments, set.profile.ports().1),
            cloned(s.ports.posts, set.search.ports().0),
            cloned(s.ports.demoi, set.search.ports().1),
            cloned(s.ports.posts, set.metrics.ports().0),
            cloned(s.ports.comments, set.metrics.ports().1),
            cloned(s.ports.post_votes, set.metrics.ports().2),
            cloned(s.ports.comment_votes, set.metrics.ports().3),
            cloned(s.ports.memberships, set.metrics.ports().4),
            cloned(s.ports.users, set.membership.ports().0),
            cloned(s.ports.demoi, set.membership.ports().1),
            cloned(s.ports.memberships, set.membership.ports().2),
            cloned(s.ports.clock, set.membership.ports().3),
            cloned(s.ports.foundings, set.founding.ports().0),
            cloned(s.ports.demoi, set.founding.ports().1),
            cloned(s.ports.memberships, set.founding.ports().2),
            cloned(s.ports.clock, set.founding.ports().3),
            cloned(s.ports.users, set.founding.ports().4),
            cloned(s.ports.posts, set.content.ports().0),
            cloned(s.ports.comments, set.content.ports().1),
            cloned(s.ports.post_votes, set.content.ports().2),
            cloned(s.ports.comment_votes, set.content.ports().3),
            cloned(s.ports.nsfw_scanner, set.content.ports().4),
            cloned(s.ports.demoi, set.content.ports().5),
            cloned(s.ports.users, set.content.ports().6),
            cloned(s.ports.clock, set.content.ports().7),
            cloned(s.ports.demoi, set.feed.ports().0),
            cloned(s.ports.posts, set.feed.ports().1),
            cloned(s.ports.post_votes, set.feed.ports().2),
            cloned(s.ports.memberships, set.feed.ports().3),
            cloned(s.ports.recommender, set.feed.ports().4),
    {
        ServiceSet {
            blocking: Arc::new(s.blocking_service()),
            profile: Arc::new(s.profile_service()),
            search: Arc::new(s.search_service()),
            metrics: Arc::new(s.metrics_service()),
            membership: Arc::new(s.membership_service()),
            founding: Arc::new(s.founding_service()),
            content: Arc::new(s.content_service()),
            feed: Arc::new(s.feed_service()),
        }
    }
}

} // verus!
