use democratos_app::services::service_set::{Ports, ServiceSet};
use democratos_app::services::services::Services;
use democratos_app::services::feed_service::{FeedSection, FeedService, RecommendFeed, RefreshRecommendations, TOP_FEED_LIMIT};
use democratos_app::services::listing::{rank_by_keys, reversed};
use democratos_app::services::model::{Comment, CommentId, Demos, DemosId, Post, PostId, Timestamp, UserId};
use democratos_app::services::profile_service::ProfileService;
use democratos_app::services::ranking::{apply_order, rank_order};

fn post(id: u64, demos: u64, author: u64, created: i64) -> Post {
    Post {
        id: PostId(id),
        demos_id: DemosId(demos),
        author: UserId(author),
        title: format!("post {id}"),
        body: String::new(),
        tags: vec![],
        created_at: Timestamp(created),
        removed: false,
        pending_review: false,
        is_nsfw: false,
    }
}

fn demos(id: u64, slug: &str) -> Demos {
    Demos { id: DemosId(id), slug: slug.to_string(), name: slug.to_uppercase() }
}

fn ids(items: &[Post]) -> Vec<u64> {
    items.iter().map(|p| p.id.0).collect()
}

#[test]
fn rank_order_is_score_then_recency_then_input_position() {
    let keys = vec![(1, 10), (3, 5), (3, 7), (1, 10)];
    assert_eq!(rank_order(&keys), vec![2, 1, 0, 3]);
    assert_eq!(rank_order(&vec![]), Vec::<usize>::new());
}

#[test]
fn apply_order_places_items() {
    assert_eq!(apply_order(vec!['a', 'b', 'c'], &vec![2, 0, 1]), vec!['c', 'a', 'b']);
    assert_eq!(apply_order(vec!['a', 'b', 'c'], &vec![1]), vec!['b']);
}

#[test]
fn reversed_and_rank_by_keys() {
    assert_eq!(reversed(vec![1, 2, 3]), vec![3, 2, 1]);
    let out = rank_by_keys(vec!["old", "new", "best"], &vec![0, 0, 9], &vec![1, 2, 0]);
    assert_eq!(out, vec!["best", "new", "old"]);
}

#[test]
fn top_posts_ranks_listed_posts_with_slugs() {
    let svc = FeedService::new((), (), (), (), ());
    let mut removed = post(2, 1, 1, 50);
    removed.removed = true;
    let mut hidden = post(3, 1, 1, 60);
    hidden.pending_review = true;
    let posts = vec![post(1, 1, 1, 10), removed, hidden, post(4, 2, 1, 20), post(5, 7, 1, 30)];
    let scores = vec![5, 100, 100, 5, 6];
    let out = svc.top_posts(&vec![demos(1, "rust"), demos(2, "go")], posts, &scores);
    let got: Vec<(u64, i64, String)> =
        out.iter().map(|f| (f.post.id.0, f.score, f.community_slug.clone())).collect();
    assert_eq!(
        got,
        vec![(5, 6, String::new()), (4, 5, "go".to_string()), (1, 5, "rust".to_string())]
    );
}

#[test]
fn top_posts_is_capped() {
    let svc = FeedService::new((), (), (), (), ());
    let posts: Vec<Post> = (0..60).map(|i| post(i, 1, 1, i as i64)).collect();
    let scores: Vec<i64> = (0..60).map(|i| i as i64 % 3).collect();
    let out = svc.top_posts(&vec![demos(1, "rust")], posts, &scores);
    assert_eq!(TOP_FEED_LIMIT, 50);
    assert_eq!(out.len(), 50);
    // Highest score first, newest first within a score.
    assert_eq!(out[0].post.id.0, 59);
    assert_eq!(out[0].score, 2);
    assert!(out.windows(2).all(|w| (w[0].score, w[0].post.created_at.0) >= (w[1].score, w[1].post.created_at.0)));
}

#[test]
fn top_posts_slug_uses_last_listed_community() {
    let svc = FeedService::new((), (), (), (), ());
    let out = svc.top_posts(&vec![demos(1, "first"), demos(1, "second")], vec![post(1, 1, 1, 0)], &vec![0]);
    assert_eq!(out[0].community_slug, "second");
}

#[test]
fn home_feed_keeps_posts_that_clear_each_bar() {
    let svc = FeedService::new((), (), (), (), ());
    let mut gone = post(9, 3, 1, 99);
    gone.removed = true;
    let sections = vec![
        FeedSection {
            demos: Some(demos(1, "rust")),
            threshold: 2,
            posts: vec![post(1, 1, 1, 10), post(2, 1, 1, 20), gone],
            scores: vec![2, 1, 50],
        },
        FeedSection { demos: None, threshold: 0, posts: vec![post(3, 2, 1, 30)], scores: vec![10] },
        FeedSection {
            demos: Some(demos(4, "go")),
            threshold: 1,
            posts: vec![post(5, 4, 1, 5), post(6, 4, 1, 6)],
            scores: vec![2, 7],
        },
    ];
    let out = svc.feed(sections);
    let got: Vec<(u64, i64, String)> =
        out.iter().map(|f| (f.post.id.0, f.score, f.community_slug.clone())).collect();
    assert_eq!(
        got,
        vec![(6, 7, "go".to_string()), (1, 2, "rust".to_string()), (5, 2, "go".to_string())]
    );
}

#[test]
fn profile_posts_are_the_authors_live_posts_newest_first() {
    let svc = ProfileService::new((), ());
    let mut removed = post(2, 1, 7, 40);
    removed.removed = true;
    let posts = vec![post(1, 1, 7, 10), removed, post(3, 1, 8, 50), post(4, 2, 7, 30), post(5, 1, 7, 30)];
    let out = svc.posts_by_author(posts, UserId(7));
    assert_eq!(ids(&out), vec![4, 5, 1]);
}

#[test]
fn profile_comments_skip_removed_newest_first() {
    let svc = ProfileService::new((), ());
    let c = |id: u64, created: i64, removed: bool| Comment {
        id: CommentId(id),
        post_id: PostId(1),
        author: UserId(7),
        body: "hi".to_string(),
        created_at: Timestamp(created),
        removed,
        pending_review: false,
    };
    let out = svc.comments_by_author(vec![c(1, 5, false), c(2, 9, true), c(3, 7, false), c(4, 5, false)]);
    let got: Vec<u64> = out.iter().map(|c| c.id.0).collect();
    assert_eq!(got, vec![3, 1, 4]);
}

#[test]
fn recommendation_handles_are_built_from_the_feed_ports() {
    let svc = FeedService::new("demoi", "posts", "votes", "members", "index");
    let read: RecommendFeed<&str, &str, &str, &str> = svc.recommend_feed();
    assert_eq!(
        (*read.post_votes(), *read.recommender(), *read.posts(), *read.demoi()),
        ("votes", "index", "posts", "demoi")
    );
    let refresh: RefreshRecommendations<&str, &str> = svc.refresh_recommendations();
    assert_eq!((*refresh.post_votes(), *refresh.recommender()), ("votes", "index"));
}

#[test]
fn service_set_builds_every_service_over_the_containers_ports() {
    let services = Services {
        ports: Ports {
            users: "users",
            demoi: "demoi",
            memberships: "members",
            posts: "posts",
            comments: "comments",
            post_votes: "post votes",
            comment_votes: "comment votes",
            nsfw_scanner: "scanner",
            clock: "clock",
            foundings: "foundings",
            recommender: "index",
            rest: (),
        },
        requires_age_verification: false,
        require_signatures: false,
        public_base_url: String::new(),
        invite_token_ttl_days: 7,
    };
    let set = ServiceSet::from_services(&services);
    assert_eq!(*set.metrics.posts(), "posts");
    assert_eq!(*set.metrics.comments(), "comments");
    assert_eq!(*set.metrics.post_votes(), "post votes");
    assert_eq!(*set.metrics.comment_votes(), "comment votes");
    assert_eq!(*set.metrics.memberships(), "members");
    let read = services.recommend_feed();
    assert_eq!(
        (*read.post_votes(), *read.recommender(), *read.posts(), *read.demoi()),
        ("post votes", "index", "posts", "demoi")
    );
    let refresh = services.refresh_recommendations();
    assert_eq!((*refresh.post_votes(), *refresh.recommender()), ("post votes", "index"));
    let feed = services.feed_service().recommend_feed();
    assert_eq!(*feed.recommender(), "index");
}
