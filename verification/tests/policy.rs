use democratos_app::services::errors::CanPostError;
use democratos_app::services::member_metrics::MemberMetrics;
use democratos_app::services::membership_service::MembershipService;
use democratos_app::services::enfranchise_outcome::EnfranchiseOutcome;
use democratos_app::services::metrics_service::{CommentTally, MetricsService, PostTally};
use democratos_app::services::model::{MemberStanding, PostId, Timestamp, UserId};
use democratos_app::services::posting_allowed::{posting_allowed, require_can_post, PostingPolicy};
use democratos_app::services::vote_value::vote_value;
use democratos_app::services::voting_window_days::{voting_window_days, DecisionClass};

fn member(is_voter: bool, is_sanctioned: bool, contribution: i64) -> MemberStanding {
    MemberStanding { user_id: UserId(1), is_voter, is_sanctioned, is_franchised: is_voter, contribution }
}

#[test]
fn open_policy_lets_anyone_unsanctioned_post() {
    assert!(posting_allowed(PostingPolicy::Open, None));
    assert!(posting_allowed(PostingPolicy::Open, Some(&member(false, false, 0))));
    assert!(!posting_allowed(PostingPolicy::Open, Some(&member(true, true, 100))));
}

#[test]
fn member_voter_and_contribution_policies() {
    assert!(!posting_allowed(PostingPolicy::Members, None));
    assert!(posting_allowed(PostingPolicy::Members, Some(&member(false, false, 0))));
    assert!(!posting_allowed(PostingPolicy::Voters, Some(&member(false, false, 50))));
    assert!(posting_allowed(PostingPolicy::Voters, Some(&member(true, false, 0))));
    assert!(!posting_allowed(PostingPolicy::Voters, None));
    assert!(posting_allowed(PostingPolicy::MinContribution(10), Some(&member(false, false, 10))));
    assert!(!posting_allowed(PostingPolicy::MinContribution(10), Some(&member(false, false, 9))));
    assert!(!posting_allowed(PostingPolicy::MinContribution(-5), None));
}

#[test]
fn sanctioned_member_is_refused_under_every_policy() {
    let m = member(true, true, 1_000);
    for policy in [
        PostingPolicy::Open,
        PostingPolicy::Members,
        PostingPolicy::Voters,
        PostingPolicy::MinContribution(0),
    ] {
        assert!(!posting_allowed(policy, Some(&m)));
        assert_eq!(require_can_post(policy, Some(&m)), Err(CanPostError::Sanctioned));
    }
}

#[test]
fn require_can_post_explains_each_refusal() {
    assert_eq!(require_can_post(PostingPolicy::Open, None), Ok(()));
    assert_eq!(
        require_can_post(PostingPolicy::Members, None),
        Err(CanPostError::Rejected("join this community to post here".to_string()))
    );
    assert_eq!(
        require_can_post(PostingPolicy::Voters, Some(&member(false, false, 0))),
        Err(CanPostError::Rejected("only voters may post in this community".to_string()))
    );
    assert_eq!(
        require_can_post(PostingPolicy::MinContribution(3), Some(&member(false, false, 2))),
        Err(CanPostError::Rejected(
            "you haven't earned enough popularity to post in this community yet".to_string()
        ))
    );
    assert_eq!(require_can_post(PostingPolicy::MinContribution(3), Some(&member(false, false, 3))), Ok(()));
}

#[test]
fn vote_values_are_signed_units() {
    assert_eq!(vote_value(Some(true)), 1);
    assert_eq!(vote_value(Some(false)), -1);
    assert_eq!(vote_value(None), 0);
}

#[test]
fn voting_windows_by_decision_class() {
    assert_eq!(voting_window_days(DecisionClass::Moderation), 3);
    assert_eq!(voting_window_days(DecisionClass::RuleChange), 5);
    assert_eq!(voting_window_days(DecisionClass::BanOrRecall), 5);
    assert_eq!(voting_window_days(DecisionClass::Constitutional), 7);
}

#[test]
fn popularity_sums_post_and_comment_scores() {
    let d = MemberMetrics::default();
    assert_eq!((d.posts, d.comments, d.net_post_upvotes, d.net_comment_upvotes), (0, 0, 0, 0));
    assert_eq!(d.popularity(), 0);
    let m = MemberMetrics { posts: 2, comments: 5, net_post_upvotes: 3, net_comment_upvotes: -1 };
    assert_eq!(m.popularity(), 2);
}

#[test]
fn member_metrics_discount_own_votes_and_foreign_comments() {
    let svc = MetricsService::new((), (), (), (), ());
    let posts = vec![
        PostTally { removed: true, score: 40, own_vote: None },
        PostTally { removed: false, score: 5, own_vote: Some(true) },
        PostTally { removed: false, score: -2, own_vote: None },
    ];
    let comments = vec![
        CommentTally { post_id: PostId(1), removed: false, score: 3, own_vote: Some(false) },
        CommentTally { post_id: PostId(99), removed: false, score: 50, own_vote: None },
        CommentTally { post_id: PostId(2), removed: true, score: 7, own_vote: None },
    ];
    let here = vec![PostId(1), PostId(2)];
    let m = svc.member_metrics(&posts, &comments, &here).unwrap();
    assert_eq!(m.posts, 2);
    assert_eq!(m.net_post_upvotes, 2);
    assert_eq!(m.comments, 1);
    assert_eq!(m.net_comment_upvotes, 4);
    assert_eq!(m.popularity(), 6);
}

#[test]
fn own_upvote_earns_no_contribution() {
    let svc = MetricsService::new((), (), (), (), ());
    // Nobody else voted; the author's own up-vote makes the score 1.
    let posts = vec![PostTally { removed: false, score: 1, own_vote: Some(true) }];
    let m = svc.member_metrics(&posts, &vec![], &vec![]).unwrap();
    assert_eq!(m.net_post_upvotes, 0);
    assert_eq!(m.popularity(), 0);
}

#[test]
fn enfranchisement_layers_in_order() {
    let svc = MembershipService::new((), (), (), ());
    assert_eq!(svc.request_enfranchisement(true, "x", false, 0), (EnfranchiseOutcome::Admitted, false));
    assert_eq!(
        svc.request_enfranchisement(false, "too new", false, 5),
        (EnfranchiseOutcome::NotEligible("too new"), false)
    );
    assert_eq!(svc.request_enfranchisement(false, "", true, 0), (EnfranchiseOutcome::Queued, false));
    assert_eq!(svc.request_enfranchisement(false, "", true, 1), (EnfranchiseOutcome::Admitted, true));
}

#[test]
fn rate_cap_window_is_thirty_days() {
    let svc = MembershipService::new((), (), (), ());
    assert_eq!(svc.rate_cap_window_start(Timestamp(3_000_000)), Timestamp(3_000_000 - 30 * 86_400));
}

#[test]
fn contribution_saturates_instead_of_wrapping() {
    let svc = MembershipService::new((), (), (), ());
    assert_eq!(svc.record_contribution(10, -3), 7);
    assert_eq!(svc.record_contribution(i64::MAX - 1, 5), i64::MAX);
    assert_eq!(svc.record_contribution(i64::MIN + 1, -5), i64::MIN);
    assert_eq!(svc.record_contribution(4, 0), 4);
}

#[test]
fn own_votes_never_change_metrics_in_aggregate() {
    let svc = MetricsService::new((), (), (), (), ());
    let here = vec![PostId(1)];
    // Others gave the posts +3 and -1, and the comment +2.
    let run = |own_post: Option<bool>, own_comment: Option<bool>| {
        let w = |v: Option<bool>| vote_value(v);
        let posts = vec![
            PostTally { removed: false, score: 3 + w(own_post), own_vote: own_post },
            PostTally { removed: false, score: -1 + w(own_post), own_vote: own_post },
        ];
        let comments =
            vec![CommentTally { post_id: PostId(1), removed: false, score: 2 + w(own_comment), own_vote: own_comment }];
        svc.member_metrics(&posts, &comments, &here).unwrap()
    };
    let base = run(None, None);
    for own_post in [None, Some(true), Some(false)] {
        for own_comment in [None, Some(true), Some(false)] {
            assert_eq!(run(own_post, own_comment), base);
        }
    }
    assert_eq!((base.net_post_upvotes, base.net_comment_upvotes, base.popularity()), (2, 2, 4));
}

#[test]
fn member_metrics_overflow_is_reported_not_wrapped() {
    let svc = MetricsService::new((), (), (), (), ());
    let huge = vec![
        PostTally { removed: false, score: i64::MAX, own_vote: None },
        PostTally { removed: false, score: 1, own_vote: None },
    ];
    assert_eq!(svc.member_metrics(&huge, &vec![], &vec![]), None);
    // A removed post is never appraised, so its extreme score is harmless.
    let removed = vec![PostTally { removed: true, score: i64::MIN, own_vote: Some(true) }];
    assert_eq!(svc.member_metrics(&removed, &vec![], &vec![]).unwrap().posts, 0);
}
