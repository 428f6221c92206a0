use democratos_app::services::content_service::{BotSignals, ContentService};
use democratos_app::services::errors::{MemberActionError, StoreError};
use democratos_app::services::model::{Demos, DemosId, MemberStanding, Post, PostId, Timestamp, UserId};
use democratos_app::services::post_matches::{demos_matches, post_matches};
use democratos_app::services::search_scope::SearchScope;
use democratos_app::services::search_service::{CommunitySource, PostSource, SearchService};
use democratos_app::services::text::{contains_text, lowercase_text, split_words, trim_text};

fn post(id: u64, title: &str, body: &str, tags: &[&str]) -> Post {
    Post {
        id: PostId(id),
        demos_id: DemosId(1),
        author: UserId(1),
        title: title.to_string(),
        body: body.to_string(),
        tags: tags.iter().map(|t| t.to_string()).collect(),
        created_at: Timestamp(0),
        removed: false,
        pending_review: false,
        is_nsfw: false,
    }
}

fn demos(slug: &str, name: &str) -> Demos {
    Demos { id: DemosId(1), slug: slug.to_string(), name: name.to_string() }
}

fn content() -> ContentService<(), (), (), (), (), (), (), (), (), (), (), ()> {
    ContentService::new((), (), (), (), (), (), (), (), (), (), (), ())
}

#[test]
fn std_text_helpers() {
    assert_eq!(trim_text("  a b \n"), "a b");
    assert_eq!(lowercase_text("RuSt ÄÖ"), "rust äö");
    assert_eq!(split_words("  one\ttwo  three "), vec!["one", "two", "three"]);
    let chars = |s: &str| s.chars().collect::<Vec<char>>();
    assert!(contains_text(&chars("hello"), &chars("ell")));
    assert!(contains_text(&chars("hello"), &chars("")));
    assert!(!contains_text(&chars("hello"), &chars("hellos")));
    assert!(!contains_text(&chars(""), &chars("a")));
}

#[test]
fn query_tokens_are_lowercased_words() {
    let s = SearchService::new((), ());
    assert_eq!(s.query_tokens("Rust  LANG\tfun"), vec!["rust", "lang", "fun"]);
    assert!(s.query_tokens("   ").is_empty());
}

#[test]
fn a_token_matches_title_body_or_a_whole_tag() {
    let p = post(1, "Learning Rust", "a Borrow checker story", &["systems"]);
    assert!(post_matches(&p, &"rust".to_string()));
    assert!(post_matches(&p, &"borrow".to_string()));
    assert!(post_matches(&p, &"systems".to_string()));
    assert!(!post_matches(&p, &"sys".to_string()));
    assert!(!post_matches(&p, &"go".to_string()));
    let d = demos("rustlang", "Rustaceans United");
    assert!(demos_matches(&d, &"united".to_string()));
    assert!(demos_matches(&d, &"lang".to_string()));
    assert!(!demos_matches(&d, &"garden".to_string()));
}

#[test]
fn search_sources_follow_scope_and_tag() {
    let s = SearchService::new((), ());
    assert!(matches!(s.post_source(SearchScope::All, Some("t".to_string())), PostSource::TaggedAll(t) if t == "t"));
    assert!(matches!(
        s.post_source(SearchScope::Demos(DemosId(3)), Some("t".to_string())),
        PostSource::TaggedIn(DemosId(3), t) if t == "t"
    ));
    assert!(matches!(s.post_source(SearchScope::All, None), PostSource::All));
    assert!(matches!(s.post_source(SearchScope::Demos(DemosId(3)), None), PostSource::In(DemosId(3))));
    assert!(matches!(s.community_source(SearchScope::Demos(DemosId(3)), Some("t".to_string()), true), CommunitySource::Nothing));
    assert!(matches!(s.community_source(SearchScope::All, Some("t".to_string()), false), CommunitySource::Tagged(t) if t == "t"));
    assert!(matches!(s.community_source(SearchScope::All, None, true), CommunitySource::All));
    assert!(matches!(s.community_source(SearchScope::All, None, false), CommunitySource::Nothing));
}

#[test]
fn matching_keeps_listed_posts_that_some_token_hits() {
    let s = SearchService::new((), ());
    let mut removed = post(2, "rust", "", &[]);
    removed.removed = true;
    let mut hidden = post(4, "rust", "", &[]);
    hidden.pending_review = true;
    let posts = vec![post(1, "Rust tips", "", &[]), removed, post(3, "Gardening", "", &[]), hidden];
    let communities = vec![demos("rust", "Rustaceans"), demos("garden", "Gardeners")];
    let tokens = vec!["rust".to_string(), "zzz".to_string()];
    let r = s.matching(posts.clone(), communities.clone(), &tokens);
    assert_eq!(r.posts.iter().map(|p| p.id.0).collect::<Vec<_>>(), vec![1]);
    assert_eq!(r.communities.iter().map(|d| d.slug.clone()).collect::<Vec<_>>(), vec!["rust"]);
    let all = s.matching(posts, communities, &vec![]);
    assert_eq!(all.posts.iter().map(|p| p.id.0).collect::<Vec<_>>(), vec![1, 3]);
    assert_eq!(all.communities.len(), 2);
}

#[test]
fn commenting_and_voting_need_an_unsanctioned_membership() {
    let c = content();
    let m = MemberStanding { user_id: UserId(1), is_voter: false, is_sanctioned: false, is_franchised: false, contribution: 0 };
    assert_eq!(c.require_unsanctioned_member(Some(m)), Ok(m));
    assert_eq!(c.require_unsanctioned_member(None), Err(MemberActionError::Store(StoreError::NotFound)));
    let s = MemberStanding { is_sanctioned: true, ..m };
    assert_eq!(c.require_unsanctioned_member(Some(s)), Err(MemberActionError::Sanctioned));
}

#[test]
fn nsfw_verdict_and_report() {
    let c = content();
    assert!(c.nsfw_verdict(true, &vec![], &vec![]));
    assert!(c.nsfw_verdict(false, &vec!["art".to_string(), "nsfw".to_string()], &vec![]));
    assert!(c.nsfw_verdict(false, &vec!["art".to_string()], &vec![false, true]));
    assert!(!c.nsfw_verdict(false, &vec!["NSFW".to_string()], &vec![false]));
    assert!(c.nsfw_report_needed(true, false));
    assert!(!c.nsfw_report_needed(true, true));
    assert!(!c.nsfw_report_needed(false, false));
}

#[test]
fn bot_signals_count_recent_and_duplicate_actions() {
    let c = content();
    assert_eq!(c.hour_ago(Timestamp(10_000)), Timestamp(6_400));
    let mut a = post(1, "x", "y", &[]);
    a.created_at = Timestamp(100);
    let mut b = post(2, "x", "y", &[]);
    b.created_at = Timestamp(50);
    let mut d = post(3, "z", "w", &[]);
    d.created_at = Timestamp(200);
    let s = c.bot_signals(12, &vec![a, b, d], Timestamp(100), 3, 4);
    assert_eq!(s, BotSignals { account_age_days: 12, actions_last_hour: 5, duplicate_actions: 1, demos_spammed: 4 });
    let none = c.bot_signals(0, &vec![], Timestamp(0), 0, 0);
    assert_eq!(none, BotSignals { account_age_days: 0, actions_last_hour: 0, duplicate_actions: 0, demos_spammed: 0 });
}

#[test]
fn more_tokens_find_more_and_order_does_not_matter() {
    let s = SearchService::new((), ());
    let posts = vec![post(1, "Rust tips", "", &[]), post(2, "Go tips", "", &[]), post(3, "Gardening", "", &[])];
    let communities = vec![demos("rust", "Rustaceans"), demos("go", "Gophers")];
    let ids = |r: &democratos_app::services::search_results::SearchResults| {
        r.posts.iter().map(|p| p.id.0).collect::<Vec<_>>()
    };
    let one = s.matching(posts.clone(), communities.clone(), &vec!["rust".to_string()]);
    let two = s.matching(posts.clone(), communities.clone(), &vec!["rust".to_string(), "go".to_string()]);
    let swapped = s.matching(posts, communities, &vec!["go".to_string(), "rust".to_string(), "go".to_string()]);
    assert_eq!(ids(&one), vec![1]);
    assert_eq!(ids(&two), vec![1, 2]);
    assert_eq!(ids(&swapped), vec![1, 2]);
    assert_eq!(one.communities.len(), 1);
    assert_eq!(two.communities.len(), 2);
    assert_eq!(swapped.communities.len(), 2);
}

#[test]
fn unicode_white_space_trims_and_splits() {
    assert_eq!(trim_text("\u{3000}\u{a0}x y\u{2028}\u{85}"), "x y");
    assert_eq!(trim_text("\u{200b}x"), "\u{200b}x");
    assert_eq!(split_words("a\u{a0}b\u{1680}c\u{202f}\u{205f}d"), vec!["a", "b", "c", "d"]);
    let s = SearchService::new((), ());
    let joined = s.query_tokens(&format!("{} {}", "Rust\tTips", "GO"));
    let mut parts = s.query_tokens("Rust\tTips");
    parts.extend(s.query_tokens("GO"));
    assert_eq!(joined, parts);
    assert_eq!(joined, vec!["rust", "tips", "go"]);
}

#[test]
fn ascii_case_and_scan_steps() {
    let s = SearchService::new((), ());
    assert_eq!(s.query_tokens("RuSt GO"), s.query_tokens("rust go"));
    let c = content();
    let tags = vec!["art".to_string()];
    assert!(c.next_scan_owed(false, &tags, &vec![], 2));
    assert!(c.next_scan_owed(false, &tags, &vec![false], 2));
    assert!(!c.next_scan_owed(false, &tags, &vec![false, false], 2));
    assert!(!c.next_scan_owed(false, &tags, &vec![true], 2));
    assert!(!c.next_scan_owed(true, &tags, &vec![], 2));
    assert!(!c.next_scan_owed(false, &vec!["nsfw".to_string()], &vec![], 2));
    assert_eq!(c.author_opening_vote(), Some(true));
}
