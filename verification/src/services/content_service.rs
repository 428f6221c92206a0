//! Content use-cases: the posting and voting guards, the automatic NSFW
//! flag, and the behavioural signals the bot detector reads.
use vstd::prelude::*;

use super::errors::{MemberActionError, StoreError};
use super::model::{MemberStanding, Post, Timestamp};
use super::vote_value::vote_weight;

verus! {

/// The behavioural signals the bot detector weighs.
#[derive(Clone, Copy, PartialEq, Eq, Debug)]
pub struct BotSignals {
    pub account_age_days: i64,
    pub actions_last_hour: u32,
    pub duplicate_actions: u32,
    pub demos_spammed: u32,
}

/// How many of `posts` were created at or after `since`.
pub open spec fn recent_count(posts: Seq<Post>, since: Timestamp) -> nat
    decreases posts.len(),
{
    if posts.len() == 0 {
        0
    } else {
        recent_count(posts.drop_last(), since) + if posts.last().created_at.0 >= since.0 {
            1nat
        } else {
            0nat
        }
    }
}

/// Whether post `i` is the first with its title and body.
pub open spec fn first_of_kind(posts: Seq<Post>, i: int) -> bool {
    forall|j: int|
        #![trigger posts[j]]
        0 <= j < i ==> !(posts[j].title@ == posts[i].title@ && posts[j].body@ == posts[i].body@)
}

/// How many distinct `(title, body)` pairs `posts` holds.
pub open spec fn distinct_count(posts: Seq<Post>) -> nat
    decreases posts.len(),
{
    if posts.len() == 0 {
        0
    } else {
        distinct_count(posts.drop_last()) + if first_of_kind(posts, posts.len() - 1) {
            1nat
        } else {
            0nat
        }
    }
}

/// The signals for an author whose posts in the community are `posts`: actions
/// in the last hour are the posts created since `hour_ago` plus
/// `recent_comments` (each count cut to 32 bits, the width of the signal
/// counters); duplicate actions are the posts beyond the distinct `(title, body)`
/// pairs (saturating at zero); `demos_spammed` is cut to 32 bits.
pub open spec fn signals_for(account_age_days: i64, posts: Seq<Post>, hour_ago: Timestamp, recent_comments: u64, demos_spammed: u64) -> BotSignals {
    BotSignals {
        account_age_days,
        actions_last_hour: ((recent_count(posts, hour_ago) as u32) + (recent_comments as u32)) as u32,
        duplicate_actions: if (posts.len() as u32) >= (distinct_count(posts) as u32) {
            ((posts.len() as u32) - (distinct_count(posts) as u32)) as u32
        } else {
            0
        },
        demos_spammed: demos_spammed as u32,
    }
}

/// Whether no two of `posts` share both title and body.
pub open spec fn all_distinct_in_title_and_body(posts: Seq<Post>) -> bool {
    forall|i: int, j: int|
        0 <= i < j < posts.len() ==> !((#[trigger] posts[i]).title@ == (#[trigger] posts[j]).title@ && posts[i].body@
            == posts[j].body@)
}

/// Duplicate actions are repeated (title, body) pairs: posts that differ in
/// title or in body are never counted as duplicates, whatever else they
/// share, while posts that all repeat one pair count all but the first.
/// Recent actions count the posts created at or after the window start plus
/// the recent comments, and the other signals pass through.
pub proof fn law_bot_signals_count_what_they_name(
    account_age_days: i64,
    posts: Seq<Post>,
    hour_ago: Timestamp,
    recent_comments: u64,
    demos_spammed: u64,
)
    ensures
        all_distinct_in_title_and_body(posts) ==> signals_for(
            account_age_days,
            posts,
            hour_ago,
            recent_comments,
            demos_spammed,
        ).duplicate_actions == 0,
        0 < posts.len() <= u32::MAX && (forall|i: int|
            0 <= i < posts.len() ==> (#[trigger] posts[i]).title@ == posts[0].title@ && posts[i].body@
                == posts[0].body@) ==> signals_for(
            account_age_days,
            posts,
            hour_ago,
            recent_comments,
            demos_spammed,
        ).duplicate_actions == posts.len() - 1,
        (forall|i: int| 0 <= i < posts.len() ==> (#[trigger] posts[i]).created_at.0 >= hour_ago.0) && posts.len()
            + recent_comments <= u32::MAX ==> signals_for(
            account_age_days,
            posts,
            hour_ago,
            recent_comments,
            demos_spammed,
        ).actions_last_hour == posts.len() + recent_comments,
        (forall|i: int| 0 <= i < posts.len() ==> (#[trigger] posts[i]).created_at.0 < hour_ago.0) && recent_comments
            <= u32::MAX ==> signals_for(
            account_age_days,
            posts,
            hour_ago,
            recent_comments,
            demos_spammed,
        ).actions_last_hour == recent_comments,
        signals_for(account_age_days, posts, hour_ago, recent_comments, demos_spammed).account_age_days
            == account_age_days,
        demos_spammed <= u32::MAX ==> signals_for(
            account_age_days,
            posts,
            hour_ago,
            recent_comments,
            demos_spammed,
        ).demos_spammed == demos_spammed,
{
    if all_distinct_in_title_and_body(posts) {
        lemma_distinct_count_of_distinct(posts);
    }
    if 0 < posts.len() && forall|i: int|
        0 <= i < posts.len() ==> (#[trigger] posts[i]).title@ == posts[0].title@ && posts[i].body@ == posts[0].body@ {
        lemma_distinct_count_of_repeats(posts);
    }
    if forall|i: int| 0 <= i < posts.len() ==> (#[trigger] posts[i]).created_at.0 >= hour_ago.0 {
        lemma_recent_count_all(posts, hour_ago);
    }
    if forall|i: int| 0 <= i < posts.len() ==> (#[trigger] posts[i]).created_at.0 < hour_ago.0 {
        lemma_recent_count_none(posts, hour_ago);
    }
}

/// Posts with pairwise different (title, body) pairs are all distinct.
proof fn lemma_distinct_count_of_distinct(posts: Seq<Post>)
    requires
        all_distinct_in_title_and_body(posts),
    ensures
        distinct_count(posts) == posts.len(),
    decreases posts.len(),
{
    if posts.len() > 0 {
        let d = posts.drop_last();
        assert forall|i: int, j: int| 0 <= i < j < d.len() implies !((#[trigger] d[i]).title@ == (#[trigger] d[j]).title@
            && d[i].body@ == d[j].body@) by {
            assert(d[i] == posts[i] && d[j] == posts[j]);
        }
        lemma_distinct_count_of_distinct(d);
        let n = posts.len() - 1;
        assert forall|j: int| #![trigger posts[j]] 0 <= j < n implies !(posts[j].title@ == posts[n].title@
            && posts[j].body@ == posts[n].body@) by {
            assert(posts[j] == posts[j]);
        }
        assert(first_of_kind(posts, n));
    }
}

/// Posts that all repeat one (title, body) pair hold a single distinct one.
proof fn lemma_distinct_count_of_repeats(posts: Seq<Post>)
    requires
        posts.len() > 0,
        forall|i: int| 0 <= i < posts.len() ==> (#[trigger] posts[i]).title@ == posts[0].title@ && posts[i].body@
            == posts[0].body@,
    ensures
        distinct_count(posts) == 1,
    decreases posts.len(),
{
    let n = posts.len() - 1;
    if posts.len() == 1 {
        assert(distinct_count(posts.drop_last()) == 0);
        assert(first_of_kind(posts, 0));
    } else {
        let d = posts.drop_last();
        assert forall|i: int| 0 <= i < d.len() implies (#[trigger] d[i]).title@ == d[0].title@ && d[i].body@
            == d[0].body@ by {
            assert(d[i] == posts[i] && d[0] == posts[0]);
        }
        lemma_distinct_count_of_repeats(d);
        assert(posts[0].title@ == posts[n].title@ && posts[0].body@ == posts[n].body@);
        assert(!first_of_kind(posts, n));
    }
}

/// When every post is recent, every post counts.
proof fn lemma_recent_count_all(posts: Seq<Post>, since: Timestamp)
    requires
        forall|i: int| 0 <= i < posts.len() ==> (#[trigger] posts[i]).created_at.0 >= since.0,
    ensures
        recent_count(posts, since) == posts.len(),
    decreases posts.len(),
{
    if posts.len() > 0 {
        let d = posts.drop_last();
        assert forall|i: int| 0 <= i < d.len() implies (#[trigger] d[i]).created_at.0 >= since.0 by {
            assert(d[i] == posts[i]);
        }
        lemma_recent_count_all(d, since);
        assert(posts.last() == posts[posts.len() - 1]);
    }
}

/// When no post is recent, none counts.
proof fn lemma_recent_count_none(posts: Seq<Post>, since: Timestamp)
    requires
        forall|i: int| 0 <= i < posts.len() ==> (#[trigger] posts[i]).created_at.0 < since.0,
    ensures
        recent_count(posts, since) == 0,
    decreases posts.len(),
{
    if posts.len() > 0 {
        let d = posts.drop_last();
        assert forall|i: int| 0 <= i < d.len() implies (#[trigger] d[i]).created_at.0 < since.0 by {
            assert(d[i] == posts[i]);
        }
        lemma_recent_count_none(d, since);
        assert(posts.last() == posts[posts.len() - 1]);
    }
}

/// Content use-cases, over the content, vote, scanner, community, user and
/// clock ports plus the account, notification, metrics and moderation peers.
pub struct ContentService<P, C, PV, CV, S, D, U, K, A, N, MS, MO> {
    posts: P,
    comments: C,
    post_votes: PV,
    comment_votes: CV,
    nsfw_scanner: S,
    demoi: D,
    users: U,
    clock: K,
    account: A,
    notification: N,
    metrics: MS,
    moderation: MO,
}

impl<P, C, PV, CV, S, D, U, K, A, N, MS, MO> ContentService<P, C, PV, CV, S, D, U, K, A, N, MS, MO> {
    /// The storage and clock ports this service was built with, in
    /// constructor order.
    pub closed spec fn ports(&self) -> (P, C, PV, CV, S, D, U, K) {
        (self.posts, self.comments, self.post_votes, self.comment_votes, self.nsfw_scanner, self.demoi, self.users, self.clock)
    }

    /// The peer services this service was built with, in constructor order.
    pub closed spec fn peers(&self) -> (A, N, MS, MO) {
        (self.account, self.notification, self.metrics, self.moderation)
    }

    /// Build the service over its ports and peers.
    pub fn new(
        posts: P,
        comments: C,
        post_votes: PV,
        comment_votes: CV,
        nsfw_scanner: S,
        demoi: D,
        users: U,
        clock: K,
        account: A,
        notification: N,
        metrics: MS,
        moderation: MO,
    ) -> (s: Self)
        ensures
            s.ports() == (posts, comments, post_votes, comment_votes, nsfw_scanner, demoi, users, clock),
            s.peers() == (account, notification, metrics, moderation),
    {
        ContentService {
            posts,
            comments,
            post_votes,
            comment_votes,
            nsfw_scanner,
            demoi,
            users,
            clock,
            account,
            notification,
            metrics,
            moderation,
        }
    }

    /// The guard on commenting and voting: the actor must be a member
    /// (`NotFound` otherwise) and not under a running sanction.
    pub fn require_unsanctioned_member(&self, membership: Option<MemberStanding>) -> (r: Result<MemberStanding, MemberActionError>)
        ensures
            r == match membership {
                None => Err::<MemberStanding, MemberActionError>(MemberActionError::Store(StoreError::NotFound)),
                Some(m) => if m.is_sanctioned {
                    Err::<MemberStanding, MemberActionError>(MemberActionError::Sanctioned)
                } else {
                    Ok::<MemberStanding, MemberActionError>(m)
                },
            },
    {
        match membership {
            None => Err(MemberActionError::Store(StoreError::NotFound)),
            Some(m) => if m.is_sanctioned {
                Err(MemberActionError::Sanctioned)
            } else {
                Ok(m)
            },
        }
    }

    /// Whether a post is NSFW: its text reads as explicit (`text_flagged`), it
    /// carries the `nsfw` tag, or the scanner judged one of its attachments
    /// explicit (`media_flags`, in attachment order).
    pub fn nsfw_verdict(&self, text_flagged: bool, tags: &Vec<String>, media_flags: &Vec<bool>) -> (r: bool)
        ensures
            r == (text_flagged || (exists|k: int| 0 <= k < tags@.len() && #[trigger] tags@[k]@ == "nsfw"@)
                || media_flags@.contains(true)),
    {
        if text_flagged {
            return true;
        }
        let nsfw = String::from_str("nsfw");
        proof {
            reveal_strlit("nsfw");
        }
        let mut k: usize = 0;
        while k < tags.len()
            invariant
                !text_flagged,
                nsfw@ == "nsfw"@,
                k <= tags@.len(),
                forall|j: int| 0 <= j < k ==> (#[trigger] tags@[j])@ != "nsfw"@,
            decreases tags@.len() - k,
        {
            if tags[k] == nsfw {
                return true;
            }
            k = k + 1;
        }
        let mut k: usize = 0;
        while k < media_flags.len()
            invariant
                !text_flagged,
                k <= media_flags@.len(),
                forall|j: int| 0 <= j < tags@.len() ==> (#[trigger] tags@[j])@ != "nsfw"@,
                forall|j: int| 0 <= j < k ==> !(#[trigger] media_flags@[j]),
            decreases media_flags@.len() - k,
        {
            if media_flags[k] {
                assert(media_flags@[k as int]);
                return true;
            }
            k = k + 1;
        }
        false
    }

    /// Whether another attachment must be scanned: none of the text, the tags
    /// or the attachments scanned so far (`media_flags`, in attachment order)
    /// flags the post, and attachments remain (`attachments` in all). The
    /// scan stops at the first explicit attachment.
    pub fn next_scan_owed(&self, text_flagged: bool, tags: &Vec<String>, media_flags: &Vec<bool>, attachments: usize) -> (r: bool)
        ensures
            r == (!(text_flagged || (exists|k: int| 0 <= k < tags@.len() && #[trigger] tags@[k]@ == "nsfw"@)
                || media_flags@.contains(true)) && media_flags@.len() < attachments),
    {
        !self.nsfw_verdict(text_flagged, tags, media_flags) && media_flags.len() < attachments
    }

    /// The vote a new comment starts with: its author's own up-vote, so every
    /// comment begins at a net score of one.
    pub fn author_opening_vote(&self) -> (v: Option<bool>)
        ensures
            v == Some(true),
            vote_weight(v) == 1,
    {
        Some(true)
    }

    /// Whether a flagged post must also be reported for a jury: only in a
    /// community that has voted to forbid NSFW content. (The machine flags;
    /// the demos judges; the post is never removed here.)
    pub fn nsfw_report_needed(&self, is_nsfw: bool, allows_nsfw: bool) -> (r: bool)
        ensures
            r == (is_nsfw && !allows_nsfw),
    {
        is_nsfw && !allows_nsfw
    }

    /// The start of the bot detector's one-hour window ending at `now`.
    pub fn hour_ago(&self, now: Timestamp) -> (t: Timestamp)
        requires
            now.0 - 3600 >= i64::MIN,
        ensures
            t.0 == now.0 - 3600,
    {
        Timestamp(now.0 - 3600)
    }

    /// The behavioural signals for an author with these posts in the
    /// community (see [`signals_for`]). The two recent-action counts, cut to
    /// 32 bits, must add up within a `u32` (the addition would overflow
    /// otherwise).
    pub fn bot_signals(&self, account_age_days: i64, posts: &Vec<Post>, hour_ago: Timestamp, recent_comments: u64, demos_spammed: u64) -> (s: BotSignals)
        requires
            (recent_count(posts@, hour_ago) as u32) + (recent_comments as u32) <= u32::MAX,
        ensures
            s == signals_for(account_age_days, posts@, hour_ago, recent_comments, demos_spammed),
    {
        let n = posts.len();
        let mut recent: usize = 0;
        let mut distinct: usize = 0;
        let mut i: usize = 0;
        while i < n
            invariant
                n == posts@.len(),
                i <= n,
                recent == recent_count(posts@.take(i as int), hour_ago),
                distinct == distinct_count(posts@.take(i as int)),
                recent <= i,
                distinct <= i,
            decreases n - i,
        {
            let ghost t = posts@.take(i + 1);
            assert(t.drop_last() =~= posts@.take(i as int));
            if posts[i].created_at.0 >= hour_ago.0 {
                recent = recent + 1;
            }
            let mut first = true;
            let mut j: usize = 0;
            while j < i
                invariant
                    n == posts@.len(),
                    j <= i < n,
                    first == forall|q: int|
                        #![trigger posts@[q]]
                        0 <= q < j ==> !(posts@[q].title@ == posts@[i as int].title@ && posts@[q].body@
                            == posts@[i as int].body@),
                decreases i - j,
            {
                if posts[j].title == posts[i].title && posts[j].body == posts[i].body {
                    first = false;
                }
                j = j + 1;
            }
            proof {
                assert(t[i as int] == posts@[i as int]);
                assert forall|q: int| 0 <= q < i implies #[trigger] t[q] == posts@[q] by {}
                if first {
                    assert forall|q: int| #![trigger t[q]] 0 <= q < i implies !(t[q].title@ == t[i as int].title@
                        && t[q].body@ == t[i as int].body@) by {
                        assert(t[q] == posts@[q]);
                    }
                } else {
                    let q = choose|q: int|
                        #![trigger posts@[q]]
                        0 <= q < i && (posts@[q].title@ == posts@[i as int].title@ && posts@[q].body@
                            == posts@[i as int].body@);
                    assert(t[q] == posts@[q]);
                }
                assert(first == first_of_kind(t, i as int));
            }
            if first {
                distinct = distinct + 1;
            }
            i = i + 1;
        }
        assert(posts@.take(n as int) =~= posts@);
        let recent_posts = #[verifier::truncate] (recent as u32);
        let comments_recent = #[verifier::truncate] (recent_comments as u32);
        let total = #[verifier::truncate] (posts.len() as u32);
        let duplicate_actions = total.saturating_sub(#[verifier::truncate] (distinct as u32));
        BotSignals {
            account_age_days,
            actions_last_hour: recent_posts + comments_recent,
            duplicate_actions,
            demos_spammed: #[verifier::truncate] (demos_spammed as u32),
        }
    }
}

} // verus!
