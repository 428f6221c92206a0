//! The plain values that the use-case decisions read: identifiers, instants,
//! and the fields of posts, communities and memberships that a decision looks
//! at. Loading and storing them is the driver's business; the decisions here
//! only compute on them.
use vstd::prelude::*;

verus! {

/// An account.
#[derive(Clone, Copy, PartialEq, Eq, Debug, Hash, PartialOrd, Ord, Structural)]
pub struct UserId(pub u64);

/// A community (a demos).
#[derive(Clone, Copy, PartialEq, Eq, Debug, Hash, PartialOrd, Ord, Structural)]
pub struct DemosId(pub u64);

/// A post.
#[derive(Clone, Copy, PartialEq, Eq, Debug, Hash, PartialOrd, Ord, Structural)]
pub struct PostId(pub u64);

/// A comment.
#[derive(Clone, Copy, PartialEq, Eq, Debug, Hash, PartialOrd, Ord, Structural)]
pub struct CommentId(pub u64);

/// A report.
#[derive(Clone, Copy, PartialEq, Eq, Debug, Hash, PartialOrd, Ord, Structural)]
pub struct ReportId(pub u64);

/// A trial.
#[derive(Clone, Copy, PartialEq, Eq, Debug, Hash, PartialOrd, Ord, Structural)]
pub struct TrialId(pub u64);

/// A community rule.
#[derive(Clone, Copy, PartialEq, Eq, Debug, Hash, PartialOrd, Ord, Structural)]
pub struct RuleId(pub u64);

/// An instant, in Unix seconds.
#[derive(Clone, Copy, PartialEq, Eq, Debug, Hash, PartialOrd, Ord, Structural)]
pub struct Timestamp(pub i64);

/// Seconds in a day.
pub const SECONDS_IN_A_DAY: i64 = 86400;

/// The instant `days` days after `t`, or `None` when the offset or the
/// instant is beyond the range of a timestamp.
pub open spec fn days_after_of(t: Timestamp, days: i64) -> Option<Timestamp> {
    let offset = days * SECONDS_IN_A_DAY;
    if i64::MIN <= offset <= i64::MAX && i64::MIN <= t.0 + offset <= i64::MAX {
        Some(Timestamp((t.0 + offset) as i64))
    } else {
        None
    }
}

/// Zero days later is the same instant, a day is 86400 seconds, and stepping
/// `a` days then `b` days lands where `a + b` days does, whenever the instants
/// and offsets involved are in range.
pub proof fn law_days_add_up(t: Timestamp, a: i64, b: i64)
    ensures
        days_after_of(t, 0) == Some(t),
        days_after_of(t, a) matches Some(u) ==> u.0 == t.0 + a * 86400,
        (days_after_of(t, a) matches Some(u) && days_after_of(u, b) is Some) && i64::MIN <= (a + b) * 86400
            <= i64::MAX ==> days_after_of(t, (a + b) as i64) == days_after_of(days_after_of(t, a)->0, b),
{
}

/// The instant `days` days after `t` (see [`days_after_of`]).
pub fn days_after(t: Timestamp, days: i64) -> (r: Option<Timestamp>)
    ensures
        r == days_after_of(t, days),
{
    match days.checked_mul(SECONDS_IN_A_DAY) {
        Some(offset) => match t.0.checked_add(offset) {
            Some(v) => Some(Timestamp(v)),
            None => None,
        },
        None => None,
    }
}

/// What a report (or a sensitive-content case) is about.
#[derive(Clone, Copy, PartialEq, Eq, Debug, Structural)]
pub enum ReportTarget {
    Post(PostId),
    Comment(CommentId),
    User(UserId),
}

/// A post, as far as the feed, search and profile decisions read it.
#[derive(Clone, Debug)]
pub struct Post {
    pub id: PostId,
    pub demos_id: DemosId,
    pub author: UserId,
    pub title: String,
    /// The post's text content (its body).
    pub body: String,
    /// Normalized topic tags.
    pub tags: Vec<String>,
    pub created_at: Timestamp,
    pub removed: bool,
    pub pending_review: bool,
    pub is_nsfw: bool,
}

/// A comment, as far as the profile and metrics decisions read it.
#[derive(Clone, Debug)]
pub struct Comment {
    pub id: CommentId,
    pub post_id: PostId,
    pub author: UserId,
    pub body: String,
    pub created_at: Timestamp,
    pub removed: bool,
    pub pending_review: bool,
}

/// A community, as far as the feed and search decisions read it.
#[derive(Clone, Debug)]
pub struct Demos {
    pub id: DemosId,
    pub slug: String,
    pub name: String,
}

/// A member's standing in one community at the instant of a decision: whether
/// they hold the voter tier, whether a sanction is running, whether they are
/// franchised (may vote, sit on a jury and speak in a trial's gallery), and
/// their cached contribution score.
#[derive(Clone, Copy, PartialEq, Eq, Debug)]
pub struct MemberStanding {
    pub user_id: UserId,
    pub is_voter: bool,
    pub is_sanctioned: bool,
    pub is_franchised: bool,
    pub contribution: i64,
}

} // verus!
