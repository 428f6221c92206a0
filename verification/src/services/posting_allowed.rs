//! Whether a community's posting policy lets a member (or a non-member) post.
use vstd::prelude::*;

use super::errors::CanPostError;
use super::model::MemberStanding;

verus! {

/// Who may post in a community.
#[derive(Clone, Copy, PartialEq, Eq, Debug)]
pub enum PostingPolicy {
    /// Anyone, member or not.
    Open,
    /// Any member.
    Members,
    /// Voters only.
    Voters,
    /// Members whose contribution is at least the bound.
    MinContribution(i64),
}

/// Whether `membership` (or its absence) satisfies `policy`: a sanctioned
/// member is always refused; a non-member passes only an open policy.
pub open spec fn allows_posting(policy: PostingPolicy, membership: Option<&MemberStanding>) -> bool {
    match membership {
        Some(m) => !m.is_sanctioned && match policy {
            PostingPolicy::Open => true,
            PostingPolicy::Members => true,
            PostingPolicy::Voters => m.is_voter,
            PostingPolicy::MinContribution(n) => m.contribution >= n,
        },
        None => policy == PostingPolicy::Open,
    }
}

/// A member under a running sanction may not post, whatever the community's
/// policy.
pub proof fn law_sanctioned_member_never_posts(policy: PostingPolicy, m: MemberStanding)
    requires
        m.is_sanctioned,
    ensures
        !allows_posting(policy, Some(&m)),
{
}

/// Only an open policy lets a non-member post, and an open policy lets every
/// unsanctioned member post.
pub proof fn law_only_open_policy_admits_outsiders(policy: PostingPolicy, m: MemberStanding)
    ensures
        allows_posting(policy, None) <==> policy == PostingPolicy::Open,
        !m.is_sanctioned ==> allows_posting(PostingPolicy::Open, Some(&m)),
{
}

/// An unsanctioned member is judged by the policy alone: any member may post
/// under an open or members-only policy, a voters-only policy admits exactly
/// the voters, and a contribution bound admits exactly those whose
/// contribution reaches it.
pub proof fn law_unsanctioned_members_meet_the_policy(m: MemberStanding, bound: i64)
    requires
        !m.is_sanctioned,
    ensures
        allows_posting(PostingPolicy::Open, Some(&m)),
        allows_posting(PostingPolicy::Members, Some(&m)),
        allows_posting(PostingPolicy::Voters, Some(&m)) <==> m.is_voter,
        allows_posting(PostingPolicy::MinContribution(bound), Some(&m)) <==> m.contribution >= bound,
{
}

/// Pure decision: does this membership (if any) satisfy a community's posting
/// policy? A sanctioned member is always blocked; a non-member (`None`) passes
/// only under [`PostingPolicy::Open`].
pub fn posting_allowed(policy: PostingPolicy, membership: Option<&MemberStanding>) -> (ok: bool)
    ensures
        ok == allows_posting(policy, membership),
{
    if let Some(m) = membership {
        if m.is_sanctioned {
            return false;
        }
    }
    match policy {
        PostingPolicy::Open => true,
        PostingPolicy::Members => membership.is_some(),
        PostingPolicy::Voters => match membership {
            Some(m) => m.is_voter,
            None => false,
        },
        PostingPolicy::MinContribution(n) => match membership {
            Some(m) => m.contribution >= n,
            None => false,
        },
    }
}

/// The refusal shown when a policy refuses a (non-sanctioned) poster.
pub open spec fn refusal_text(policy: PostingPolicy) -> Seq<char> {
    match policy {
        PostingPolicy::Members => "join this community to post here"@,
        PostingPolicy::Voters => "only voters may post in this community"@,
        PostingPolicy::MinContribution(_) => "you haven't earned enough popularity to post in this community yet"@,
        PostingPolicy::Open => "you cannot post in this community"@,
    }
}

/// Like [`posting_allowed`] but with a policy-specific error the UI can show:
/// `Ok` when the policy allows it, `Sanctioned` for a sanctioned member under
/// any policy, otherwise `Rejected` with the policy's refusal text.
pub fn require_can_post(policy: PostingPolicy, membership: Option<&MemberStanding>) -> (r: Result<(), CanPostError>)
    ensures
        allows_posting(policy, membership) <==> r is Ok,
        r matches Err(e) ==> match membership {
            Some(m) if m.is_sanctioned => e == CanPostError::Sanctioned,
            _ => e matches CanPostError::Rejected(msg) && msg@ == refusal_text(policy),
        },
{
    if posting_allowed(policy, membership) {
        return Ok(());
    }
    if let Some(m) = membership {
        if m.is_sanctioned {
            return Err(CanPostError::Sanctioned);
        }
    }
    let msg = match policy {
        PostingPolicy::Members => "join this community to post here",
        PostingPolicy::Voters => "only voters may post in this community",
        PostingPolicy::MinContribution(_) => "you haven't earned enough popularity to post in this community yet",
        PostingPolicy::Open => "you cannot post in this community",
    };
    Err(CanPostError::Rejected(msg.to_string()))
}

} // verus!
