//! The signed value of an up/down/clear vote.
use vstd::prelude::*;

verus! {

/// The signed integer value of an up/down/clear vote: `+1` up, `-1` down, `0`
/// none. Used to subtract a member's own ballot from their contribution metric.
pub open spec fn vote_weight(dir: Option<bool>) -> int {
    match dir {
        Some(true) => 1,
        Some(false) => -1,
        None => 0,
    }
}

/// An upvote and a downvote are worth one each, in opposite directions, and
/// no vote is worth nothing.
pub proof fn law_votes_are_worth_one_either_way()
    ensures
        vote_weight(Some(true)) == 1,
        vote_weight(Some(false)) == -vote_weight(Some(true)),
        vote_weight(None) == 0,
{
}

/// The signed integer value of an up/down/clear vote.
pub fn vote_value(dir: Option<bool>) -> (v: i64)
    ensures
        v == vote_weight(dir),
{
    match dir {
        Some(true) => 1,
        Some(false) => -1,
        None => 0,
    }
}

} // verus!
