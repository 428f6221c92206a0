//! Governance: who may open a proposal or cast a ballot, when a proposal may
//! be closed, the quorum denominator, and when a passed proposal takes effect.
use vstd::prelude::*;

use super::errors::{CastVoteError, CloseProposalError, OpenProposalError};
use super::model::{MemberStanding, RuleId, Timestamp, UserId};
use super::posting_allowed::PostingPolicy;
use super::moderation::total_of;
use super::voting_window_days::DecisionClass;

verus! {

/// Whether a member may open a proposal of class `class`: they are an
/// unsanctioned voter, a constitutional change is not asked while the
/// community is in its Seed phase, and no identical proposal is already open.
pub open spec fn may_open_proposal(
    membership: Option<MemberStanding>,
    class: DecisionClass,
    in_seed: bool,
    duplicate_open: bool,
) -> bool {
    &&& membership matches Some(m) && m.is_voter && !m.is_sanctioned
    &&& !(class == DecisionClass::Constitutional && in_seed)
    &&& !duplicate_open
}

/// The check on opening a proposal, in the order the refusals are checked:
/// `NotAVoter` (no membership, or not a voter), `Sanctioned`,
/// `ConstitutionalForbiddenInSeed`, `DuplicateOpenProposal`.
pub fn open_proposal_check(
    membership: Option<MemberStanding>,
    class: DecisionClass,
    in_seed: bool,
    duplicate_open: bool,
) -> (r: Result<(), OpenProposalError>)
    ensures
        r is Ok <==> may_open_proposal(membership, class, in_seed, duplicate_open),
        duplicate_open ==> r is Err,
        class == DecisionClass::Constitutional && in_seed ==> r is Err,
        !(membership matches Some(m) && m.is_voter && !m.is_sanctioned) ==> r is Err,
        r matches Err(e) ==> e == match membership {
            None => OpenProposalError::NotAVoter,
            Some(m) => if !m.is_voter {
                OpenProposalError::NotAVoter
            } else if m.is_sanctioned {
                OpenProposalError::Sanctioned
            } else if class == DecisionClass::Constitutional && in_seed {
                OpenProposalError::ConstitutionalForbiddenInSeed
            } else {
                OpenProposalError::DuplicateOpenProposal
            },
        },
{
    let m = match membership {
        Some(m) => m,
        None => {
            return Err(OpenProposalError::NotAVoter);
        },
    };
    if !m.is_voter {
        return Err(OpenProposalError::NotAVoter);
    }
    if m.is_sanctioned {
        return Err(OpenProposalError::Sanctioned);
    }
    if class == DecisionClass::Constitutional && in_seed {
        return Err(OpenProposalError::ConstitutionalForbiddenInSeed);
    }
    if duplicate_open {
        return Err(OpenProposalError::DuplicateOpenProposal);
    }
    Ok(())
}

/// Whether a ballot may be cast: the proposal is open, its voting window has
/// not lapsed, and the voter is an unsanctioned voter of its community.
pub open spec fn may_cast_vote(is_open: bool, now: Timestamp, closes_at: Timestamp, membership: Option<MemberStanding>) -> bool {
    &&& is_open
    &&& now.0 < closes_at.0
    &&& membership matches Some(m) && m.is_voter && !m.is_sanctioned
}

/// The check on a governance ballot, in the order the refusals are checked:
/// `ProposalNotOpen`, `VotingWindowClosed` (the window is enforced at cast
/// time, not only at close time), `NotAVoter`, `Sanctioned`.
pub fn cast_vote_check(is_open: bool, now: Timestamp, closes_at: Timestamp, membership: Option<MemberStanding>) -> (r: Result<(), CastVoteError>)
    ensures
        r is Ok <==> may_cast_vote(is_open, now, closes_at, membership),
        !is_open ==> r is Err,
        now.0 >= closes_at.0 ==> r is Err,
        !(membership matches Some(m) && m.is_voter && !m.is_sanctioned) ==> r is Err,
        r matches Err(e) ==> e == if !is_open {
            CastVoteError::ProposalNotOpen
        } else if now.0 >= closes_at.0 {
            CastVoteError::VotingWindowClosed
        } else {
            match membership {
                Some(m) if m.is_voter => CastVoteError::Sanctioned,
                _ => CastVoteError::NotAVoter,
            }
        },
{
    if !is_open {
        return Err(CastVoteError::ProposalNotOpen);
    }
    if now.0 >= closes_at.0 {
        return Err(CastVoteError::VotingWindowClosed);
    }
    let m = match membership {
        Some(m) => m,
        None => {
            return Err(CastVoteError::NotAVoter);
        },
    };
    if !m.is_voter {
        return Err(CastVoteError::NotAVoter);
    }
    if m.is_sanctioned {
        return Err(CastVoteError::Sanctioned);
    }
    Ok(())
}

/// A ballot's weight: the member's weight when the community weighs
/// proposals, otherwise one.
pub fn ballot_weight(weighs_proposals: bool, member_weight: u64) -> (w: u64)
    ensures
        w == if weighs_proposals {
            member_weight
        } else {
            1
        },
{
    if weighs_proposals {
        member_weight
    } else {
        1
    }
}

/// What closing a proposal at `now` does: refused while an open proposal's
/// window runs; otherwise whether the proposal must be decided (only an open
/// one is).
pub open spec fn close_outcome(is_open: bool, now: Timestamp, closes_at: Timestamp) -> Result<bool, CloseProposalError> {
    if is_open && now.0 < closes_at.0 {
        Err(CloseProposalError::VotingWindowOpen)
    } else {
        Ok(is_open)
    }
}

/// Whether closing may go ahead now, and whether the proposal must first be
/// decided: an open proposal is decided only once its voting window has
/// elapsed (`VotingWindowOpen` before that); one no longer open is not
/// decided again.
pub fn close_check(is_open: bool, now: Timestamp, closes_at: Timestamp) -> (r: Result<bool, CloseProposalError>)
    ensures
        r == close_outcome(is_open, now, closes_at),
{
    if is_open {
        if now.0 < closes_at.0 {
            return Err(CloseProposalError::VotingWindowOpen);
        }
        return Ok(true);
    }
    Ok(false)
}

/// The quorum denominator, in the same units as the tally: the electorate's
/// total weight when proposals are weighted under a scheme other than equal
/// weights, otherwise the voter head count.
pub fn quorum_electorate(weighs_proposals: bool, equal_weighting: bool, voters: u64, total_weight: u64) -> (e: u64)
    ensures
        e == if weighs_proposals && !equal_weighting {
            total_weight
        } else {
            voters
        },
{
    if weighs_proposals && !equal_weighting {
        total_weight
    } else {
        voters
    }
}

/// Whether a passed proposal's effects are due: it passed (its effects take
/// hold at `effective_at`), they have not been applied, and the timelock has
/// matured.
pub open spec fn effects_are_due(passed_effective_at: Option<Timestamp>, applied: bool, now: Timestamp) -> bool {
    passed_effective_at matches Some(t) && !applied && t.0 <= now.0
}

/// Whether a passed proposal's effects are due now: it passed, its effects
/// have not been applied yet, and its timelock has matured. This makes
/// applying them happen exactly once.
pub fn effects_due(passed_effective_at: Option<Timestamp>, applied: bool, now: Timestamp) -> (due: bool)
    ensures
        due == effects_are_due(passed_effective_at, applied, now),
{
    match passed_effective_at {
        Some(t) => !applied && t.0 <= now.0,
        None => false,
    }
}

/// A passed proposal's effects are applied at most once: once applied they
/// are never due again, and before the timelock matures they are not due at
/// all.
pub proof fn law_effects_apply_at_most_once(passed_effective_at: Option<Timestamp>, applied: bool, now: Timestamp)
    ensures
        !effects_are_due(passed_effective_at, true, now),
        passed_effective_at matches Some(t) && now.0 < t.0 ==> !effects_are_due(passed_effective_at, applied, now),
        passed_effective_at is None ==> !effects_are_due(passed_effective_at, applied, now),
        passed_effective_at matches Some(t) && t.0 <= now.0 ==> effects_are_due(passed_effective_at, false, now),
{
}

/// Closing decides each proposal exactly once: an open proposal whose window
/// has lapsed is decided, one whose window still runs cannot be closed, and
/// one no longer open is closed again without a second decision.
pub proof fn law_closing_decides_an_open_proposal_once(now: Timestamp, closes_at: Timestamp)
    ensures
        now.0 >= closes_at.0 ==> close_outcome(true, now, closes_at) == Ok::<bool, CloseProposalError>(true),
        now.0 < closes_at.0 ==> close_outcome(true, now, closes_at) == Err::<bool, CloseProposalError>(
            CloseProposalError::VotingWindowOpen,
        ),
        close_outcome(false, now, closes_at) == Ok::<bool, CloseProposalError>(false),
{
}

/// The voting window separates voting from closing: at any instant when a
/// ballot on a proposal may be cast, the proposal cannot be closed, and when it
/// may be closed and decided, no ballot is taken.
pub proof fn law_ballots_and_closing_never_overlap(
    is_open: bool,
    now: Timestamp,
    closes_at: Timestamp,
    membership: Option<MemberStanding>,
)
    ensures
        may_cast_vote(is_open, now, closes_at, membership) ==> close_outcome(is_open, now, closes_at)
            == Err::<bool, CloseProposalError>(CloseProposalError::VotingWindowOpen),
        close_outcome(is_open, now, closes_at) == Ok::<bool, CloseProposalError>(true) ==> !may_cast_vote(
            is_open,
            now,
            closes_at,
            membership,
        ),
{
}

/// The term a rule voted in carries once enacted: an explicit term is held to
/// the community's cap (`capped` is that capped term, absent when the
/// community is gone), while zero ("inherit the ceiling") is kept as it is.
pub fn enacted_rule_term(sanction_days: u32, capped: Option<u32>) -> (t: u32)
    ensures
        t == match capped {
            Some(c) if sanction_days != 0 => c,
            _ => sanction_days,
        },
{
    match capped {
        Some(c) if sanction_days != 0 => c,
        _ => sanction_days,
    }
}

/// A community's voted sanction ceiling, bounded by the platform cap, so no
/// vote can set a permanent ban.
pub fn bounded_ceiling(days: u32, platform_cap: u32) -> (c: u32)
    ensures
        c == if days <= platform_cap {
            days
        } else {
            platform_cap
        },
        c <= platform_cap,
{
    if days <= platform_cap {
        days
    } else {
        platform_cap
    }
}

/// The ceiling a ban not tied to a rule runs to: the community's own ceiling,
/// or the platform cap when the community is gone.
pub fn ceiling_or_platform_cap(ceiling: Option<u32>, platform_cap: u32) -> (t: u32)
    ensures
        t == match ceiling {
            Some(c) => c,
            None => platform_cap,
        },
{
    match ceiling {
        Some(c) => c,
        None => platform_cap,
    }
}

/// What a proposal asks for. `S` carries a change to a setting only the
/// community's governance rules interpret (eligibility criteria, jury sizing,
/// the weighting scheme or its scope), in those rules' own form.
#[derive(Clone, Debug, PartialEq, Eq)]
pub enum ProposalKind<S> {
    AddRule { text: String, sanction_days: u32 },
    RemoveRule { rule: RuleId },
    SetMaxSanction { days: u32 },
    SetNsfwPolicy { allows_nsfw: bool },
    SetPostingPolicy { policy: PostingPolicy },
    GrantVoteWeight { user: UserId, weight: u64 },
    Ban { user: UserId },
    Setting(S),
    Recall { office: String },
    RemoveContent { target: String },
}

/// The one write a matured, passed proposal makes.
#[derive(Clone, Debug, PartialEq, Eq)]
pub enum EffectWrite<S> {
    CreateRule { text: String, sanction_days: u32 },
    DeactivateRule(RuleId),
    SetMaxSanction(u32),
    SetAllowsNsfw(bool),
    SetPostingPolicy(PostingPolicy),
    ApplySetting(S),
    SetGrantedWeight { user: UserId, weight: u64 },
    Sanction { user: UserId, days: u32 },
}

/// The write a passed proposal of kind `kind` makes, given what the community
/// says of it now: `capped_term` is a voted rule term held to the community's
/// cap (absent when the community is gone), `ceiling` the community's own
/// sanction ceiling (absent likewise), `platform_cap` the platform's maximum
/// sanction, and `target_is_member` whether the member a grant or ban names
/// still belongs to the community. A recall and a content removal make no
/// write: the membership model has no office to strip, and a removal names no
/// structured content.
pub open spec fn effect_of<S>(
    kind: ProposalKind<S>,
    capped_term: Option<u32>,
    ceiling: Option<u32>,
    platform_cap: u32,
    target_is_member: bool,
) -> Option<EffectWrite<S>> {
    match kind {
        ProposalKind::AddRule { text, sanction_days } => Some(EffectWrite::CreateRule {
            text,
            sanction_days: match capped_term {
                Some(c) if sanction_days != 0 => c,
                _ => sanction_days,
            },
        }),
        ProposalKind::RemoveRule { rule } => Some(EffectWrite::DeactivateRule(rule)),
        ProposalKind::SetMaxSanction { days } => Some(EffectWrite::SetMaxSanction(if days <= platform_cap {
            days
        } else {
            platform_cap
        })),
        ProposalKind::SetNsfwPolicy { allows_nsfw } => Some(EffectWrite::SetAllowsNsfw(allows_nsfw)),
        ProposalKind::SetPostingPolicy { policy } => Some(EffectWrite::SetPostingPolicy(policy)),
        ProposalKind::Setting(change) => Some(EffectWrite::ApplySetting(change)),
        ProposalKind::GrantVoteWeight { user, weight } => if target_is_member {
            Some(EffectWrite::SetGrantedWeight { user, weight })
        } else {
            None
        },
        ProposalKind::Ban { user } => if target_is_member {
            Some(EffectWrite::Sanction {
                user,
                days: match ceiling {
                    Some(c) => c,
                    None => platform_cap,
                },
            })
        } else {
            None
        },
        ProposalKind::Recall { .. } => None,
        ProposalKind::RemoveContent { .. } => None,
    }
}

/// The write that carries out a matured, passed proposal (see [`effect_of`]).
pub fn passed_effect<S>(
    kind: ProposalKind<S>,
    capped_term: Option<u32>,
    ceiling: Option<u32>,
    platform_cap: u32,
    target_is_member: bool,
) -> (w: Option<EffectWrite<S>>)
    ensures
        w == effect_of(kind, capped_term, ceiling, platform_cap, target_is_member),
{
    match kind {
        ProposalKind::AddRule { text, sanction_days } => Some(
            EffectWrite::CreateRule { text, sanction_days: enacted_rule_term(sanction_days, capped_term) },
        ),
        ProposalKind::RemoveRule { rule } => Some(EffectWrite::DeactivateRule(rule)),
        ProposalKind::SetMaxSanction { days } => Some(EffectWrite::SetMaxSanction(bounded_ceiling(days, platform_cap))),
        ProposalKind::SetNsfwPolicy { allows_nsfw } => Some(EffectWrite::SetAllowsNsfw(allows_nsfw)),
        ProposalKind::SetPostingPolicy { policy } => Some(EffectWrite::SetPostingPolicy(policy)),
        ProposalKind::Setting(change) => Some(EffectWrite::ApplySetting(change)),
        ProposalKind::GrantVoteWeight { user, weight } => if target_is_member {
            Some(EffectWrite::SetGrantedWeight { user, weight })
        } else {
            None
        },
        ProposalKind::Ban { user } => if target_is_member {
            Some(EffectWrite::Sanction { user, days: ceiling_or_platform_cap(ceiling, platform_cap) })
        } else {
            None
        },
        ProposalKind::Recall { .. } => None,
        ProposalKind::RemoveContent { .. } => None,
    }
}

/// A passed proposal writes exactly what it carries: a policy or setting
/// proposal writes its own value, a rule is created with its own text, a
/// removal deactivates the rule it names, and a grant or ban acts on the
/// member it names (and only while they belong to the community).
pub proof fn law_passed_proposals_write_what_they_carry<S>(
    capped_term: Option<u32>,
    ceiling: Option<u32>,
    platform_cap: u32,
    target_is_member: bool,
    allows_nsfw: bool,
    policy: PostingPolicy,
    setting: S,
    rule: RuleId,
    user: UserId,
    weight: u64,
    text: String,
    sanction_days: u32,
    days: u32,
    office: String,
    target: String,
)
    ensures
        effect_of(ProposalKind::<S>::SetNsfwPolicy { allows_nsfw }, capped_term, ceiling, platform_cap, target_is_member)
            == Some(EffectWrite::<S>::SetAllowsNsfw(allows_nsfw)),
        effect_of(ProposalKind::<S>::SetPostingPolicy { policy }, capped_term, ceiling, platform_cap, target_is_member)
            == Some(EffectWrite::<S>::SetPostingPolicy(policy)),
        effect_of(ProposalKind::Setting(setting), capped_term, ceiling, platform_cap, target_is_member) == Some(
            EffectWrite::ApplySetting(setting),
        ),
        effect_of(ProposalKind::<S>::RemoveRule { rule }, capped_term, ceiling, platform_cap, target_is_member)
            == Some(EffectWrite::<S>::DeactivateRule(rule)),
        effect_of(
            ProposalKind::<S>::AddRule { text, sanction_days },
            capped_term,
            ceiling,
            platform_cap,
            target_is_member,
        ) matches Some(EffectWrite::CreateRule { text: t, sanction_days: d }) && t == text && (sanction_days == 0
            ==> d == 0) && (capped_term is None ==> d == sanction_days) && (sanction_days != 0
            && capped_term is Some ==> d == capped_term->0),
        effect_of(ProposalKind::<S>::SetMaxSanction { days }, capped_term, ceiling, platform_cap, target_is_member)
            matches Some(EffectWrite::SetMaxSanction(c)) && c <= platform_cap && c <= days && (days
            <= platform_cap ==> c == days),
        target_is_member ==> effect_of(
            ProposalKind::<S>::GrantVoteWeight { user, weight },
            capped_term,
            ceiling,
            platform_cap,
            target_is_member,
        ) == Some(EffectWrite::<S>::SetGrantedWeight { user, weight }),
        target_is_member ==> effect_of(
            ProposalKind::<S>::Ban { user },
            capped_term,
            ceiling,
            platform_cap,
            target_is_member,
        ) == Some(EffectWrite::<S>::Sanction { user, days: if ceiling is Some { ceiling->0 } else { platform_cap } }),
        !target_is_member ==> effect_of(
            ProposalKind::<S>::GrantVoteWeight { user, weight },
            capped_term,
            ceiling,
            platform_cap,
            target_is_member,
        ) is None,
        !target_is_member ==> effect_of(
            ProposalKind::<S>::Ban { user },
            capped_term,
            ceiling,
            platform_cap,
            target_is_member,
        ) is None,
        effect_of(ProposalKind::<S>::Recall { office }, capped_term, ceiling, platform_cap, target_is_member) is None,
        effect_of(ProposalKind::<S>::RemoveContent { target }, capped_term, ceiling, platform_cap, target_is_member)
            is None,
{
}

/// Opening a proposal needs every condition: an unsanctioned voter asks, a
/// constitutional change is not asked in the Seed phase, and no identical
/// proposal is already open; each failing one refuses it, whatever the
/// decision class.
pub proof fn law_opening_a_proposal_needs_every_condition(
    membership: Option<MemberStanding>,
    class: DecisionClass,
    in_seed: bool,
    duplicate_open: bool,
)
    ensures
        duplicate_open ==> !may_open_proposal(membership, class, in_seed, duplicate_open),
        membership is None ==> !may_open_proposal(membership, class, in_seed, duplicate_open),
        membership matches Some(m) && (!m.is_voter || m.is_sanctioned) ==> !may_open_proposal(
            membership,
            class,
            in_seed,
            duplicate_open,
        ),
        class == DecisionClass::Constitutional && in_seed ==> !may_open_proposal(membership, class, in_seed, duplicate_open),
        (membership matches Some(m) && m.is_voter && !m.is_sanctioned) && !(class == DecisionClass::Constitutional
            && in_seed) && !duplicate_open ==> may_open_proposal(membership, class, in_seed, duplicate_open),
{
}

/// A ballot needs every condition: the proposal is open, its window has not
/// lapsed, and an unsanctioned voter casts it; each failing one refuses it.
pub proof fn law_casting_a_ballot_needs_every_condition(
    is_open: bool,
    now: Timestamp,
    closes_at: Timestamp,
    membership: Option<MemberStanding>,
)
    ensures
        !is_open ==> !may_cast_vote(is_open, now, closes_at, membership),
        now.0 >= closes_at.0 ==> !may_cast_vote(is_open, now, closes_at, membership),
        membership is None ==> !may_cast_vote(is_open, now, closes_at, membership),
        membership matches Some(m) && (!m.is_voter || m.is_sanctioned) ==> !may_cast_vote(
            is_open,
            now,
            closes_at,
            membership,
        ),
        is_open && now.0 < closes_at.0 && (membership matches Some(m) && m.is_voter && !m.is_sanctioned)
            ==> may_cast_vote(is_open, now, closes_at, membership),
{
}

/// A passed proposal never sets a sanction, or a sanction ceiling, beyond the
/// platform cap when the community's own ceiling is within it: no vote can
/// impose a permanent ban.
pub proof fn law_voted_sanctions_stay_within_the_cap<S>(
    kind: ProposalKind<S>,
    capped_term: Option<u32>,
    ceiling: Option<u32>,
    platform_cap: u32,
    target_is_member: bool,
)
    requires
        ceiling matches Some(c) ==> c <= platform_cap,
    ensures
        effect_of(kind, capped_term, ceiling, platform_cap, target_is_member) matches Some(EffectWrite::SetMaxSanction(d))
            ==> d <= platform_cap,
        effect_of(kind, capped_term, ceiling, platform_cap, target_is_member) matches Some(
            EffectWrite::Sanction { days, .. },
        ) ==> days <= platform_cap,
{
}

/// A member of the community with the weight the community's scheme gives
/// them now.
#[derive(Clone, Copy, PartialEq, Eq, Debug)]
pub struct WeighedMember {
    pub is_voter: bool,
    pub weight: u64,
}

/// The weights of the voters among `members`, in order.
pub open spec fn voter_weights(members: Seq<WeighedMember>) -> Seq<u64> {
    members.filter(|m: WeighedMember| m.is_voter).map_values(|m: WeighedMember| m.weight)
}

/// The electorate's total vote weight: the sum of the voters' weights (the
/// population a voter head count counts). The sum must fit in a `u64`.
pub fn total_voter_weight(members: &Vec<WeighedMember>) -> (t: u64)
    requires
        total_of(voter_weights(members@)) <= u64::MAX,
    ensures
        t == total_of(voter_weights(members@)),
{
    let mut t: u64 = 0;
    let mut k: usize = 0;
    while k < members.len()
        invariant
            k <= members@.len(),
            total_of(voter_weights(members@)) <= u64::MAX,
            t == total_of(voter_weights(members@.take(k as int))),
        decreases members@.len() - k,
    {
        proof {
            reveal_with_fuel(Seq::<WeighedMember>::filter, 1);
            assert(members@.take(k + 1).drop_last() =~= members@.take(k as int));
            lemma_voter_weights_prefix(members@, k + 1);
        }
        let m = members[k];
        if m.is_voter {
            proof {
                let before = members@.take(k as int).filter(|m: WeighedMember| m.is_voter);
                let after = members@.take(k + 1).filter(|m: WeighedMember| m.is_voter);
                assert(after == before.push(m));
                let f = |m: WeighedMember| m.weight;
                assert(after.map_values(f) =~= before.map_values(f).push(m.weight));
                assert(after.map_values(f).drop_last() =~= before.map_values(f));
            }
            t = t + m.weight;
        }
        k = k + 1;
    }
    assert(members@.take(members@.len() as int) =~= members@);
    t
}

/// The electorate's weight counts voters only: a member without a vote adds
/// nothing to it, and a voter adds exactly their weight.
pub proof fn law_electorate_weight_counts_voters_only(members: Seq<WeighedMember>, m: WeighedMember)
    ensures
        !m.is_voter ==> total_of(voter_weights(members.push(m))) == total_of(voter_weights(members)),
        m.is_voter ==> total_of(voter_weights(members.push(m))) == total_of(voter_weights(members)) + m.weight,
{
    reveal_with_fuel(Seq::<WeighedMember>::filter, 1);
    assert(members.push(m).drop_last() =~= members);
    let f = |x: WeighedMember| x.weight;
    let before = members.filter(|x: WeighedMember| x.is_voter);
    if m.is_voter {
        assert(members.push(m).filter(|x: WeighedMember| x.is_voter) == before.push(m));
        assert(before.push(m).map_values(f).drop_last() =~= before.map_values(f));
    } else {
        assert(members.push(m).filter(|x: WeighedMember| x.is_voter) == before);
    }
}

/// The voters of a prefix weigh at most as much as all voters.
proof fn lemma_voter_weights_prefix(members: Seq<WeighedMember>, k: int)
    requires
        0 <= k <= members.len(),
    ensures
        total_of(voter_weights(members.take(k))) <= total_of(voter_weights(members)),
    decreases members.len(),
{
    reveal_with_fuel(Seq::<WeighedMember>::filter, 1);
    if k < members.len() {
        let d = members.drop_last();
        assert(d.take(k) =~= members.take(k));
        lemma_voter_weights_prefix(d, k);
        let f = |m: WeighedMember| m.weight;
        let before = d.filter(|m: WeighedMember| m.is_voter);
        if members.last().is_voter {
            assert(members.filter(|m: WeighedMember| m.is_voter) == before.push(members.last()));
            assert(before.push(members.last()).map_values(f).drop_last() =~= before.map_values(f));
        } else {
            assert(members.filter(|m: WeighedMember| m.is_voter) == before);
        }
    } else {
        assert(members.take(k) =~= members);
    }
}

} // verus!
