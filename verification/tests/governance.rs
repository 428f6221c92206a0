use democratos_app::services::governance::{passed_effect, EffectWrite, ProposalKind};
use democratos_app::services::model::RuleId;
use democratos_app::services::posting_allowed::PostingPolicy;
use democratos_app::services::errors::{CastVoteError, CloseProposalError, OpenProposalError};
use democratos_app::services::governance::{
    ballot_weight, bounded_ceiling, cast_vote_check, ceiling_or_platform_cap, close_check, effects_due,
    enacted_rule_term, open_proposal_check, quorum_electorate, total_voter_weight, WeighedMember,
};
use democratos_app::services::model::{MemberStanding, Timestamp, UserId};
use democratos_app::services::voting_window_days::DecisionClass;

fn standing(is_voter: bool, is_sanctioned: bool) -> Option<MemberStanding> {
    Some(MemberStanding { user_id: UserId(1), is_voter, is_sanctioned, is_franchised: is_voter, contribution: 0 })
}

#[test]
fn opening_a_proposal_checks_in_order() {
    let c = DecisionClass::RuleChange;
    assert_eq!(open_proposal_check(None, c, false, false), Err(OpenProposalError::NotAVoter));
    assert_eq!(open_proposal_check(standing(false, false), c, false, false), Err(OpenProposalError::NotAVoter));
    assert_eq!(open_proposal_check(standing(true, true), c, true, true), Err(OpenProposalError::Sanctioned));
    assert_eq!(
        open_proposal_check(standing(true, false), DecisionClass::Constitutional, true, true),
        Err(OpenProposalError::ConstitutionalForbiddenInSeed)
    );
    assert_eq!(
        open_proposal_check(standing(true, false), DecisionClass::Constitutional, false, true),
        Err(OpenProposalError::DuplicateOpenProposal)
    );
    assert_eq!(open_proposal_check(standing(true, false), c, true, false), Ok(()));
    assert_eq!(open_proposal_check(standing(true, false), DecisionClass::Constitutional, false, false), Ok(()));
}

#[test]
fn ballots_respect_the_voting_window() {
    let (now, closes) = (Timestamp(100), Timestamp(200));
    assert_eq!(cast_vote_check(false, now, closes, standing(true, false)), Err(CastVoteError::ProposalNotOpen));
    assert_eq!(
        cast_vote_check(true, Timestamp(200), closes, standing(true, false)),
        Err(CastVoteError::VotingWindowClosed)
    );
    assert_eq!(cast_vote_check(true, now, closes, None), Err(CastVoteError::NotAVoter));
    assert_eq!(cast_vote_check(true, now, closes, standing(false, true)), Err(CastVoteError::NotAVoter));
    assert_eq!(cast_vote_check(true, now, closes, standing(true, true)), Err(CastVoteError::Sanctioned));
    assert_eq!(cast_vote_check(true, Timestamp(199), closes, standing(true, false)), Ok(()));
}

#[test]
fn ballot_weight_and_quorum_units() {
    assert_eq!(ballot_weight(true, 8), 8);
    assert_eq!(ballot_weight(false, 8), 1);
    assert_eq!(quorum_electorate(true, false, 4, 17), 17);
    assert_eq!(quorum_electorate(true, true, 4, 17), 4);
    assert_eq!(quorum_electorate(false, false, 4, 17), 4);
}

#[test]
fn closing_waits_for_the_window() {
    assert_eq!(close_check(true, Timestamp(5), Timestamp(10)), Err(CloseProposalError::VotingWindowOpen));
    assert_eq!(close_check(true, Timestamp(10), Timestamp(10)), Ok(true));
    assert_eq!(close_check(false, Timestamp(5), Timestamp(10)), Ok(false));
}

#[test]
fn effects_are_applied_once_after_the_timelock() {
    assert!(effects_due(Some(Timestamp(10)), false, Timestamp(10)));
    assert!(effects_due(Some(Timestamp(10)), false, Timestamp(11)));
    assert!(!effects_due(Some(Timestamp(10)), true, Timestamp(11)));
    assert!(!effects_due(Some(Timestamp(10)), false, Timestamp(9)));
    assert!(!effects_due(None, false, Timestamp(9)));
}

#[test]
fn electorate_weight_counts_voters_only() {
    let members = vec![
        WeighedMember { is_voter: true, weight: 3 },
        WeighedMember { is_voter: false, weight: 100 },
        WeighedMember { is_voter: true, weight: 4 },
    ];
    assert_eq!(total_voter_weight(&members), 7);
    assert_eq!(total_voter_weight(&vec![]), 0);
}

#[test]
fn enacted_terms_and_ceilings() {
    assert_eq!(enacted_rule_term(40, Some(30)), 30);
    assert_eq!(enacted_rule_term(0, Some(30)), 0);
    assert_eq!(enacted_rule_term(40, None), 40);
    assert_eq!(bounded_ceiling(10_000, 6_570), 6_570);
    assert_eq!(bounded_ceiling(90, 6_570), 90);
    assert_eq!(ceiling_or_platform_cap(Some(90), 6_570), 90);
    assert_eq!(ceiling_or_platform_cap(None, 6_570), 6_570);
}

#[test]
fn ballots_and_closing_never_overlap() {
    let closes = Timestamp(1_000);
    let voter = standing(true, false);
    for now in [Timestamp(998), Timestamp(999), Timestamp(1_000), Timestamp(1_001)] {
        let can_vote = cast_vote_check(true, now, closes, voter).is_ok();
        let can_close = close_check(true, now, closes) == Ok(true);
        assert!(can_vote != can_close);
    }
}

#[test]
fn passed_proposals_plan_one_write() {
    let rule = |days: u32| ProposalKind::<u8>::AddRule { text: "be kind".to_string(), sanction_days: days };
    assert_eq!(
        passed_effect(rule(40), Some(30), Some(30), 6_570, false),
        Some(EffectWrite::CreateRule { text: "be kind".to_string(), sanction_days: 30 })
    );
    assert_eq!(
        passed_effect(rule(0), Some(30), Some(30), 6_570, false),
        Some(EffectWrite::CreateRule { text: "be kind".to_string(), sanction_days: 0 })
    );
    assert_eq!(
        passed_effect(rule(40), None, None, 6_570, false),
        Some(EffectWrite::CreateRule { text: "be kind".to_string(), sanction_days: 40 })
    );
    assert_eq!(
        passed_effect(ProposalKind::<u8>::RemoveRule { rule: RuleId(4) }, None, None, 9, false),
        Some(EffectWrite::DeactivateRule(RuleId(4)))
    );
    assert_eq!(
        passed_effect(ProposalKind::<u8>::SetMaxSanction { days: 10_000 }, None, None, 6_570, false),
        Some(EffectWrite::SetMaxSanction(6_570))
    );
    assert_eq!(
        passed_effect(ProposalKind::<u8>::SetNsfwPolicy { allows_nsfw: true }, None, None, 1, false),
        Some(EffectWrite::SetAllowsNsfw(true))
    );
    assert_eq!(
        passed_effect(ProposalKind::<u8>::SetPostingPolicy { policy: PostingPolicy::Voters }, None, None, 1, false),
        Some(EffectWrite::SetPostingPolicy(PostingPolicy::Voters))
    );
    assert_eq!(passed_effect(ProposalKind::Setting(7u8), None, None, 1, false), Some(EffectWrite::ApplySetting(7u8)));
    let grant = ProposalKind::<u8>::GrantVoteWeight { user: UserId(3), weight: 5 };
    assert_eq!(
        passed_effect(grant.clone(), None, None, 1, true),
        Some(EffectWrite::SetGrantedWeight { user: UserId(3), weight: 5 })
    );
    assert_eq!(passed_effect(grant, None, None, 1, false), None);
    let ban = ProposalKind::<u8>::Ban { user: UserId(3) };
    assert_eq!(
        passed_effect(ban.clone(), None, Some(90), 6_570, true),
        Some(EffectWrite::Sanction { user: UserId(3), days: 90 })
    );
    assert_eq!(
        passed_effect(ban.clone(), None, None, 6_570, true),
        Some(EffectWrite::Sanction { user: UserId(3), days: 6_570 })
    );
    assert_eq!(passed_effect(ban, None, Some(90), 6_570, false), None);
    assert_eq!(passed_effect(ProposalKind::<u8>::Recall { office: "mod".to_string() }, None, None, 1, true), None);
    assert_eq!(passed_effect(ProposalKind::<u8>::RemoveContent { target: "x".to_string() }, None, None, 1, true), None);
}
