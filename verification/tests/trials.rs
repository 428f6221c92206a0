use democratos_app::services::moderation::{opted_in, settle_step, trial_deadline, SettleStep, TRIAL_DAYS};
use democratos_app::services::model::{days_after, Timestamp};
use democratos_app::services::errors::{CastJuryVoteError, CommentOnTrialError, OpenTrialError};
use democratos_app::services::model::{CommentId, MemberStanding, PostId, ReportTarget, TrialId, UserId};
use democratos_app::services::moderation::{
    ban_term, content_scale, jury_pool, jury_size_check, jury_vote_check, jury_weights, mention_recipients,
    merge_target, open_trial_check, settlement, trial_comment_audience, trial_comment_check, ContentScale,
    MentionedUser, Removal, ReportStatus, Settlement, Verdict, WeighedVoter,
};

fn standing(id: u64, is_voter: bool, is_sanctioned: bool, is_franchised: bool) -> MemberStanding {
    MemberStanding { user_id: UserId(id), is_voter, is_sanctioned, is_franchised, contribution: 0 }
}

#[test]
fn comments_are_juried_at_comment_scale() {
    assert_eq!(content_scale(ReportTarget::Comment(CommentId(1))), ContentScale::Comment);
    assert_eq!(content_scale(ReportTarget::Post(PostId(1))), ContentScale::Post);
    assert_eq!(content_scale(ReportTarget::User(UserId(1))), ContentScale::Post);
}

#[test]
fn only_an_unsanctioned_voter_opens_a_trial_on_an_open_report() {
    let voter = standing(1, true, false, true);
    assert_eq!(open_trial_check(ReportStatus::Open, Some(voter)), Ok(()));
    assert_eq!(
        open_trial_check(ReportStatus::OnTrial(TrialId(3)), Some(voter)),
        Err(OpenTrialError::ReportNotOpen)
    );
    assert_eq!(open_trial_check(ReportStatus::Upheld, None), Err(OpenTrialError::ReportNotOpen));
    assert_eq!(open_trial_check(ReportStatus::Open, None), Err(OpenTrialError::NotAVoter));
    assert_eq!(
        open_trial_check(ReportStatus::Open, Some(standing(1, false, false, false))),
        Err(OpenTrialError::NotAVoter)
    );
    assert_eq!(
        open_trial_check(ReportStatus::Open, Some(standing(1, true, true, false))),
        Err(OpenTrialError::NotAVoter)
    );
}

#[test]
fn jury_pool_is_the_franchised_members() {
    let members = vec![standing(1, true, false, true), standing(2, true, true, false), standing(3, false, false, true)];
    let pool: Vec<u64> = jury_pool(&members).iter().map(|m| m.user_id.0).collect();
    assert_eq!(pool, vec![1, 3]);
    assert_eq!(jury_size_check(0), Err(OpenTrialError::JuryTooSmall));
    assert_eq!(jury_size_check(3), Ok(()));
}

#[test]
fn jury_weights_are_frozen_from_the_pool() {
    let pool = vec![
        WeighedVoter { user_id: UserId(2), weight: 5 },
        WeighedVoter { user_id: UserId(1), weight: 7 },
        WeighedVoter { user_id: UserId(2), weight: 9 },
    ];
    let jurors = vec![UserId(1), UserId(2), UserId(3)];
    assert_eq!(jury_weights(&jurors, &pool, true), Some((vec![7, 5, 1], 13)));
    assert_eq!(jury_weights(&jurors, &pool, false), Some((vec![1, 1, 1], 3)));
    assert_eq!(jury_weights(&vec![], &pool, true), Some((vec![], 0)));
    let heavy = vec![WeighedVoter { user_id: UserId(1), weight: u64::MAX }, WeighedVoter { user_id: UserId(2), weight: 1 }];
    assert_eq!(jury_weights(&vec![UserId(1), UserId(2)], &heavy, true), None);
    assert_eq!(jury_weights(&vec![UserId(1)], &heavy, true), Some((vec![u64::MAX], u64::MAX)));
}

#[test]
fn juror_ballot_refusals_in_order() {
    let ok = Some(standing(1, true, false, true));
    assert_eq!(jury_vote_check(Verdict::Pending, true, ok), Ok(()));
    assert_eq!(jury_vote_check(Verdict::Pending, true, None), Ok(()));
    assert_eq!(jury_vote_check(Verdict::Guilty, true, ok), Err(CastJuryVoteError::TrialClosed));
    assert_eq!(jury_vote_check(Verdict::NotGuilty, false, ok), Err(CastJuryVoteError::TrialClosed));
    assert_eq!(jury_vote_check(Verdict::Pending, false, ok), Err(CastJuryVoteError::NotAJuror));
    assert_eq!(
        jury_vote_check(Verdict::Pending, true, Some(standing(1, true, true, false))),
        Err(CastJuryVoteError::Sanctioned)
    );
}

#[test]
fn settlement_follows_the_verdict() {
    assert_eq!(settlement(Verdict::Pending, ReportTarget::Post(PostId(1))), None);
    assert_eq!(
        settlement(Verdict::Guilty, ReportTarget::Post(PostId(4))),
        Some(Settlement { report_status: ReportStatus::Upheld, sanction_accused: true, removal: Removal::Post(PostId(4)) })
    );
    assert_eq!(
        settlement(Verdict::Guilty, ReportTarget::Comment(CommentId(5))),
        Some(Settlement {
            report_status: ReportStatus::Upheld,
            sanction_accused: true,
            removal: Removal::Comment(CommentId(5)),
        })
    );
    assert_eq!(
        settlement(Verdict::Guilty, ReportTarget::User(UserId(6))),
        Some(Settlement { report_status: ReportStatus::Upheld, sanction_accused: true, removal: Removal::Nothing })
    );
    assert_eq!(
        settlement(Verdict::NotGuilty, ReportTarget::Post(PostId(4))),
        Some(Settlement { report_status: ReportStatus::Dismissed, sanction_accused: false, removal: Removal::Nothing })
    );
}

#[test]
fn ban_term_is_the_most_severe_cited_term_or_the_ceiling() {
    assert_eq!(ban_term(30, &vec![Some(7), None, Some(14)]), 14);
    assert_eq!(ban_term(30, &vec![]), 30);
    assert_eq!(ban_term(30, &vec![None, None]), 30);
    assert_eq!(ban_term(30, &vec![Some(0)]), 30);
    assert_eq!(ban_term(0, &vec![Some(3)]), 3);
}

#[test]
fn trial_comments_need_text_and_the_franchise() {
    let franchised = Some(standing(1, true, false, true));
    assert_eq!(trial_comment_check("  guilty as charged \n", franchised), Ok("guilty as charged".to_string()));
    assert_eq!(trial_comment_check("   \t ", franchised), Err(CommentOnTrialError::Empty));
    assert_eq!(trial_comment_check("hello", None), Err(CommentOnTrialError::NotAVoter));
    assert_eq!(
        trial_comment_check("hello", Some(standing(1, true, false, false))),
        Err(CommentOnTrialError::NotAVoter)
    );
}

#[test]
fn trial_comment_audience_is_every_other_party_once() {
    let out = trial_comment_audience(
        UserId(5),
        &vec![UserId(3), UserId(9)],
        &vec![None, Some(UserId(1)), Some(UserId(9))],
        &vec![UserId(5), UserId(7)],
        UserId(7),
    );
    assert_eq!(out, vec![UserId(1), UserId(3), UserId(5), UserId(9)]);
    let alone = trial_comment_audience(UserId(2), &vec![], &vec![], &vec![], UserId(2));
    assert!(alone.is_empty());
}

#[test]
fn flags_merge_into_the_first_open_report_on_a_target() {
    let open = vec![
        ReportTarget::Post(PostId(1)),
        ReportTarget::Comment(CommentId(2)),
        ReportTarget::Post(PostId(1)),
    ];
    assert_eq!(merge_target(&open, ReportTarget::Post(PostId(1))), Some(0));
    assert_eq!(merge_target(&open, ReportTarget::Comment(CommentId(2))), Some(1));
    assert_eq!(merge_target(&open, ReportTarget::User(UserId(3))), None);
    assert_eq!(merge_target(&open, ReportTarget::Post(PostId(2))), None);
}

#[test]
fn mention_recipients_skip_author_and_muted() {
    let named = vec![
        MentionedUser { user_id: UserId(1), allows_mention_alerts: true },
        MentionedUser { user_id: UserId(2), allows_mention_alerts: false },
        MentionedUser { user_id: UserId(3), allows_mention_alerts: true },
        MentionedUser { user_id: UserId(4), allows_mention_alerts: true },
    ];
    assert_eq!(mention_recipients(&named, UserId(3)), vec![UserId(1), UserId(4)]);
}

#[test]
fn settling_steps_and_deadlines() {
    assert_eq!(settle_step(Verdict::Guilty, None), SettleStep::Return(Verdict::Guilty));
    assert_eq!(settle_step(Verdict::NotGuilty, Some(Verdict::Guilty)), SettleStep::Return(Verdict::NotGuilty));
    assert_eq!(settle_step(Verdict::Pending, None), SettleStep::Tally);
    assert_eq!(settle_step(Verdict::Pending, Some(Verdict::Pending)), SettleStep::Return(Verdict::Pending));
    assert_eq!(settle_step(Verdict::Pending, Some(Verdict::Guilty)), SettleStep::Record(Verdict::Guilty));
    assert_eq!(TRIAL_DAYS, 3);
    assert_eq!(trial_deadline(Timestamp(1_000)), Some(Timestamp(1_000 + 3 * 86_400)));
    assert_eq!(trial_deadline(Timestamp(i64::MAX - 10)), None);
    assert_eq!(days_after(Timestamp(0), -2), Some(Timestamp(-172_800)));
    assert_eq!(days_after(Timestamp(0), i64::MAX), None);
    let candidates = vec![(UserId(1), true), (UserId(2), false), (UserId(3), true)];
    assert_eq!(opted_in(&candidates), vec![UserId(1), UserId(3)]);
}
