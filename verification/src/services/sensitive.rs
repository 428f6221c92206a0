//! Platform-wide sensitive-content review: what may be flagged, who may
//! review, and what a resolved case does to its content.
use vstd::prelude::*;

use super::errors::SensitiveReviewError;
use super::model::{CommentId, PostId, ReportTarget};

verus! {

/// The disposition of a resolved review case.
#[derive(Clone, Copy, PartialEq, Eq, Debug)]
pub enum ReviewOutcome {
    /// A false flag: un-hide, unchanged.
    Restore,
    /// Lawful adult content: un-hide but age-gate.
    AgeGate,
    /// Upheld: take down platform-wide; `escalate` when the operator must act.
    Remove { escalate: bool },
}

/// One write that carries out a review outcome, in the order it is made.
#[derive(Clone, Copy, PartialEq, Eq, Debug)]
pub enum ReviewAction {
    SetPostNsfw(PostId),
    SetPostRemoved(PostId),
    SetPostPendingReview(PostId, bool),
    SetCommentRemoved(CommentId),
    SetCommentPendingReview(CommentId, bool),
    /// Alert the operator that upheld content must be preserved and reported.
    EscalateToOperator(ReportTarget),
}

/// The writes that carry out `outcome` on `target`, in order: a restored
/// post or comment is un-hidden; an age-gated post is flagged NSFW then
/// un-hidden (a comment has no NSFW blur, so it is simply un-hidden); an upheld
/// one is removed then un-hidden, and escalated when asked; a user target has
/// nothing to act on.
pub open spec fn review_actions(target: ReportTarget, outcome: ReviewOutcome) -> Seq<ReviewAction> {
    match (target, outcome) {
        (ReportTarget::Post(p), ReviewOutcome::Restore) => seq![ReviewAction::SetPostPendingReview(p, false)],
        (ReportTarget::Comment(c), ReviewOutcome::Restore) => seq![ReviewAction::SetCommentPendingReview(c, false)],
        (ReportTarget::Post(p), ReviewOutcome::AgeGate) => seq![
            ReviewAction::SetPostNsfw(p),
            ReviewAction::SetPostPendingReview(p, false),
        ],
        (ReportTarget::Comment(c), ReviewOutcome::AgeGate) => seq![ReviewAction::SetCommentPendingReview(c, false)],
        (ReportTarget::Post(p), ReviewOutcome::Remove { escalate }) => if escalate {
            seq![
                ReviewAction::SetPostRemoved(p),
                ReviewAction::SetPostPendingReview(p, false),
                ReviewAction::EscalateToOperator(target),
            ]
        } else {
            seq![ReviewAction::SetPostRemoved(p), ReviewAction::SetPostPendingReview(p, false)]
        },
        (ReportTarget::Comment(c), ReviewOutcome::Remove { escalate }) => if escalate {
            seq![
                ReviewAction::SetCommentRemoved(c),
                ReviewAction::SetCommentPendingReview(c, false),
                ReviewAction::EscalateToOperator(target),
            ]
        } else {
            seq![ReviewAction::SetCommentRemoved(c), ReviewAction::SetCommentPendingReview(c, false)]
        },
        (ReportTarget::User(_), _) => seq![],
    }
}

/// Every resolution of a case on a post or comment lifts the pending-review
/// hiding, and an upheld case takes the content down before doing so.
pub proof fn law_resolution_unhides_content(target: ReportTarget, outcome: ReviewOutcome)
    ensures
        target matches ReportTarget::Post(p) ==> review_actions(target, outcome).contains(
            ReviewAction::SetPostPendingReview(p, false),
        ),
        target matches ReportTarget::Comment(c) ==> review_actions(target, outcome).contains(
            ReviewAction::SetCommentPendingReview(c, false),
        ),
        outcome is Remove ==> (target matches ReportTarget::Post(p) ==> review_actions(target, outcome)[0]
            == ReviewAction::SetPostRemoved(p)),
        outcome is Remove ==> (target matches ReportTarget::Comment(c) ==> review_actions(target, outcome)[0]
            == ReviewAction::SetCommentRemoved(c)),
{
    let a = review_actions(target, outcome);
    match target {
        ReportTarget::Post(p) => {
            let i: int = if outcome is Restore { 0 } else { 1 };
            assert(a[i] == ReviewAction::SetPostPendingReview(p, false));
        },
        ReportTarget::Comment(c) => {
            let i: int = if outcome is Remove { 1 } else { 0 };
            assert(a[i] == ReviewAction::SetCommentPendingReview(c, false));
        },
        ReportTarget::User(_) => {},
    }
}

/// Whether a review write concerns `target` (an escalation names the target
/// itself).
pub open spec fn concerns(a: ReviewAction, target: ReportTarget) -> bool {
    match a {
        ReviewAction::SetPostNsfw(p) => target == ReportTarget::Post(p),
        ReviewAction::SetPostRemoved(p) => target == ReportTarget::Post(p),
        ReviewAction::SetPostPendingReview(p, _) => target == ReportTarget::Post(p),
        ReviewAction::SetCommentRemoved(c) => target == ReportTarget::Comment(c),
        ReviewAction::SetCommentPendingReview(c, _) => target == ReportTarget::Comment(c),
        ReviewAction::EscalateToOperator(t) => t == target,
    }
}

/// Whether a review write hides content pending review.
pub open spec fn hides_content(a: ReviewAction) -> bool {
    ||| a matches ReviewAction::SetPostPendingReview(_, h) && h
    ||| a matches ReviewAction::SetCommentPendingReview(_, h) && h
}

/// Only an upheld case takes content down, and a resolution touches nothing
/// but the flagged content: a restore or an age gate removes nothing; a
/// restore is exactly the one un-hide write; an age gate flags a post NSFW;
/// every write concerns the flagged target; hidden content is never re-hidden;
/// the operator is alerted exactly when an upheld case asks for it; and a
/// user target gets no write at all.
pub proof fn law_only_removal_takes_content_down(target: ReportTarget, outcome: ReviewOutcome)
    ensures
        !(outcome is Remove) ==> forall|k: int|
            0 <= k < review_actions(target, outcome).len() ==> !(#[trigger] review_actions(target, outcome)[k] is SetPostRemoved)
                && !(review_actions(target, outcome)[k] is SetCommentRemoved),
        outcome is Restore ==> (target matches ReportTarget::Post(p) ==> review_actions(target, outcome) == seq![
            ReviewAction::SetPostPendingReview(p, false),
        ]),
        outcome is Restore ==> (target matches ReportTarget::Comment(c) ==> review_actions(target, outcome) == seq![
            ReviewAction::SetCommentPendingReview(c, false),
        ]),
        outcome is AgeGate ==> (target matches ReportTarget::Post(p) ==> review_actions(target, outcome).contains(
            ReviewAction::SetPostNsfw(p),
        )),
        forall|k: int|
            0 <= k < review_actions(target, outcome).len() ==> concerns(#[trigger] review_actions(target, outcome)[k], target),
        forall|k: int|
            0 <= k < review_actions(target, outcome).len() ==> !hides_content(
                #[trigger] review_actions(target, outcome)[k],
            ),
        review_actions(target, outcome).contains(ReviewAction::EscalateToOperator(target)) <==> (outcome
            == ReviewOutcome::Remove { escalate: true } && !(target is User)),
        target is User ==> review_actions(target, outcome).len() == 0,
{
    let a = review_actions(target, outcome);
    if a.contains(ReviewAction::EscalateToOperator(target)) {
        let k = choose|k: int| 0 <= k < a.len() && a[k] == ReviewAction::EscalateToOperator(target);
        assert(a[k] == ReviewAction::EscalateToOperator(target));
    }
    if outcome == (ReviewOutcome::Remove { escalate: true }) && !(target is User) {
        assert(a[2] == ReviewAction::EscalateToOperator(target));
    }
    if outcome is AgeGate {
        if let ReportTarget::Post(p) = target {
            assert(a[0] == ReviewAction::SetPostNsfw(p));
        }
    }
}

/// The writes that carry out a resolved case's disposition on its target.
pub fn apply_review_outcome(target: ReportTarget, outcome: ReviewOutcome) -> (actions: Vec<ReviewAction>)
    ensures
        actions@ == review_actions(target, outcome),
{
    let mut actions: Vec<ReviewAction> = Vec::new();
    match (target, outcome) {
        (ReportTarget::Post(p), ReviewOutcome::Restore) => {
            actions.push(ReviewAction::SetPostPendingReview(p, false));
        },
        (ReportTarget::Comment(c), ReviewOutcome::Restore) => {
            actions.push(ReviewAction::SetCommentPendingReview(c, false));
        },
        (ReportTarget::Post(p), ReviewOutcome::AgeGate) => {
            actions.push(ReviewAction::SetPostNsfw(p));
            actions.push(ReviewAction::SetPostPendingReview(p, false));
        },
        (ReportTarget::Comment(c), ReviewOutcome::AgeGate) => {
            actions.push(ReviewAction::SetCommentPendingReview(c, false));
        },
        (ReportTarget::Post(p), ReviewOutcome::Remove { escalate }) => {
            actions.push(ReviewAction::SetPostRemoved(p));
            actions.push(ReviewAction::SetPostPendingReview(p, false));
            if escalate {
                actions.push(ReviewAction::EscalateToOperator(target));
            }
        },
        (ReportTarget::Comment(c), ReviewOutcome::Remove { escalate }) => {
            actions.push(ReviewAction::SetCommentRemoved(c));
            actions.push(ReviewAction::SetCommentPendingReview(c, false));
            if escalate {
                actions.push(ReviewAction::EscalateToOperator(target));
            }
        },
        (ReportTarget::User(_), _) => {},
    }
    assert(actions@ =~= review_actions(target, outcome));
    actions
}

/// Whether content may be flagged sensitive: only posts and comments, and only
/// ones that exist (`exists` says whether the flagged post or comment was
/// found). On success the content is hidden pending review.
pub fn flag_target_check(target: ReportTarget, exists: bool) -> (r: Result<(), SensitiveReviewError>)
    ensures
        match target {
            ReportTarget::User(_) => r matches Err(SensitiveReviewError::Rejected(m)) && m@
                == "only posts and comments can be flagged sensitive"@,
            ReportTarget::Post(_) => if exists {
                r is Ok
            } else {
                r matches Err(SensitiveReviewError::Rejected(m)) && m@ == "no such post"@
            },
            ReportTarget::Comment(_) => if exists {
                r is Ok
            } else {
                r matches Err(SensitiveReviewError::Rejected(m)) && m@ == "no such comment"@
            },
        },
{
    match target {
        ReportTarget::Post(_) => if exists {
            Ok(())
        } else {
            Err(SensitiveReviewError::Rejected("no such post".to_string()))
        },
        ReportTarget::Comment(_) => if exists {
            Ok(())
        } else {
            Err(SensitiveReviewError::Rejected("no such comment".to_string()))
        },
        ReportTarget::User(_) => Err(
            SensitiveReviewError::Rejected("only posts and comments can be flagged sensitive".to_string()),
        ),
    }
}

/// Only an account that opted in to judging sensitive content may act on a
/// flagged case.
pub fn reviewer_check(is_sensitive_reviewer: bool) -> (r: Result<(), SensitiveReviewError>)
    ensures
        r == if is_sensitive_reviewer {
            Ok::<(), SensitiveReviewError>(())
        } else {
            Err::<(), SensitiveReviewError>(SensitiveReviewError::NotReviewer)
        },
{
    if is_sensitive_reviewer {
        Ok(())
    } else {
        Err(SensitiveReviewError::NotReviewer)
    }
}

/// A review vote is taken only on a case still open.
pub fn review_vote_check(case_open: bool) -> (r: Result<(), SensitiveReviewError>)
    ensures
        r == if case_open {
            Ok::<(), SensitiveReviewError>(())
        } else {
            Err::<(), SensitiveReviewError>(SensitiveReviewError::AlreadyResolved)
        },
{
    if case_open {
        Ok(())
    } else {
        Err(SensitiveReviewError::AlreadyResolved)
    }
}

} // verus!
