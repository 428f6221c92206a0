use democratos_app::services::accounts::ActorKey;
use democratos_app::services::blocking_service::BlockingService;
use democratos_app::services::errors::{
    AcceptInviteError, ApproveInviteError, AuthenticateError, EnrollPublicKeyError, EnsureBarredAccountError,
    FoundDemosError, RegisterAccountError, SensitiveReviewError, SignFoundingError, StartFoundingError,
    StoreError, VerifyActionError,
};
use democratos_app::services::founding_service::FoundingService;
use democratos_app::services::model::{CommentId, PostId, ReportTarget, UserId};
use democratos_app::services::sensitive::{
    apply_review_outcome, flag_target_check, review_vote_check, reviewer_check, ReviewAction, ReviewOutcome,
};
use democratos_app::services::services::Services;
use democratos_app::services::writes::LocalWrites;

fn services(require_signatures: bool, base: &str) -> Services<()> {
    Services {
        ports: (),
        requires_age_verification: false,
        require_signatures,
        public_base_url: base.to_string(),
        invite_token_ttl_days: 7,
    }
}

#[test]
fn signed_action_policy() {
    let strict = services(true, "");
    let lax = services(false, "");
    assert_eq!(
        strict.verify_user_action(ActorKey::Unenrolled),
        Err(VerifyActionError::Rejected("this deployment requires a signing key — enrol one to act".to_string()))
    );
    assert_eq!(lax.verify_user_action(ActorKey::Unenrolled), Ok(()));
    assert_eq!(
        lax.verify_user_action(ActorKey::Malformed),
        Err(VerifyActionError::Store(StoreError::Store("account has a malformed signing key".to_string())))
    );
    assert_eq!(lax.verify_user_action(ActorKey::Enrolled { signature_valid: true }), Ok(()));
    assert_eq!(
        strict.verify_user_action(ActorKey::Enrolled { signature_valid: false }),
        Err(VerifyActionError::Rejected("this action must be signed by the account's key".to_string()))
    );
}

#[test]
fn registration_checks() {
    let s = services(false, "");
    assert_eq!(s.registration_form_check("  alice ", None, None), Ok("alice".to_string()));
    assert_eq!(
        s.registration_form_check(" \t", Some("bad email".to_string()), None),
        Err(RegisterAccountError::Rejected("handle is required".to_string()))
    );
    assert_eq!(
        s.registration_form_check("bob", Some("bad email".to_string()), Some("weak".to_string())),
        Err(RegisterAccountError::Rejected("bad email".to_string()))
    );
    assert_eq!(
        s.registration_form_check("bob", None, Some("weak".to_string())),
        Err(RegisterAccountError::Rejected("weak".to_string()))
    );
    assert_eq!(
        s.registration_uniqueness_check(true, true),
        Err(RegisterAccountError::Rejected("that handle is taken".to_string()))
    );
    assert_eq!(
        s.registration_uniqueness_check(false, true),
        Err(RegisterAccountError::Rejected("an account with that email already exists".to_string()))
    );
    assert_eq!(s.registration_uniqueness_check(false, false), Ok(()));
    assert_eq!(s.register_user_check(true), Err(StoreError::AlreadyExists));
    assert_eq!(s.register_user_check(false), Ok(()));
}

#[test]
fn login_failures_look_identical() {
    let s = services(false, "");
    assert_eq!(s.login_outcome(Some(42u64), true), Ok(42));
    assert_eq!(s.login_outcome(Some(42u64), false), Err(AuthenticateError::InvalidCredentials));
    assert_eq!(s.login_outcome(None::<u64>, true), Err(AuthenticateError::InvalidCredentials));
}

#[test]
fn key_enrolment_and_puppet_handles() {
    let s = services(false, "");
    assert_eq!(
        s.enroll_key_check(false, true),
        Err(EnrollPublicKeyError::Rejected("that is not a valid signing key".to_string()))
    );
    assert_eq!(
        s.enroll_key_check(true, true),
        Err(EnrollPublicKeyError::Rejected("this account already has a signing key".to_string()))
    );
    assert_eq!(s.enroll_key_check(true, false), Ok(()));
    assert_eq!(s.puppet_handle("  mod-bot  "), Ok("mod-bot".to_string()));
    assert_eq!(s.puppet_handle("   "), Err(EnsureBarredAccountError::Rejected("handle required".to_string())));
}

#[test]
fn invites() {
    let s = services(false, "https://forum.example//");
    assert!(s.is_invite_only(Some(true), false));
    assert!(!s.is_invite_only(Some(false), true));
    assert!(s.is_invite_only(None, true));
    assert!(s.request_invite_needed(false, false));
    assert!(!s.request_invite_needed(true, false));
    assert!(!s.request_invite_needed(false, true));
    assert_eq!(s.invite_note(Some("  please  ")), Some("please".to_string()));
    assert_eq!(s.invite_note(Some("   ")), None);
    assert_eq!(s.invite_note(None), None);
    assert_eq!(s.pending_check(true, true), Ok(()));
    assert_eq!(s.pending_check(true, false), Err(ApproveInviteError::NotPending));
    assert_eq!(s.pending_check(false, true), Err(ApproveInviteError::NotPending));
    assert_eq!(s.token_check(true, true), Ok(()));
    assert_eq!(s.token_check(true, false), Err(AcceptInviteError::InvalidToken));
    assert_eq!(s.token_check(false, true), Err(AcceptInviteError::InvalidToken));
    assert_eq!(s.accept_url("abc"), "https://forum.example/invite/accept?token=abc");
    assert_eq!(services(false, "").accept_url("t"), "/invite/accept?token=t");
    assert_eq!(services(false, "http://h:8080").accept_url("t"), "http://h:8080/invite/accept?token=t");
}

#[test]
fn blocking() {
    let b = BlockingService::new(());
    assert!(b.block_user(UserId(1), UserId(2)));
    assert!(!b.block_user(UserId(3), UserId(3)));
    assert_eq!(b.blocked_by(Some(vec![UserId(4), UserId(5)])), vec![UserId(4), UserId(5)]);
    assert_eq!(b.blocked_by(None), vec![]);
    let list = vec![UserId(4), UserId(5)];
    assert!(b.is_blocking(Some(&list), UserId(5)));
    assert!(!b.is_blocking(Some(&list), UserId(6)));
    assert!(!b.is_blocking(None, UserId(5)));
}

#[test]
fn founding_checks() {
    let f = FoundingService::new((), (), (), (), ());
    assert_eq!(
        f.ensure_not_barred(true),
        Err(FoundDemosError::Rejected("this account is barred from the franchise".to_string()))
    );
    assert_eq!(f.ensure_not_barred(false), Ok(()));
    assert_eq!(f.found_demos_check(true), Err(FoundDemosError::Store(StoreError::AlreadyExists)));
    assert_eq!(f.found_demos_check(false), Ok(()));
    let pending = vec!["rust".to_string(), "go".to_string()];
    assert_eq!(
        f.start_founding_check(&String::new(), false, &pending),
        Err(StartFoundingError::Rejected("a community name needs at least one letter or number".to_string()))
    );
    assert_eq!(
        f.start_founding_check(&"zig".to_string(), true, &pending),
        Err(StartFoundingError::Store(StoreError::AlreadyExists))
    );
    assert_eq!(
        f.start_founding_check(&"go".to_string(), false, &pending),
        Err(StartFoundingError::Store(StoreError::AlreadyExists))
    );
    assert_eq!(f.start_founding_check(&"zig".to_string(), false, &pending), Ok(()));
    assert_eq!(
        f.sign_check(UserId(1), UserId(1)),
        Err(SignFoundingError::Rejected("the founder already backs this founding".to_string()))
    );
    assert_eq!(f.sign_check(UserId(2), UserId(1)), Ok(()));
}

#[test]
fn sensitive_review_outcomes() {
    let p = PostId(3);
    let c = CommentId(4);
    assert_eq!(
        apply_review_outcome(ReportTarget::Post(p), ReviewOutcome::Restore),
        vec![ReviewAction::SetPostPendingReview(p, false)]
    );
    assert_eq!(
        apply_review_outcome(ReportTarget::Post(p), ReviewOutcome::AgeGate),
        vec![ReviewAction::SetPostNsfw(p), ReviewAction::SetPostPendingReview(p, false)]
    );
    assert_eq!(
        apply_review_outcome(ReportTarget::Comment(c), ReviewOutcome::AgeGate),
        vec![ReviewAction::SetCommentPendingReview(c, false)]
    );
    assert_eq!(
        apply_review_outcome(ReportTarget::Post(p), ReviewOutcome::Remove { escalate: true }),
        vec![
            ReviewAction::SetPostRemoved(p),
            ReviewAction::SetPostPendingReview(p, false),
            ReviewAction::EscalateToOperator(ReportTarget::Post(p)),
        ]
    );
    assert_eq!(
        apply_review_outcome(ReportTarget::Comment(c), ReviewOutcome::Remove { escalate: false }),
        vec![ReviewAction::SetCommentRemoved(c), ReviewAction::SetCommentPendingReview(c, false)]
    );
    assert_eq!(apply_review_outcome(ReportTarget::User(UserId(1)), ReviewOutcome::Restore), vec![]);
}

#[test]
fn sensitive_flag_and_vote_checks() {
    assert_eq!(flag_target_check(ReportTarget::Post(PostId(1)), true), Ok(()));
    assert_eq!(
        flag_target_check(ReportTarget::Post(PostId(1)), false),
        Err(SensitiveReviewError::Rejected("no such post".to_string()))
    );
    assert_eq!(
        flag_target_check(ReportTarget::Comment(CommentId(1)), false),
        Err(SensitiveReviewError::Rejected("no such comment".to_string()))
    );
    assert_eq!(
        flag_target_check(ReportTarget::User(UserId(1)), true),
        Err(SensitiveReviewError::Rejected("only posts and comments can be flagged sensitive".to_string()))
    );
    assert_eq!(reviewer_check(true), Ok(()));
    assert_eq!(reviewer_check(false), Err(SensitiveReviewError::NotReviewer));
    assert_eq!(review_vote_check(true), Ok(()));
    assert_eq!(review_vote_check(false), Err(SensitiveReviewError::AlreadyResolved));
}

#[test]
fn local_writes_run_against_the_given_services() {
    let w = LocalWrites::new(services(true, "https://a.example"));
    assert!(w.services().require_signatures);
    assert_eq!(w.services().public_base_url, "https://a.example");
}
