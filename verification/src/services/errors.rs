//! The errors the use-cases report. `Store` carries a failure of a storage
//! port; every other variant is a refusal the use-case decided.
use vstd::prelude::*;

verus! {

/// A storage port's failure.
#[derive(Clone, PartialEq, Eq, Debug)]
pub enum StoreError {
    NotFound,
    AlreadyExists,
    Conflict,
    Store(String),
}

/// Why a post could not be created here.
#[derive(Clone, PartialEq, Eq, Debug)]
pub enum CanPostError {
    /// The author is under a running sanction.
    Sanctioned,
    /// The community's posting policy refuses the author; the text says why.
    Rejected(String),
    Store(StoreError),
}

/// Why a governance ballot was refused.
#[derive(Clone, PartialEq, Eq, Debug)]
pub enum CastVoteError {
    ProposalNotOpen,
    VotingWindowClosed,
    NotAVoter,
    Sanctioned,
    Rejected(String),
    Store(StoreError),
}

/// Why a proposal could not be opened.
#[derive(Clone, PartialEq, Eq, Debug)]
pub enum OpenProposalError {
    NotAVoter,
    Sanctioned,
    ConstitutionalForbiddenInSeed,
    DuplicateOpenProposal,
    Store(StoreError),
}

/// Why a proposal could not be closed.
#[derive(Clone, PartialEq, Eq, Debug)]
pub enum CloseProposalError {
    VotingWindowOpen,
    Store(StoreError),
}

/// Why a trial could not be opened.
#[derive(Clone, PartialEq, Eq, Debug)]
pub enum OpenTrialError {
    ReportNotOpen,
    NotAVoter,
    JuryTooSmall,
    Store(StoreError),
}

/// Why a juror's ballot was refused.
#[derive(Clone, PartialEq, Eq, Debug)]
pub enum CastJuryVoteError {
    TrialClosed,
    NotAJuror,
    Sanctioned,
    Rejected(String),
    Store(StoreError),
}

/// Why a trial comment was refused.
#[derive(Clone, PartialEq, Eq, Debug)]
pub enum CommentOnTrialError {
    Empty,
    NotAVoter,
    Store(StoreError),
}

/// Why a founding sign-off was refused.
#[derive(Clone, PartialEq, Eq, Debug)]
pub enum SignFoundingError {
    Rejected(String),
    Store(StoreError),
}

/// Why a signed action was refused.
#[derive(Clone, PartialEq, Eq, Debug)]
pub enum VerifyActionError {
    Rejected(String),
    Store(StoreError),
}

/// Why a sensitive-content operation was refused.
#[derive(Clone, PartialEq, Eq, Debug)]
pub enum SensitiveReviewError {
    NotReviewer,
    AlreadyResolved,
    Rejected(String),
    Store(StoreError),
}

/// Why a member action (commenting, voting on a comment) was refused.
#[derive(Clone, PartialEq, Eq, Debug)]
pub enum MemberActionError {
    Sanctioned,
    Store(StoreError),
}

} // verus!

verus! {

/// Why an account could not be registered.
#[derive(Clone, PartialEq, Eq, Debug)]
pub enum RegisterAccountError {
    Rejected(String),
    Store(StoreError),
}

/// Why a puppet account could not be provisioned.
#[derive(Clone, PartialEq, Eq, Debug)]
pub enum EnsureBarredAccountError {
    Rejected(String),
    Store(StoreError),
}

/// Why a signing key could not be enrolled.
#[derive(Clone, PartialEq, Eq, Debug)]
pub enum EnrollPublicKeyError {
    Rejected(String),
    Store(StoreError),
}

/// Why a login failed: always the same opaque answer.
#[derive(Clone, PartialEq, Eq, Debug)]
pub enum AuthenticateError {
    InvalidCredentials,
    Store(StoreError),
}

/// Why a community could not be founded.
#[derive(Clone, PartialEq, Eq, Debug)]
pub enum FoundDemosError {
    Rejected(String),
    Store(StoreError),
}

/// Why a founding petition could not be opened.
#[derive(Clone, PartialEq, Eq, Debug)]
pub enum StartFoundingError {
    Rejected(String),
    Store(StoreError),
}

/// Why an invite request could not be approved or rejected.
#[derive(Clone, PartialEq, Eq, Debug)]
pub enum ApproveInviteError {
    NotPending,
    Store(StoreError),
}

/// Why an invite token was refused.
#[derive(Clone, PartialEq, Eq, Debug)]
pub enum AcceptInviteError {
    InvalidToken,
    Store(StoreError),
}

/// Why an invite request was refused.
#[derive(Clone, PartialEq, Eq, Debug)]
pub enum RequestInviteError {
    Rejected(String),
    Store(StoreError),
}

} // verus!
