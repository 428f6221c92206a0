//! Reports and trial by jury: who may empanel a jury and how it is weighed,
//! who may vote a verdict or argue in the gallery, what a verdict does, how
//! long a conviction's ban runs, and who hears of a new trial comment.
use vstd::prelude::*;

use super::errors::{CastJuryVoteError, CommentOnTrialError, OpenTrialError};
use super::model::{
    days_after, days_after_of, CommentId, MemberStanding, PostId, ReportTarget, Timestamp, TrialId, UserId,
};
use super::text::{trim_text, trimmed};

verus! {

/// Where a report stands.
#[derive(Clone, Copy, PartialEq, Eq, Debug)]
pub enum ReportStatus {
    Open,
    OnTrial(TrialId),
    Upheld,
    Dismissed,
}

/// A trial's verdict.
#[derive(Clone, Copy, PartialEq, Eq, Debug)]
pub enum Verdict {
    Pending,
    Guilty,
    NotGuilty,
}

/// The stakes of a case, which size its jury: comments are lower-stakes than
/// posts.
#[derive(Clone, Copy, PartialEq, Eq, Debug)]
pub enum ContentScale {
    Post,
    Comment,
}

/// A franchised voter eligible for a jury, with the vote weight the
/// community's weighting scheme gives them now.
#[derive(Clone, Copy, PartialEq, Eq, Debug)]
pub struct WeighedVoter {
    pub user_id: UserId,
    pub weight: u64,
}

/// The scale a report's target is juried at: a comment at comment weight; a
/// post, and a user-level report (such as a bot flag), at post weight.
pub fn content_scale(target: ReportTarget) -> (s: ContentScale)
    ensures
        s == (if target is Comment {
            ContentScale::Comment
        } else {
            ContentScale::Post
        }),
{
    match target {
        ReportTarget::Comment(_) => ContentScale::Comment,
        _ => ContentScale::Post,
    }
}

/// Whether the report may go to trial at the caller's request: it must still
/// be open, and the caller must be an unsanctioned voter of its community.
pub open spec fn may_open_trial(report_open: bool, caller: Option<MemberStanding>) -> bool {
    report_open && (caller matches Some(m) && m.is_voter && !m.is_sanctioned)
}

/// The check on empanelling a jury: `ReportNotOpen` unless the report is open,
/// then `NotAVoter` unless the caller is an unsanctioned voter of the
/// report's community.
pub fn open_trial_check(report_status: ReportStatus, caller: Option<MemberStanding>) -> (r: Result<(), OpenTrialError>)
    ensures
        r is Ok <==> may_open_trial(report_status == ReportStatus::Open, caller),
        caller is None ==> r is Err,
        caller matches Some(m) && (m.is_sanctioned || !m.is_voter) ==> r is Err,
        report_status == ReportStatus::Open && (caller matches Some(m) && m.is_voter && !m.is_sanctioned) ==> r is Ok,
        report_status != ReportStatus::Open ==> r == Err::<(), OpenTrialError>(OpenTrialError::ReportNotOpen),
        report_status == ReportStatus::Open && r is Err ==> r == Err::<(), OpenTrialError>(OpenTrialError::NotAVoter),
{
    match report_status {
        ReportStatus::Open => {},
        _ => {
            return Err(OpenTrialError::ReportNotOpen);
        },
    }
    match caller {
        Some(m) => if m.is_voter && !m.is_sanctioned {
            Ok(())
        } else {
            Err(OpenTrialError::NotAVoter)
        },
        None => Err(OpenTrialError::NotAVoter),
    }
}

/// The members eligible to sit on a jury: the franchised ones, in order.
pub open spec fn franchised_members(members: Seq<MemberStanding>) -> Seq<MemberStanding> {
    members.filter(|m: MemberStanding| m.is_franchised)
}

/// The franchised members, in order: a sanctioned member is disqualified from
/// the franchise, so never eligible to sit on a jury.
pub fn jury_pool(members: &Vec<MemberStanding>) -> (pool: Vec<MemberStanding>)
    ensures
        pool@ == franchised_members(members@),
{
    let mut pool: Vec<MemberStanding> = Vec::new();
    let mut k: usize = 0;
    while k < members.len()
        invariant
            k <= members@.len(),
            pool@ == members@.take(k as int).filter(|m: MemberStanding| m.is_franchised),
        decreases members@.len() - k,
    {
        proof {
            reveal_with_fuel(Seq::<MemberStanding>::filter, 1);
        }
        let m = members[k];
        assert(members@.take(k + 1).drop_last() =~= members@.take(k as int));
        if m.is_franchised {
            pool.push(m);
        }
        k = k + 1;
    }
    assert(members@.take(members@.len() as int) =~= members@);
    pool
}

/// Everyone eligible for a jury holds the franchise.
pub proof fn law_jury_pool_is_franchised(members: Seq<MemberStanding>, k: int)
    requires
        0 <= k < franchised_members(members).len(),
    ensures
        franchised_members(members)[k].is_franchised,
        members.contains(franchised_members(members)[k]),
{
    let pred = |m: MemberStanding| m.is_franchised;
    members.lemma_filter_pred(pred, k);
    let x = members.filter(pred)[k];
    assert(members.filter(pred).contains(x));
    members.lemma_filter_contains_rev(pred, x);
}

/// Every franchised member is eligible for a jury.
pub proof fn law_franchised_members_are_eligible(members: Seq<MemberStanding>)
    ensures
        forall|k: int|
            0 <= k < members.len() && (#[trigger] members[k]).is_franchised ==> franchised_members(members).contains(
                members[k],
            ),
{
    assert forall|k: int| 0 <= k < members.len() && (#[trigger] members[k]).is_franchised implies franchised_members(
        members,
    ).contains(members[k]) by {
        members.lemma_filter_contains(|m: MemberStanding| m.is_franchised, k);
    }
}

/// Whether a jury can be seated at all: a panel of size zero means the
/// community has too few voters for a minority panel.
pub fn jury_size_check(size: u64) -> (r: Result<(), OpenTrialError>)
    ensures
        r is Ok <==> size > 0,
        r is Err ==> r == Err::<(), OpenTrialError>(OpenTrialError::JuryTooSmall),
{
    if size == 0 {
        Err(OpenTrialError::JuryTooSmall)
    } else {
        Ok(())
    }
}

/// The weight a juror's ballot carries, frozen at empanelment: the weight of
/// the first pool member who is that juror when juries are weighted, otherwise
/// (unweighted juries, or a juror not in the pool) one.
#[verifier::opaque]
pub open spec fn frozen_weight(pool: Seq<WeighedVoter>, juror: UserId, weigh_jury: bool) -> u64 {
    if weigh_jury && exists|i: int| 0 <= i < pool.len() && pool[i].user_id == juror {
        pool[first_index_of(pool, juror)].weight
    } else {
        1
    }
}

/// The first position of `juror` in `pool` (meaningful when present).
pub open spec fn first_index_of(pool: Seq<WeighedVoter>, juror: UserId) -> int {
    choose|i: int|
        0 <= i < pool.len() && pool[i].user_id == juror && forall|j: int| 0 <= j < i ==> pool[j].user_id != juror
}

/// The sum of `ws`.
pub open spec fn total_of(ws: Seq<u64>) -> int
    decreases ws.len(),
{
    if ws.len() == 0 {
        0
    } else {
        total_of(ws.drop_last()) + ws.last()
    }
}

/// The frozen ballot weights of `jurors`, aligned with them.
pub open spec fn frozen_weights(jurors: Seq<UserId>, pool: Seq<WeighedVoter>, weigh_jury: bool) -> Seq<u64> {
    Seq::new(jurors.len(), |k: int| frozen_weight(pool, jurors[k], weigh_jury))
}

/// Each juror's ballot weight, frozen at empanelment and aligned with
/// `jurors`, and the panel's total weight (the conviction denominator). Under
/// one-juror-one-vote every weight is one. `None` when the total does not fit
/// in a `u64`.
pub fn jury_weights(jurors: &Vec<UserId>, pool: &Vec<WeighedVoter>, weigh_jury: bool) -> (r: Option<(Vec<u64>, u64)>)
    ensures
        match r {
            Some((ws, total)) => ws@ == frozen_weights(jurors@, pool@, weigh_jury) && total == total_of(ws@),
            None => total_of(frozen_weights(jurors@, pool@, weigh_jury)) > u64::MAX,
        },
{
    let ghost target = frozen_weights(jurors@, pool@, weigh_jury);
    let mut ws: Vec<u64> = Vec::new();
    let mut total: u64 = 0;
    let mut k: usize = 0;
    while k < jurors.len()
        invariant
            k <= jurors@.len(),
            target == frozen_weights(jurors@, pool@, weigh_jury),
            ws@ == target.take(k as int),
            total == total_of(ws@),
        decreases jurors@.len() - k,
    {
        let w = juror_weight(pool, jurors[k], weigh_jury);
        proof {
            assert(target.take(k + 1).drop_last() =~= target.take(k as int));
        }
        ws.push(w);
        assert(ws@ =~= target.take(k + 1));
        match total.checked_add(w) {
            Some(t) => {
                total = t;
            },
            None => {
                proof {
                    lemma_total_prefix(target, k + 1);
                }
                return None;
            },
        }
        k = k + 1;
    }
    assert(target.take(jurors@.len() as int) =~= target);
    Some((ws, total))
}

/// One juror's frozen weight.
fn juror_weight(pool: &Vec<WeighedVoter>, juror: UserId, weigh_jury: bool) -> (w: u64)
    ensures
        w == frozen_weight(pool@, juror, weigh_jury),
{
    reveal(frozen_weight);
    if !weigh_jury {
        return 1;
    }
    let mut i: usize = 0;
    while i < pool.len()
        invariant
            weigh_jury,
            i <= pool@.len(),
            forall|j: int| 0 <= j < i ==> pool@[j].user_id != juror,
        decreases pool@.len() - i,
    {
        if pool[i].user_id.0 == juror.0 {
            proof {
                assert(pool@[i as int].user_id == juror);
                let ii = i as int;
                assert(0 <= ii < pool@.len() && pool@[ii].user_id == juror && forall|j: int|
                    0 <= j < ii ==> pool@[j].user_id != juror);
                let c = first_index_of(pool@, juror);
                assert(0 <= c < pool@.len() && pool@[c].user_id == juror && forall|j: int|
                    0 <= j < c ==> pool@[j].user_id != juror);
                if c < ii {
                    assert(pool@[c].user_id != juror);
                } else if c > ii {
                    assert(pool@[ii].user_id != juror);
                }
                assert(c == ii);
                reveal(frozen_weight);
                assert(exists|j: int| 0 <= j < pool@.len() && pool@[j].user_id == juror);
                assert(frozen_weight(pool@, juror, weigh_jury) == pool@[ii].weight);
            }
            return pool[i].weight;
        }
        i = i + 1;
    }
    proof {
        reveal(frozen_weight);
    }
    1
}

/// A prefix of non-negative numbers sums to at most the whole.
proof fn lemma_total_prefix(ws: Seq<u64>, k: int)
    requires
        0 <= k <= ws.len(),
    ensures
        total_of(ws.take(k)) <= total_of(ws),
    decreases ws.len(),
{
    if k < ws.len() {
        assert(ws.drop_last().take(k) =~= ws.take(k));
        lemma_total_prefix(ws.drop_last(), k);
    } else {
        assert(ws.take(k) =~= ws);
    }
}

/// Under one-juror-one-vote every juror's ballot weighs one, so the
/// conviction denominator is the panel's head count.
pub proof fn law_unweighted_jury_counts_heads(pool: Seq<WeighedVoter>, jurors: Seq<UserId>)
    ensures
        forall|k: int| 0 <= k < jurors.len() ==> #[trigger] frozen_weight(pool, jurors[k], false) == 1,
        total_of(frozen_weights(jurors, pool, false)) == jurors.len(),
{
    reveal(frozen_weight);
    let ws = frozen_weights(jurors, pool, false);
    assert(ws =~= Seq::new(jurors.len(), |k: int| 1u64));
    lemma_total_of_ones(jurors.len());
}

/// A run of `n` ones sums to `n`.
proof fn lemma_total_of_ones(n: nat)
    ensures
        total_of(Seq::new(n, |k: int| 1u64)) == n,
    decreases n,
{
    if n > 0 {
        let m = (n - 1) as nat;
        lemma_total_of_ones(m);
        assert(Seq::new(n, |k: int| 1u64).drop_last() =~= Seq::new(m, |k: int| 1u64));
    }
}

/// Under a weighted jury each juror's ballot carries the weight of their first
/// entry in the pool, and a juror absent from the pool carries one.
pub proof fn law_weighted_jurors_keep_their_pool_weight(pool: Seq<WeighedVoter>, juror: UserId, i: int)
    ensures
        0 <= i < pool.len() && pool[i].user_id == juror && (forall|j: int|
            0 <= j < i ==> (#[trigger] pool[j]).user_id != juror) ==> frozen_weight(pool, juror, true) == pool[i].weight,
        (forall|j: int| 0 <= j < pool.len() ==> (#[trigger] pool[j]).user_id != juror) ==> frozen_weight(
            pool,
            juror,
            true,
        ) == 1,
{
    reveal(frozen_weight);
    if 0 <= i < pool.len() && pool[i].user_id == juror && (forall|j: int|
        0 <= j < i ==> (#[trigger] pool[j]).user_id != juror) {
        assert(0 <= i < pool.len() && pool[i].user_id == juror && forall|j: int|
            0 <= j < i ==> pool[j].user_id != juror);
        let c = first_index_of(pool, juror);
        assert(0 <= c < pool.len() && pool[c].user_id == juror && forall|j: int| 0 <= j < c ==> pool[j].user_id != juror);
        if c < i {
            assert(pool[c].user_id != juror);
        }
        if c > i {
            assert(pool[i].user_id != juror);
        }
        assert(c == i);
    }
}

/// Whether a juror may cast a ballot on the trial's outcome. That takes an
/// undecided trial, a seat on its panel and, for a juror who is still a
/// member, no running sanction.
pub open spec fn may_vote_verdict(verdict: Verdict, is_juror: bool, membership: Option<MemberStanding>) -> bool {
    verdict == Verdict::Pending && is_juror && !(membership matches Some(m) && m.is_sanctioned)
}

/// The check on a juror's ballot: `TrialClosed` once a verdict is in, then
/// `NotAJuror` for anyone off the panel, then `Sanctioned` for a juror
/// sanctioned since empanelment (a juror who has left keeps their seat).
pub fn jury_vote_check(verdict: Verdict, is_juror: bool, membership: Option<MemberStanding>) -> (r: Result<(), CastJuryVoteError>)
    ensures
        r is Ok <==> may_vote_verdict(verdict, is_juror, membership),
        membership matches Some(m) && m.is_sanctioned ==> r is Err,
        verdict == Verdict::Pending && is_juror && membership is None ==> r is Ok,
        verdict == Verdict::Pending && is_juror && (membership matches Some(m) && !m.is_sanctioned) ==> r is Ok,
        verdict != Verdict::Pending ==> r == Err::<(), CastJuryVoteError>(CastJuryVoteError::TrialClosed),
        verdict == Verdict::Pending && !is_juror ==> r == Err::<(), CastJuryVoteError>(CastJuryVoteError::NotAJuror),
        verdict == Verdict::Pending && is_juror && r is Err ==> r == Err::<(), CastJuryVoteError>(CastJuryVoteError::Sanctioned),
{
    match verdict {
        Verdict::Pending => {},
        _ => {
            return Err(CastJuryVoteError::TrialClosed);
        },
    }
    if !is_juror {
        return Err(CastJuryVoteError::NotAJuror);
    }
    if let Some(m) = membership {
        if m.is_sanctioned {
            return Err(CastJuryVoteError::Sanctioned);
        }
    }
    Ok(())
}

/// What a decisive verdict does to the case: the report's new status, whether
/// the accused (if still a member) is sanctioned, and which content is taken
/// down.
#[derive(Clone, Copy, PartialEq, Eq, Debug)]
pub struct Settlement {
    pub report_status: ReportStatus,
    pub sanction_accused: bool,
    pub removal: Removal,
}

/// Content taken down by a conviction.
#[derive(Clone, Copy, PartialEq, Eq, Debug)]
pub enum Removal {
    Nothing,
    Post(PostId),
    Comment(CommentId),
}

/// The settlement of a trial whose tally reached `verdict`: none while it is
/// pending; on a guilty verdict the report is upheld, the accused sanctioned
/// and the reported post or comment removed (a user-level report removes
/// nothing); on an acquittal the report is dismissed.
pub fn settlement(verdict: Verdict, target: ReportTarget) -> (s: Option<Settlement>)
    ensures
        s == match verdict {
            Verdict::Pending => None,
            Verdict::Guilty => Some(Settlement {
                report_status: ReportStatus::Upheld,
                sanction_accused: true,
                removal: match target {
                    ReportTarget::Post(p) => Removal::Post(p),
                    ReportTarget::Comment(c) => Removal::Comment(c),
                    ReportTarget::User(_) => Removal::Nothing,
                },
            }),
            Verdict::NotGuilty => Some(Settlement {
                report_status: ReportStatus::Dismissed,
                sanction_accused: false,
                removal: Removal::Nothing,
            }),
        },
{
    match verdict {
        Verdict::Pending => None,
        Verdict::Guilty => {
            let removal = match target {
                ReportTarget::Post(p) => Removal::Post(p),
                ReportTarget::Comment(c) => Removal::Comment(c),
                ReportTarget::User(_) => Removal::Nothing,
            };
            Some(Settlement { report_status: ReportStatus::Upheld, sanction_accused: true, removal })
        },
        Verdict::NotGuilty => Some(
            Settlement { report_status: ReportStatus::Dismissed, sanction_accused: false, removal: Removal::Nothing },
        ),
    }
}

/// The next step in settling a trial.
#[derive(Clone, Copy, PartialEq, Eq, Debug)]
pub enum SettleStep {
    /// Return this verdict and write nothing.
    Return(Verdict),
    /// Read the ballot tally and reach a verdict from it.
    Tally,
    /// Record this decisive verdict and carry out its settlement.
    Record(Verdict),
}

/// What settling a trial does next, given its stored verdict and the verdict
/// its tally reached (`None` before the tally is read): a trial already
/// decided is returned as it stands; a pending one is tallied; a tally still
/// pending changes nothing; a decisive one is recorded.
pub open spec fn settle_step_of(stored: Verdict, tallied: Option<Verdict>) -> SettleStep {
    if stored != Verdict::Pending {
        SettleStep::Return(stored)
    } else {
        match tallied {
            None => SettleStep::Tally,
            Some(Verdict::Pending) => SettleStep::Return(Verdict::Pending),
            Some(v) => SettleStep::Record(v),
        }
    }
}

/// The next step in settling a trial (see [`settle_step_of`]).
pub fn settle_step(stored: Verdict, tallied: Option<Verdict>) -> (s: SettleStep)
    ensures
        s == settle_step_of(stored, tallied),
{
    match stored {
        Verdict::Pending => match tallied {
            None => SettleStep::Tally,
            Some(Verdict::Pending) => SettleStep::Return(Verdict::Pending),
            Some(v) => SettleStep::Record(v),
        },
        _ => SettleStep::Return(stored),
    }
}

/// Settling a decided trial is a no-op: it returns the stored verdict without
/// tallying or writing anything, whatever any tally says; and once a decisive
/// verdict is recorded, settling again returns it unchanged.
pub proof fn law_settling_a_decided_trial_changes_nothing(stored: Verdict, tallied: Option<Verdict>)
    ensures
        stored != Verdict::Pending ==> settle_step_of(stored, tallied) == SettleStep::Return(stored),
        settle_step_of(Verdict::Pending, tallied) matches SettleStep::Record(v) ==> v != Verdict::Pending
            && settle_step_of(v, tallied) == SettleStep::Return(v),
{
}

/// A pending trial is settled by its tally: it is tallied first, a tally
/// still pending leaves it pending, and a decisive tally is recorded as it
/// stands.
pub proof fn law_pending_trials_follow_their_tally(v: Verdict)
    ensures
        settle_step_of(Verdict::Pending, None) == SettleStep::Tally,
        v == Verdict::Pending ==> settle_step_of(Verdict::Pending, Some(v)) == SettleStep::Return(Verdict::Pending),
        v != Verdict::Pending ==> settle_step_of(Verdict::Pending, Some(v)) == SettleStep::Record(v),
{
}

/// How long a trial runs, in days.
pub const TRIAL_DAYS: i64 = 3;

/// When a trial opened at `now` closes: `TRIAL_DAYS` later, or `None` when
/// that instant is beyond the range of a timestamp.
pub fn trial_deadline(now: Timestamp) -> (t: Option<Timestamp>)
    ensures
        t == days_after_of(now, TRIAL_DAYS),
{
    days_after(now, TRIAL_DAYS)
}

/// The ids of the candidates that accept the alert, in order.
pub open spec fn opted_in_ids(candidates: Seq<(UserId, bool)>) -> Seq<UserId> {
    candidates.filter(|c: (UserId, bool)| c.1).map_values(|c: (UserId, bool)| c.0)
}

/// Alerts go to exactly the candidates that accept them: each such candidate
/// is alerted, and everyone alerted is such a candidate.
pub proof fn law_alerts_reach_exactly_the_opted_in(candidates: Seq<(UserId, bool)>)
    ensures
        forall|k: int|
            0 <= k < candidates.len() && (#[trigger] candidates[k]).1 ==> opted_in_ids(candidates).contains(
                candidates[k].0,
            ),
        forall|u: UserId| #[trigger] opted_in_ids(candidates).contains(u) ==> candidates.contains((u, true)),
{
    let pred = |c: (UserId, bool)| c.1;
    let f = |c: (UserId, bool)| c.0;
    let fs = candidates.filter(pred);
    assert forall|k: int| 0 <= k < candidates.len() && (#[trigger] candidates[k]).1 implies fs.map_values(f).contains(
        candidates[k].0,
    ) by {
        candidates.lemma_filter_contains(pred, k);
        let j = choose|j: int| 0 <= j < fs.len() && fs[j] == candidates[k];
        assert(fs.map_values(f)[j] == candidates[k].0);
    }
    assert forall|u: UserId| #[trigger] fs.map_values(f).contains(u) implies candidates.contains((u, true)) by {
        let j = choose|j: int| 0 <= j < fs.map_values(f).len() && fs.map_values(f)[j] == u;
        candidates.lemma_filter_pred(pred, j);
        assert(fs[j] == (u, true));
        assert(fs.contains((u, true)));
        candidates.lemma_filter_contains_rev(pred, (u, true));
    }
}

/// The accounts to alert, in order: those of `candidates` (each with whether
/// the account accepts this kind of alert) that accept it.
pub fn opted_in(candidates: &Vec<(UserId, bool)>) -> (r: Vec<UserId>)
    ensures
        r@ == opted_in_ids(candidates@),
{
    let mut r: Vec<UserId> = Vec::new();
    let mut k: usize = 0;
    while k < candidates.len()
        invariant
            k <= candidates@.len(),
            r@ == candidates@.take(k as int).filter(|c: (UserId, bool)| c.1).map_values(|c: (UserId, bool)| c.0),
        decreases candidates@.len() - k,
    {
        proof {
            reveal_with_fuel(Seq::<(UserId, bool)>::filter, 1);
        }
        let c = candidates[k];
        assert(candidates@.take(k + 1).drop_last() =~= candidates@.take(k as int));
        let ghost before = candidates@.take(k as int).filter(|c: (UserId, bool)| c.1);
        if c.1 {
            r.push(c.0);
            assert(before.push(c).map_values(|c: (UserId, bool)| c.0) =~= before.map_values(
                |c: (UserId, bool)| c.0,
            ).push(c.0));
        }
        k = k + 1;
    }
    assert(candidates@.take(candidates@.len() as int) =~= candidates@);
    r
}

/// The most severe of the resolvable cited rule terms (zero when none
/// resolves).
pub open spec fn max_term(terms: Seq<Option<u32>>) -> u32
    decreases terms.len(),
{
    if terms.len() == 0 {
        0
    } else {
        let rest = max_term(terms.drop_last());
        match terms.last() {
            Some(t) => if t > rest {
                t
            } else {
                rest
            },
            None => rest,
        }
    }
}

/// The ban term a conviction carries: the most severe cited term, or the
/// community ceiling when no cited rule carries one.
pub open spec fn conviction_term(ceiling: u32, terms: Seq<Option<u32>>) -> u32 {
    if max_term(terms) == 0 {
        ceiling
    } else {
        max_term(terms)
    }
}

/// A conviction's ban is at least as long as every term the cited rules
/// carry, and, when every cited term is within the community's ceiling, never
/// longer than the ceiling.
pub proof fn law_ban_term_bounds(ceiling: u32, terms: Seq<Option<u32>>)
    ensures
        forall|k: int| 0 <= k < terms.len() && terms[k] is Some ==> conviction_term(ceiling, terms) >= #[trigger] terms[k]->0,
        (forall|k: int| 0 <= k < terms.len() && terms[k] is Some ==> #[trigger] terms[k]->0 <= ceiling) ==> conviction_term(ceiling, terms) <= ceiling,
{
    lemma_max_term_bounds(terms, ceiling);
}

/// A conviction's ban runs to the community ceiling exactly when no cited
/// rule carries a term; otherwise it is one of the cited terms.
pub proof fn law_ban_term_is_a_cited_term_or_the_ceiling(ceiling: u32, terms: Seq<Option<u32>>)
    ensures
        (forall|k: int| 0 <= k < terms.len() && terms[k] is Some ==> #[trigger] terms[k]->0 == 0) ==> conviction_term(
            ceiling,
            terms,
        ) == ceiling,
        (exists|k: int| 0 <= k < terms.len() && terms[k] is Some && #[trigger] terms[k]->0 > 0) ==> exists|k: int|
            0 <= k < terms.len() && #[trigger] terms[k] == Some(conviction_term(ceiling, terms)),
{
    lemma_max_term_bounds(terms, 0);
    lemma_max_term_is_a_term(terms);
    if exists|k: int| 0 <= k < terms.len() && terms[k] is Some && #[trigger] terms[k]->0 > 0 {
        let k = choose|k: int| 0 <= k < terms.len() && terms[k] is Some && #[trigger] terms[k]->0 > 0;
        assert(max_term(terms) >= terms[k]->0);
    }
}

/// `max_term` is zero or one of the present terms.
proof fn lemma_max_term_is_a_term(terms: Seq<Option<u32>>)
    ensures
        max_term(terms) == 0 || exists|k: int| 0 <= k < terms.len() && #[trigger] terms[k] == Some(max_term(terms)),
    decreases terms.len(),
{
    if terms.len() > 0 {
        let d = terms.drop_last();
        lemma_max_term_is_a_term(d);
        if max_term(terms) != 0 {
            if max_term(terms) == max_term(d) {
                let k = choose|k: int| 0 <= k < d.len() && #[trigger] d[k] == Some(max_term(d));
                assert(terms[k] == d[k]);
            } else {
                assert(terms[terms.len() - 1] == Some(max_term(terms)));
            }
        }
    }
}

/// `max_term` is at least every present term, and at most any bound on them.
proof fn lemma_max_term_bounds(terms: Seq<Option<u32>>, bound: u32)
    ensures
        forall|k: int| 0 <= k < terms.len() && terms[k] is Some ==> max_term(terms) >= #[trigger] terms[k]->0,
        (forall|k: int| 0 <= k < terms.len() && terms[k] is Some ==> #[trigger] terms[k]->0 <= bound) ==> max_term(terms) <= bound,
    decreases terms.len(),
{
    if terms.len() > 0 {
        let d = terms.drop_last();
        lemma_max_term_bounds(d, bound);
        assert forall|k: int| 0 <= k < terms.len() && terms[k] is Some implies max_term(terms) >= #[trigger] terms[k]->0 by {
            if k < d.len() {
                assert(d[k] == terms[k]);
            }
        }
        if forall|k: int| 0 <= k < terms.len() && terms[k] is Some ==> #[trigger] terms[k]->0 <= bound {
            assert forall|k: int| 0 <= k < d.len() && d[k] is Some implies #[trigger] d[k]->0 <= bound by {
                assert(d[k] == terms[k]);
            }
            assert(terms[terms.len() - 1] == terms.last());
        }
    }
}

/// The ban term (days) a conviction carries: the most severe term among the
/// rules the case cited (`terms[i]` is the term of the `i`-th cited rule read
/// against the community's live ceiling, `None` if that rule is gone); if no
/// cited rule carries a term, the community ceiling.
pub fn ban_term(ceiling: u32, terms: &Vec<Option<u32>>) -> (t: u32)
    ensures
        t == conviction_term(ceiling, terms@),
{
    let mut term: u32 = 0;
    let mut k: usize = 0;
    while k < terms.len()
        invariant
            k <= terms@.len(),
            term == max_term(terms@.take(k as int)),
        decreases terms@.len() - k,
    {
        assert(terms@.take(k + 1).drop_last() =~= terms@.take(k as int));
        if let Some(t) = terms[k] {
            if t > term {
                term = t;
            }
        }
        k = k + 1;
    }
    assert(terms@.take(terms@.len() as int) =~= terms@);
    if term == 0 {
        ceiling
    } else {
        term
    }
}

/// Whether a trial comment may be posted: its trimmed body is not empty, and
/// the author is a franchised member of the trial's community.
pub fn trial_comment_check(body: &str, membership: Option<MemberStanding>) -> (r: Result<String, CommentOnTrialError>)
    ensures
        trimmed(body@).len() == 0 ==> r == Err::<String, CommentOnTrialError>(CommentOnTrialError::Empty),
        trimmed(body@).len() > 0 ==> match r {
            Ok(text) => text@ == trimmed(body@) && (membership matches Some(m) && m.is_franchised),
            Err(e) => e == CommentOnTrialError::NotAVoter && !(membership matches Some(m) && m.is_franchised),
        },
{
    let text = trim_text(body);
    if text.is_empty() {
        return Err(CommentOnTrialError::Empty);
    }
    match membership {
        Some(m) => if m.is_franchised {
            Ok(text.to_string())
        } else {
            Err(CommentOnTrialError::NotAVoter)
        },
        None => Err(CommentOnTrialError::NotAVoter),
    }
}

/// Whether `ids` is strictly increasing.
pub open spec fn strictly_increasing(ids: Seq<UserId>) -> bool {
    forall|a: int, b: int| 0 <= a < b < ids.len() ==> (#[trigger] ids[a]).0 < (#[trigger] ids[b]).0
}

/// Everyone party to a trial: the accused, the jurors, the reporters (the
/// automatic flags have none) and everyone who has commented.
pub open spec fn trial_parties(accused: UserId, jurors: Seq<UserId>, reporters: Seq<Option<UserId>>, commenters: Seq<UserId>) -> Set<UserId> {
    Set::empty().insert(accused) + jurors.to_set() + reporters.filter(|r: Option<UserId>| r is Some).map_values(
        |r: Option<UserId>| r->0,
    ).to_set() + commenters.to_set()
}

/// Who hears of a new trial comment: every party to the trial except its
/// author, each once, in ascending id order.
pub fn trial_comment_audience(
    accused: UserId,
    jurors: &Vec<UserId>,
    reporters: &Vec<Option<UserId>>,
    commenters: &Vec<UserId>,
    author: UserId,
) -> (out: Vec<UserId>)
    ensures
        strictly_increasing(out@),
        out@.to_set() == trial_parties(accused, jurors@, reporters@, commenters@).remove(author),
        !out@.contains(author),
        accused != author ==> out@.contains(accused),
        forall|k: int| 0 <= k < jurors@.len() && jurors@[k] != author ==> out@.contains(#[trigger] jurors@[k]),
        forall|k: int|
            0 <= k < reporters@.len() && (#[trigger] reporters@[k] matches Some(r) && r != author) ==> out@.contains(
                reporters@[k]->0,
            ),
        forall|k: int| 0 <= k < commenters@.len() && commenters@[k] != author ==> out@.contains(#[trigger] commenters@[k]),
        forall|k: int|
            0 <= k < out@.len() ==> #[trigger] out@[k] == accused || jurors@.contains(out@[k]) || reporters@.contains(
                Some(out@[k]),
            ) || commenters@.contains(out@[k]),
{
    let mut out: Vec<UserId> = Vec::new();
    let ghost mut seen: Set<UserId> = Set::empty();
    proof {
        assert(out@.to_set() =~= Set::<UserId>::empty());
    }
    insert_sorted(&mut out, accused, author);
    proof {
        seen = seen.insert(accused);
    }
    let mut k: usize = 0;
    while k < jurors.len()
        invariant
            k <= jurors@.len(),
            strictly_increasing(out@),
            seen == Set::empty().insert(accused) + jurors@.take(k as int).to_set(),
            out@.to_set() == seen.remove(author),
        decreases jurors@.len() - k,
    {
        insert_sorted(&mut out, jurors[k], author);
        proof {
            assert(jurors@.take(k + 1) =~= jurors@.take(k as int).push(jurors@[k as int]));
            lemma_push_to_set(jurors@.take(k as int), jurors@[k as int]);
            seen = seen.insert(jurors@[k as int]);
        }
        k = k + 1;
    }
    assert(jurors@.take(jurors@.len() as int) =~= jurors@);
    let ghost base = seen;
    let ghost rs = reporters@.filter(|r: Option<UserId>| r is Some).map_values(|r: Option<UserId>| r->0);
    let mut k: usize = 0;
    while k < reporters.len()
        invariant
            k <= reporters@.len(),
            strictly_increasing(out@),
            rs == reporters@.filter(|r: Option<UserId>| r is Some).map_values(|r: Option<UserId>| r->0),
            seen == base + reporters@.take(k as int).filter(|r: Option<UserId>| r is Some).map_values(
                |r: Option<UserId>| r->0,
            ).to_set(),
            out@.to_set() == seen.remove(author),
        decreases reporters@.len() - k,
    {
        proof {
            reveal_with_fuel(Seq::<Option<UserId>>::filter, 1);
        }
        let ghost before = reporters@.take(k as int).filter(|r: Option<UserId>| r is Some);
        assert(reporters@.take(k + 1).drop_last() =~= reporters@.take(k as int));
        if let Some(r) = reporters[k] {
            insert_sorted(&mut out, r, author);
            proof {
                let after = reporters@.take(k + 1).filter(|r: Option<UserId>| r is Some);
                assert(after == before.push(Some(r)));
                let f = |r: Option<UserId>| r->0;
                assert(after.map_values(f) =~= before.map_values(f).push(r));
                lemma_push_to_set(before.map_values(f), r);
                seen = seen.insert(r);
            }
        }
        k = k + 1;
    }
    assert(reporters@.take(reporters@.len() as int) =~= reporters@);
    let ghost base2 = seen;
    let mut k: usize = 0;
    while k < commenters.len()
        invariant
            k <= commenters@.len(),
            strictly_increasing(out@),
            seen == base2 + commenters@.take(k as int).to_set(),
            out@.to_set() == seen.remove(author),
        decreases commenters@.len() - k,
    {
        insert_sorted(&mut out, commenters[k], author);
        proof {
            assert(commenters@.take(k + 1) =~= commenters@.take(k as int).push(commenters@[k as int]));
            lemma_push_to_set(commenters@.take(k as int), commenters@[k as int]);
            seen = seen.insert(commenters@[k as int]);
        }
        k = k + 1;
    }
    assert(commenters@.take(commenters@.len() as int) =~= commenters@);
    assert(seen =~= trial_parties(accused, jurors@, reporters@, commenters@));
    assert(!out@.to_set().contains(author));
    proof {
        law_trial_parties_are_the_case(accused, jurors@, reporters@, commenters@);
        let parties = trial_parties(accused, jurors@, reporters@, commenters@);
        assert forall|u: UserId| parties.contains(u) && u != author implies out@.contains(u) by {
            assert(out@.to_set().contains(u));
        }
        assert forall|k: int| 0 <= k < out@.len() implies parties.contains(#[trigger] out@[k]) by {
            assert(out@.to_set().contains(out@[k]));
        }
    }
    out
}

/// Everyone party to a trial is the accused, a juror, a reporter or a
/// commenter, and each of them is a party.
pub proof fn law_trial_parties_are_the_case(
    accused: UserId,
    jurors: Seq<UserId>,
    reporters: Seq<Option<UserId>>,
    commenters: Seq<UserId>,
)
    ensures
        trial_parties(accused, jurors, reporters, commenters).contains(accused),
        forall|k: int| 0 <= k < jurors.len() ==> trial_parties(accused, jurors, reporters, commenters).contains(#[trigger] jurors[k]),
        forall|k: int|
            0 <= k < reporters.len() && (#[trigger] reporters[k] is Some) ==> trial_parties(
                accused,
                jurors,
                reporters,
                commenters,
            ).contains(reporters[k]->0),
        forall|k: int|
            0 <= k < commenters.len() ==> trial_parties(accused, jurors, reporters, commenters).contains(
                #[trigger] commenters[k],
            ),
        forall|u: UserId|
            #[trigger] trial_parties(accused, jurors, reporters, commenters).contains(u) ==> u == accused
                || jurors.contains(u) || reporters.contains(Some(u)) || commenters.contains(u),
{
    let pred = |r: Option<UserId>| r is Some;
    let f = |r: Option<UserId>| r->0;
    let rs = reporters.filter(pred);
    assert forall|k: int| 0 <= k < jurors.len() implies jurors.to_set().contains(#[trigger] jurors[k]) by {
        assert(jurors.contains(jurors[k]));
    }
    assert forall|k: int| 0 <= k < commenters.len() implies commenters.to_set().contains(#[trigger] commenters[k]) by {
        assert(commenters.contains(commenters[k]));
    }
    assert forall|k: int| 0 <= k < reporters.len() && (#[trigger] reporters[k] is Some) implies rs.map_values(
        f,
    ).to_set().contains(reporters[k]->0) by {
        reporters.lemma_filter_contains(pred, k);
        let j = choose|j: int| 0 <= j < rs.len() && rs[j] == reporters[k];
        assert(rs.map_values(f)[j] == reporters[k]->0);
        assert(rs.map_values(f).contains(reporters[k]->0));
    }
    assert forall|u: UserId| #[trigger] trial_parties(accused, jurors, reporters, commenters).contains(u) implies u
        == accused || jurors.contains(u) || reporters.contains(Some(u)) || commenters.contains(u) by {
        if rs.map_values(f).to_set().contains(u) {
            let j = choose|j: int| 0 <= j < rs.map_values(f).len() && rs.map_values(f)[j] == u;
            reporters.lemma_filter_pred(pred, j);
            assert(rs[j] == Some(u));
            assert(rs.contains(Some(u)));
            reporters.lemma_filter_contains_rev(pred, Some(u));
        }
    }
}

/// Pushing an element adds it to the set of a sequence.
proof fn lemma_push_to_set(s: Seq<UserId>, x: UserId)
    ensures
        s.push(x).to_set() == s.to_set().insert(x),
{
    assert forall|y: UserId| #[trigger] s.push(x).to_set().contains(y) <==> s.to_set().insert(x).contains(y) by {
        if s.push(x).contains(y) {
            let i = choose|i: int| 0 <= i < s.push(x).len() && s.push(x)[i] == y;
            if i < s.len() {
                assert(s.contains(y));
            }
        }
        if s.contains(y) {
            let i = choose|i: int| 0 <= i < s.len() && s[i] == y;
            assert(s.push(x)[i] == y);
        }
        if y == x {
            assert(s.push(x)[s.len() as int] == x);
        }
    }
    assert(s.push(x).to_set() =~= s.to_set().insert(x));
}

/// Insert `u` into the strictly increasing `out`, unless it is already there
/// or is `skip`.
fn insert_sorted(out: &mut Vec<UserId>, u: UserId, skip: UserId)
    requires
        strictly_increasing(old(out)@),
    ensures
        strictly_increasing(final(out)@),
        final(out)@.to_set() == if u == skip {
            old(out)@.to_set()
        } else {
            old(out)@.to_set().insert(u)
        },
{
    if u.0 == skip.0 {
        return;
    }
    let mut p: usize = 0;
    while p < out.len() && out[p].0 < u.0
        invariant
            p <= out@.len(),
            forall|j: int| 0 <= j < p ==> (#[trigger] out@[j]).0 < u.0,
        decreases out@.len() - p,
    {
        p = p + 1;
    }
    if p < out.len() && out[p].0 == u.0 {
        proof {
            assert(out@[p as int] == u);
            assert(out@.to_set().contains(u));
            assert(out@.to_set().insert(u) =~= out@.to_set());
        }
        return;
    }
    let ghost before = out@;
    out.insert(p, u);
    proof {
        assert forall|a: int, b: int| 0 <= a < b < out@.len() implies (#[trigger] out@[a]).0 < (#[trigger] out@[b]).0 by {
            if b < p {
                assert(out@[a] == before[a] && out@[b] == before[b]);
            } else if b == p {
                assert(out@[a] == before[a]);
            } else if a < p {
                assert(out@[a] == before[a] && out@[b] == before[b - 1]);
                assert(before[b - 1].0 >= before[p as int].0 || b - 1 == p);
                assert(before[p as int].0 > u.0);
            } else if a == p {
                assert(out@[b] == before[b - 1]);
                assert(before[p as int].0 > u.0);
                assert(b - 1 == p || before[p as int].0 < before[b - 1].0);
            } else {
                assert(out@[a] == before[a - 1] && out@[b] == before[b - 1]);
            }
        }
        assert forall|y: UserId| #[trigger] out@.to_set().contains(y) <==> before.to_set().insert(u).contains(y) by {
            if out@.contains(y) {
                let i = choose|i: int| 0 <= i < out@.len() && out@[i] == y;
                if i < p {
                    assert(before[i] == y);
                } else if i > p {
                    assert(before[i - 1] == y);
                }
            }
            if before.contains(y) {
                let i = choose|i: int| 0 <= i < before.len() && before[i] == y;
                if i < p {
                    assert(out@[i] == y);
                } else {
                    assert(out@[i + 1] == y);
                }
            }
            if y == u {
                assert(out@[p as int] == u);
            }
        }
        assert(out@.to_set() =~= before.to_set().insert(u));
    }
}

/// Where a new flag on `target` goes: into the first open report already on
/// that target (`open_targets[i]` is the target of the community's `i`-th open
/// report), or, when there is none, into a new report.
pub fn merge_target(open_targets: &Vec<ReportTarget>, target: ReportTarget) -> (r: Option<usize>)
    ensures
        match r {
            Some(i) => i < open_targets@.len() && open_targets@[i as int] == target && forall|j: int|
                0 <= j < i ==> open_targets@[j] != target,
            None => !open_targets@.contains(target),
        },
{
    let mut k: usize = 0;
    while k < open_targets.len()
        invariant
            k <= open_targets@.len(),
            forall|j: int| 0 <= j < k ==> open_targets@[j] != target,
        decreases open_targets@.len() - k,
    {
        if open_targets[k] == target {
            return Some(k);
        }
        k = k + 1;
    }
    None
}

/// A user found for a mention, with whether they accept mention alerts.
#[derive(Clone, Copy, PartialEq, Eq, Debug)]
pub struct MentionedUser {
    pub user_id: UserId,
    pub allows_mention_alerts: bool,
}

/// The author of a mention is never notified of it, and only accounts that
/// accept mention alerts are.
pub proof fn law_mentions_skip_the_author(named: Seq<MentionedUser>, author: UserId, k: int)
    requires
        0 <= k < named.filter(|u: MentionedUser| u.user_id != author && u.allows_mention_alerts).len(),
    ensures
        named.filter(|u: MentionedUser| u.user_id != author && u.allows_mention_alerts).map_values(
            |u: MentionedUser| u.user_id,
        )[k] != author,
        named.filter(|u: MentionedUser| u.user_id != author && u.allows_mention_alerts)[k].allows_mention_alerts,
{
    named.lemma_filter_pred(|u: MentionedUser| u.user_id != author && u.allows_mention_alerts, k);
}

/// Everyone named who is not the author and accepts mention alerts is
/// notified.
pub proof fn law_mentions_reach_every_willing_account(named: Seq<MentionedUser>, author: UserId)
    ensures
        forall|k: int|
            0 <= k < named.len() && (#[trigger] named[k]).user_id != author && named[k].allows_mention_alerts
                ==> named.filter(|u: MentionedUser| u.user_id != author && u.allows_mention_alerts).map_values(
                |u: MentionedUser| u.user_id,
            ).contains(named[k].user_id),
{
    let pred = |u: MentionedUser| u.user_id != author && u.allows_mention_alerts;
    let f = |u: MentionedUser| u.user_id;
    let fs = named.filter(pred);
    assert forall|k: int|
        0 <= k < named.len() && (#[trigger] named[k]).user_id != author && named[k].allows_mention_alerts implies fs.map_values(
        f,
    ).contains(named[k].user_id) by {
        named.lemma_filter_contains(pred, k);
        let j = choose|j: int| 0 <= j < fs.len() && fs[j] == named[k];
        assert(fs.map_values(f)[j] == named[k].user_id);
    }
}

/// Who is notified of a mention: each named account that exists, is not the
/// author, and accepts mention alerts, in the order named.
pub fn mention_recipients(named: &Vec<MentionedUser>, author: UserId) -> (r: Vec<UserId>)
    ensures
        r@ == named@.filter(|u: MentionedUser| u.user_id != author && u.allows_mention_alerts).map_values(
            |u: MentionedUser| u.user_id,
        ),
{
    let mut r: Vec<UserId> = Vec::new();
    let mut k: usize = 0;
    while k < named.len()
        invariant
            k <= named@.len(),
            r@ == named@.take(k as int).filter(|u: MentionedUser| u.user_id != author && u.allows_mention_alerts).map_values(
                |u: MentionedUser| u.user_id,
            ),
        decreases named@.len() - k,
    {
        proof {
            reveal_with_fuel(Seq::<MentionedUser>::filter, 1);
        }
        let u = named[k];
        assert(named@.take(k + 1).drop_last() =~= named@.take(k as int));
        let ghost before = named@.take(k as int).filter(|u: MentionedUser| u.user_id != author && u.allows_mention_alerts);
        if u.user_id.0 != author.0 && u.allows_mention_alerts {
            r.push(u.user_id);
            assert(before.push(u).map_values(|u: MentionedUser| u.user_id) =~= before.map_values(
                |u: MentionedUser| u.user_id,
            ).push(u.user_id));
        }
        k = k + 1;
    }
    assert(named@.take(named@.len() as int) =~= named@);
    r
}

} // verus!
