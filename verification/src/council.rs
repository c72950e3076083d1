//! Data model of the council core: the stage state machine's states, the
//! candidacy registry, the elected membership set, the budget ledger fields,
//! the error taxonomy and the domain notifications.

use vstd::prelude::*;

verus! {

/// The announcing stage: accepting candidacy declarations.
#[derive(Clone, Copy, PartialEq, Eq, Structural, Debug)]
pub struct CouncilStageAnnouncing {
    pub candidates_count: u64,
}

/// The election stage: the referendum engine owns progression.
#[derive(Clone, Copy, PartialEq, Eq, Structural, Debug)]
pub struct CouncilStageElection {
    pub candidates_count: u64,
}

/// The phase the council protocol is in.
#[derive(Clone, Copy, PartialEq, Eq, Structural, Debug)]
pub enum CouncilStage {
    /// Accepting candidacy declarations.
    Announcing(CouncilStageAnnouncing),
    /// Delegated to the referendum engine (voting, then revealing).
    Election(CouncilStageElection),
    /// No active cycle; the council is seated.
    Idle,
}

/// The current phase together with the block height it was entered at.
#[derive(Clone, Copy, PartialEq, Eq, Structural, Debug)]
pub struct CouncilStageUpdate {
    pub stage: CouncilStage,
    pub changed_at: u64,
}

impl CouncilStageUpdate {
    /// The state the protocol starts in at genesis.
    pub fn new_default() -> (r: CouncilStageUpdate)
        ensures
            r == (CouncilStageUpdate {
                stage: CouncilStage::Announcing(CouncilStageAnnouncing { candidates_count: 0 }),
                changed_at: 0u64,
            }),
    {
        CouncilStageUpdate {
            stage: CouncilStage::Announcing(CouncilStageAnnouncing { candidates_count: 0 }),
            changed_at: 0,
        }
    }
}

/// A declared candidacy.
#[derive(Clone, Debug)]
pub struct Candidate {
    pub staking_account_id: u64,
    pub reward_account_id: u64,
    /// The announcement period the candidacy was declared in.
    pub cycle_id: u64,
    /// The stake locked for this candidacy.
    pub stake: u64,
    /// Vote power accumulated by the referendum engine; the single source of
    /// truth for this candidate's tally.
    pub vote_power: u64,
    /// Digest of the optional off-chain candidacy note.
    pub note_hash: Option<Vec<u8>>,
}

/// A candidacy keyed by the membership identity that declared it.
#[derive(Clone, Debug)]
pub struct CandidateRecord {
    pub membership_id: u64,
    pub candidate: Candidate,
}

/// One elected member: the candidate snapshot it was produced from, the block
/// its rewards are paid up to, and the reward still owed to it.
#[derive(Clone, Copy, PartialEq, Eq, Structural, Debug)]
pub struct CouncilMember {
    pub staking_account_id: u64,
    pub reward_account_id: u64,
    pub membership_id: u64,
    pub stake: u64,
    pub last_payment_block: u64,
    pub unpaid_reward: u64,
}

/// The member a winning candidate is snapshotted into.
pub open spec fn member_of(c: Candidate, membership_id: u64, elected_at: u64) -> CouncilMember {
    CouncilMember {
        staking_account_id: c.staking_account_id,
        reward_account_id: c.reward_account_id,
        membership_id,
        stake: c.stake,
        last_payment_block: elected_at,
        unpaid_reward: 0,
    }
}

/// The errors the council's user-facing operations surface.  Every failing
/// call leaves the state unchanged.
#[derive(Clone, Copy, PartialEq, Eq, Structural, Debug)]
pub enum Error {
    /// The origin is not entitled to act for the given member, or is not the
    /// privileged origin the call demands.
    BadOrigin,
    /// Candidacies are only accepted during the announcing stage.
    NotAnnouncingStage,
    /// The member already has an active candidacy this cycle.
    MemberAlreadyCandidating,
    /// The offered stake is below the candidacy threshold.
    CandidacyStakeTooLow,
    /// The staking account cannot cover the offered stake.
    AccountInsufficientBalance,
    /// No candidacy record exists for the member.
    NotCandidate,
    /// Withdrawal is only allowed while the announcing stage lasts.
    CandidacyStakeLockedPostAnnouncement,
    /// The member has no candidacy the current cycle still accepts notes for.
    NotCandidatingNow,
    /// The candidacy is still part of an unresolved cycle.
    StakeStillNeeded,
}

/// The domain notifications user-facing operations emit on success.
#[derive(Clone, Debug)]
pub enum RawEvent {
    /// A new candidacy: member and stake.
    NewCandidate(u64, u64),
    /// A candidacy withdrawn during announcing.
    CandidacyWithdraw(u64),
    /// A candidacy note set: member and note.
    CandidacyNoteSet(u64, Vec<u8>),
    /// A cleared candidacy's stake released.
    CandidacyStakeRelease(u64),
    /// The budget set by the privileged origin.
    BudgetBalanceSet(u64),
    /// The next budget refill planned by the privileged origin.
    BudgetRefillPlanned(u64),
}

/// Structural equality of two notifications.
pub open spec fn event_eq(a: RawEvent, b: RawEvent) -> bool {
    match (a, b) {
        (RawEvent::NewCandidate(m1, s1), RawEvent::NewCandidate(m2, s2)) => m1 == m2 && s1 == s2,
        (RawEvent::CandidacyWithdraw(m1), RawEvent::CandidacyWithdraw(m2)) => m1 == m2,
        (RawEvent::CandidacyNoteSet(m1, n1), RawEvent::CandidacyNoteSet(m2, n2)) => m1 == m2
            && n1@ == n2@,
        (RawEvent::CandidacyStakeRelease(m1), RawEvent::CandidacyStakeRelease(m2)) => m1 == m2,
        (RawEvent::BudgetBalanceSet(a1), RawEvent::BudgetBalanceSet(a2)) => a1 == a2,
        (RawEvent::BudgetRefillPlanned(b1), RawEvent::BudgetRefillPlanned(b2)) => b1 == b2,
        _ => false,
    }
}

/// Whether some record in `s` belongs to member `m`.
pub open spec fn has_candidate(s: Seq<CandidateRecord>, m: u64) -> bool {
    exists|i: int| 0 <= i < s.len() && s[i].membership_id == m
}

/// The index of member `m`'s record (meaningful under [`has_candidate`] and
/// uniqueness of membership identities).
pub open spec fn candidate_idx(s: Seq<CandidateRecord>, m: u64) -> int {
    choose|i: int| 0 <= i < s.len() && s[i].membership_id == m
}

/// Member `m`'s candidacy.
pub open spec fn spec_candidate(s: Seq<CandidateRecord>, m: u64) -> Candidate {
    s[candidate_idx(s, m)].candidate
}

/// Whether member `m` has a candidacy in cycle `nr`.
pub open spec fn is_active_candidate(s: Seq<CandidateRecord>, m: u64, nr: u64) -> bool {
    has_candidate(s, m) && spec_candidate(s, m).cycle_id == nr
}

/// Membership identities in the registry are unique.
pub open spec fn candidates_wf(s: Seq<CandidateRecord>) -> bool {
    forall|i: int, j: int| 0 <= i < j < s.len() ==> s[i].membership_id != s[j].membership_id
}

/// The number of candidacies declared in cycle `nr`.
pub open spec fn active_count(s: Seq<CandidateRecord>, nr: u64) -> nat
    decreases s.len(),
{
    if s.len() == 0 {
        0
    } else {
        active_count(s.drop_last(), nr) + if s.last().candidate.cycle_id == nr {
            1nat
        } else {
            0nat
        }
    }
}

/// Under unique identities, any position holding `m` is the position
/// [`candidate_idx`] denotes.
pub proof fn lemma_candidate_idx(s: Seq<CandidateRecord>, m: u64, i: int)
    requires
        candidates_wf(s),
        0 <= i < s.len(),
        s[i].membership_id == m,
    ensures
        has_candidate(s, m),
        candidate_idx(s, m) == i,
{
    assert(has_candidate(s, m));
    let j = candidate_idx(s, m);
    assert(0 <= j < s.len() && s[j].membership_id == m);
    if i < j {
        assert(s[i].membership_id != s[j].membership_id);
    } else if j < i {
        assert(s[j].membership_id != s[i].membership_id);
    }
}

/// There are never more candidacies of one cycle than records.
pub proof fn lemma_active_count_le_len(s: Seq<CandidateRecord>, nr: u64)
    ensures
        active_count(s, nr) <= s.len(),
    decreases s.len(),
{
    if s.len() > 0 {
        lemma_active_count_le_len(s.drop_last(), nr);
    }
}

/// Appending a record changes the cycle count by one exactly when the record
/// belongs to that cycle.
pub proof fn lemma_active_count_push(s: Seq<CandidateRecord>, nr: u64, r: CandidateRecord)
    ensures
        active_count(s.push(r), nr) == active_count(s, nr) + if r.candidate.cycle_id == nr {
            1nat
        } else {
            0nat
        },
{
    assert(s.push(r).drop_last() =~= s);
    assert(s.push(r).last() == r);
}

/// Removing the record at `i` changes the cycle count by one exactly when
/// that record belongs to the cycle.
pub proof fn lemma_active_count_remove(s: Seq<CandidateRecord>, nr: u64, i: int)
    requires
        0 <= i < s.len(),
    ensures
        active_count(s, nr) == active_count(s.remove(i), nr) + if s[i].candidate.cycle_id == nr {
            1nat
        } else {
            0nat
        },
    decreases s.len(),
{
    if i == s.len() - 1 {
        assert(s.remove(i) =~= s.drop_last());
    } else {
        let s2 = s.drop_last();
        lemma_active_count_remove(s2, nr, i);
        assert(s.remove(i).drop_last() =~= s2.remove(i));
        assert(s.remove(i).last() == s.last());
    }
}

/// A cycle no record belongs to has a zero count.
pub proof fn lemma_active_count_none(s: Seq<CandidateRecord>, nr: u64)
    requires
        forall|i: int| 0 <= i < s.len() ==> s[i].candidate.cycle_id != nr,
    ensures
        active_count(s, nr) == 0,
    decreases s.len(),
{
    if s.len() > 0 {
        lemma_active_count_none(s.drop_last(), nr);
    }
}

/// A record of cycle `nr` at position `i` accounts for at least one in the
/// cycle count.
pub proof fn lemma_active_count_pos(s: Seq<CandidateRecord>, nr: u64, i: int)
    requires
        0 <= i < s.len(),
        s[i].candidate.cycle_id == nr,
    ensures
        active_count(s, nr) >= 1,
    decreases s.len(),
{
    if i == s.len() - 1 {
    } else {
        lemma_active_count_pos(s.drop_last(), nr, i);
    }
}

/// Two registries with the same length whose records agree pointwise except
/// in fields other than the identity agree on lookups.
pub proof fn lemma_same_candidate_ids(s1: Seq<CandidateRecord>, s2: Seq<CandidateRecord>, m: u64)
    requires
        candidates_wf(s1),
        candidates_wf(s2),
        s1.len() == s2.len(),
        forall|i: int| 0 <= i < s1.len() ==> s1[i].membership_id == #[trigger] s2[i].membership_id,
    ensures
        has_candidate(s1, m) == has_candidate(s2, m),
        has_candidate(s1, m) ==> candidate_idx(s1, m) == candidate_idx(s2, m),
{
    if has_candidate(s1, m) {
        let i = candidate_idx(s1, m);
        assert(0 <= i < s1.len() && s1[i].membership_id == m);
        lemma_candidate_idx(s2, m, i);
        lemma_candidate_idx(s1, m, i);
    } else if has_candidate(s2, m) {
        let i = candidate_idx(s2, m);
        assert(0 <= i < s2.len() && s2[i].membership_id == m);
        assert(s1[i].membership_id == m);
        assert(has_candidate(s1, m));
    }
}

/// Counts of one cycle agree whenever the records' cycles agree pointwise.
pub proof fn lemma_active_count_same_cycles(
    s1: Seq<CandidateRecord>,
    s2: Seq<CandidateRecord>,
    nr: u64,
)
    requires
        s1.len() == s2.len(),
        forall|i: int|
            0 <= i < s1.len() ==> s1[i].candidate.cycle_id == #[trigger] s2[i].candidate.cycle_id,
    ensures
        active_count(s1, nr) == active_count(s2, nr),
    decreases s1.len(),
{
    if s1.len() > 0 {
        lemma_active_count_same_cycles(s1.drop_last(), s2.drop_last(), nr);
        assert(s1.last().candidate.cycle_id == s2.last().candidate.cycle_id);
    }
}

/// The persisted state of the council core: stage, cycle counter, candidacy
/// registry, membership set and the budget ledger fields.
#[derive(Debug)]
pub struct CouncilState {
    pub stage_update: CouncilStageUpdate,
    pub announcement_period_nr: u64,
    pub candidates: Vec<CandidateRecord>,
    pub council_members: Vec<CouncilMember>,
    pub budget: u64,
    pub next_budget_refill: u64,
    pub next_reward_payments: u64,
}

/// The reward owed to member `m` at block `now`: the carried shortfall plus
/// the per-block reward for every block since its last payment.
pub open spec fn owed_of(m: CouncilMember, now: u64, per_block: u64) -> u64
    recommends
        m.last_payment_block <= now,
{
    crate::sat_add(m.unpaid_reward, crate::sat_mul(per_block, (now - m.last_payment_block) as u64))
}

/// One member paid from a budget: the updated member, the remaining budget
/// and the amount actually paid.  Payment never fails: a shortfall is carried
/// forward in `unpaid_reward`.
pub open spec fn pay_one(m: CouncilMember, budget: u64, now: u64, per_block: u64) -> (
    CouncilMember,
    u64,
    u64,
) {
    let owed = owed_of(m, now, per_block);
    let paid: u64 = if budget >= owed {
        owed
    } else {
        budget
    };
    (
        CouncilMember {
            last_payment_block: now,
            unpaid_reward: (owed - paid) as u64,
            ..m
        },
        (budget - paid) as u64,
        paid,
    )
}

/// Every member paid in order from a budget: the updated members and the
/// remaining budget.
pub open spec fn pay_members(ms: Seq<CouncilMember>, budget: u64, now: u64, per_block: u64) -> (
    Seq<CouncilMember>,
    u64,
)
    decreases ms.len(),
{
    if ms.len() == 0 {
        (ms, budget)
    } else {
        let step = pay_one(ms[0], budget, now, per_block);
        let rest = pay_members(ms.drop_first(), step.1, now, per_block);
        (seq![step.0] + rest.0, rest.1)
    }
}

/// The members' reward accounts are pairwise distinct.
pub open spec fn rewards_distinct(ms: Seq<CouncilMember>) -> bool {
    forall|i: int, j: int|
        0 <= i < j < ms.len() ==> ms[i].reward_account_id != ms[j].reward_account_id
}

/// Whether `x` is the reward account of one of the members.
pub open spec fn is_reward_account(ms: Seq<CouncilMember>, x: u64) -> bool {
    exists|j: int| 0 <= j < ms.len() && (#[trigger] ms[j]).reward_account_id == x
}

/// After a payment round every member is paid up to `now`.
pub proof fn lemma_pay_members_last(ms: Seq<CouncilMember>, budget: u64, now: u64, per_block: u64)
    ensures
        pay_members(ms, budget, now, per_block).0.len() == ms.len(),
        forall|j: int|
            0 <= j < ms.len() ==> #[trigger] pay_members(
                ms,
                budget,
                now,
                per_block,
            ).0[j].last_payment_block == now,
    decreases ms.len(),
{
    if ms.len() > 0 {
        let step = pay_one(ms[0], budget, now, per_block);
        lemma_pay_members_last(ms.drop_first(), step.1, now, per_block);
    }
}

/// Paying rewards never increases the budget.
pub proof fn lemma_pay_members_budget(ms: Seq<CouncilMember>, budget: u64, now: u64, per_block: u64)
    ensures
        pay_members(ms, budget, now, per_block).1 <= budget,
        pay_members(ms, budget, now, per_block).0.len() == ms.len(),
    decreases ms.len(),
{
    if ms.len() > 0 {
        let step = pay_one(ms[0], budget, now, per_block);
        lemma_pay_members_budget(ms.drop_first(), step.1, now, per_block);
    }
}

} // verus!
