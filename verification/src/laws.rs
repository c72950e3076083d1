//! The protocol-wide laws, proved from the operation contracts alone: the
//! stage cycle never skips or regresses, announcing extends rather than
//! fails, the stake floor is enforced, delivered results seat exactly the
//! winners while losers stay releasable, and reward payment never overdraws
//! the treasury and accounts for every shortfall.

use vstd::prelude::*;

use crate::balances::spec_free;
use crate::council::{
    has_candidate, is_active_candidate, lemma_pay_members_budget, owed_of, pay_members, pay_one,
    spec_candidate, CouncilMember, CouncilStage, CouncilStageAnnouncing, CouncilStageUpdate,
    Error,
};
use crate::referendum::{has_winner, winners_unique, OptionResult};
use crate::world::{results_delivered, stage_step_ok, OriginType, World};

verus! {

/// The successions the stage machine allows: staying in place, or moving
/// one step forward along Announcing -> Election -> Idle -> Announcing.
pub open spec fn stage_steps_forward(a: CouncilStage, b: CouncilStage) -> bool {
    match (a, b) {
        (CouncilStage::Announcing(_), CouncilStage::Announcing(_)) => true,
        (CouncilStage::Announcing(_), CouncilStage::Election(_)) => true,
        (CouncilStage::Election(_), CouncilStage::Election(_)) => true,
        (CouncilStage::Election(_), CouncilStage::Idle) => true,
        (CouncilStage::Idle, CouncilStage::Idle) => true,
        (CouncilStage::Idle, CouncilStage::Announcing(_)) => true,
        _ => false,
    }
}

/// A block-finalization tick only ever moves the stage forward along
/// Announcing -> Election -> Idle -> Announcing, never skipping a stage and
/// never regressing; the cycle counter grows exactly when a new announcing
/// stage is entered.
pub proof fn lemma_stage_transitions_forward(pre: World, post: World)
    requires
        stage_step_ok(pre, post),
    ensures
        stage_steps_forward(pre.council.stage_update.stage, post.council.stage_update.stage),
        post.council.stage_update.stage is Announcing && !(pre.council.stage_update.stage
            is Announcing) ==> post.council.announcement_period_nr
            == pre.council.announcement_period_nr + 1,
        !(pre.council.stage_update.stage is Idle) ==> post.council.announcement_period_nr
            == pre.council.announcement_period_nr,
{
}

/// When the announcing period elapses with fewer candidates than the floor,
/// the tick extends the announcing stage in place — same count, restarted
/// at the current block — rather than failing, and a candidacy can still be
/// announced afterwards: the extended stage never rejects one for its
/// stage, and accepts any entitled, unstaked, sufficiently funded member.
pub proof fn lemma_announcing_extends(
    pre: World,
    post: World,
    origin: OriginType,
    membership_id: u64,
    staking_account_id: u64,
    stake: u64,
)
    requires
        stage_step_ok(pre, post),
        pre.council.stage_update.stage matches CouncilStage::Announcing(a) && a.candidates_count
            < pre.settings.min_candidate_count,
        pre.block_number - pre.council.stage_update.changed_at
            >= pre.settings.announcing_stage_duration,
    ensures
        post.council.stage_update == (CouncilStageUpdate {
            stage: pre.council.stage_update.stage,
            changed_at: pre.block_number,
        }),
        post.announce_outcome(origin, membership_id, staking_account_id, stake) != Err::<
            (),
            Error,
        >(Error::NotAnnouncingStage),
        crate::world::origin_for_member(origin, membership_id) && !is_active_candidate(
            post.council.candidates@,
            membership_id,
            post.council.announcement_period_nr,
        ) && stake >= post.settings.min_candidate_stake && spec_free(
            post.balances.accounts@,
            staking_account_id,
        ) >= stake ==> post.announce_outcome(origin, membership_id, staking_account_id, stake)
            == Ok::<(), Error>(()),
{
}

/// The stake floor is enforced at announcement time: an entitled member
/// without an active candidacy who offers less than the minimum is refused
/// with exactly the stake error.  Together with
/// [`World::announce_candidacy`]'s contract, whose every failing outcome
/// leaves the state unchanged, a violating call changes no state.
pub proof fn lemma_candidacy_stake_floor(
    w: World,
    origin: OriginType,
    membership_id: u64,
    staking_account_id: u64,
    stake: u64,
)
    requires
        crate::world::origin_for_member(origin, membership_id),
        w.council.stage_update.stage is Announcing,
        !is_active_candidate(
            w.council.candidates@,
            membership_id,
            w.council.announcement_period_nr,
        ),
        stake < w.settings.min_candidate_stake,
    ensures
        w.announce_outcome(origin, membership_id, staking_account_id, stake) == Err::<
            (),
            Error,
        >(Error::CandidacyStakeTooLow),
{
}

/// Delivered results seat exactly one member per winning option — with a
/// full winner set, exactly `council_size` members — each mapped back from
/// a valid winning option of the cycle, in the winners' order; and every
/// non-winning candidate's record survives and is releasable at once.
pub proof fn lemma_results_install_council(pre: World, winners: Seq<OptionResult>, post: World)
    requires
        pre.wf(),
        winners_unique(winners),
        pre.winners_resolvable(winners),
        results_delivered(pre, winners, post),
    ensures
        post.council.council_members@.len() == winners.len(),
        forall|i: int|
            0 <= i < winners.len() ==> {
                &&& (#[trigger] post.council.council_members@[i]).membership_id == winners[
                    i].option_id
                &&& is_active_candidate(
                    pre.council.candidates@,
                    winners[i].option_id,
                    pre.council.announcement_period_nr,
                )
                &&& post.council.council_members@[i].stake == spec_candidate(
                    pre.council.candidates@,
                    winners[i].option_id,
                ).stake
            },
        forall|m: u64|
            has_candidate(pre.council.candidates@, m) && !has_winner(winners, m) ==> {
                &&& #[trigger] has_candidate(post.council.candidates@, m)
                &&& post.release_outcome(OriginType::Signed(m), m) == Ok::<(), Error>(())
            },
{
    assert forall|m: u64|
        has_candidate(pre.council.candidates@, m) && !has_winner(winners, m) implies {
        &&& #[trigger] has_candidate(post.council.candidates@, m)
        &&& post.release_outcome(OriginType::Signed(m), m) == Ok::<(), Error>(())
    } by {
        assert(has_candidate(post.council.candidates@, m));
        assert(post.council.stage_update.stage is Idle);
    }
}

/// Reward payment is exact backpressure: a member is paid the whole amount
/// owed when the treasury covers it, clearing the shortfall; otherwise it
/// is paid the entire remaining treasury, and the recorded shortfall equals
/// exactly the unpaid difference.  The treasury is never overdrawn: what is
/// paid never exceeds the budget.
pub proof fn lemma_reward_backpressure(m: CouncilMember, budget: u64, now: u64, per_block: u64)
    ensures
        ({
            let paid = pay_one(m, budget, now, per_block).2;
            let remaining = pay_one(m, budget, now, per_block).1;
            let updated = pay_one(m, budget, now, per_block).0;
            let owed = owed_of(m, now, per_block);
            &&& paid <= budget
            &&& remaining == budget - paid
            &&& budget >= owed ==> paid == owed && updated.unpaid_reward == 0
            &&& budget < owed ==> paid == budget && remaining == 0 && updated.unpaid_reward == owed
                - budget
            &&& updated.unpaid_reward == owed - paid
            &&& updated.last_payment_block == now
        }),
{
}

/// Over a whole payment round the treasury only decreases — being
/// unsigned, it never goes negative — and no member is removed by a
/// payment, however short the funds run.
pub proof fn lemma_reward_round_never_overdraws(
    ms: Seq<CouncilMember>,
    budget: u64,
    now: u64,
    per_block: u64,
)
    ensures
        pay_members(ms, budget, now, per_block).1 <= budget,
        pay_members(ms, budget, now, per_block).0.len() == ms.len(),
{
    lemma_pay_members_budget(ms, budget, now, per_block);
}

/// A member that withdraws its candidacy during announcing may announce
/// again within the same announcing stage: starting from the state
/// [`World::withdraw_candidacy`]'s contract describes, a fresh announcement
/// by the same member is accepted whenever the member can still fund the
/// stake — and [`World::announce_candidacy`]'s contract then gives it a
/// fresh record with a zero vote power.
pub proof fn lemma_withdraw_then_reannounce(
    w0: World,
    w1: World,
    origin: OriginType,
    membership_id: u64,
    stake: u64,
)
    requires
        w0.withdraw_outcome(origin, membership_id) == Ok::<(), Error>(()),
        // What the withdrawal's contract guarantees of the state it leaves:
        !has_candidate(w1.council.candidates@, membership_id),
        (match w0.council.stage_update.stage {
            CouncilStage::Announcing(a) => w1.council.stage_update == (CouncilStageUpdate {
                stage: CouncilStage::Announcing(CouncilStageAnnouncing {
                    candidates_count: (a.candidates_count - 1) as u64,
                }),
                changed_at: w0.council.stage_update.changed_at,
            }),
            _ => false,
        }),
        w1.council.announcement_period_nr == w0.council.announcement_period_nr,
        w1.settings == w0.settings,
        // The member can still fund the stake:
        stake >= w1.settings.min_candidate_stake,
        spec_free(w1.balances.accounts@, membership_id) >= stake,
    ensures
        w1.announce_outcome(origin, membership_id, membership_id, stake) == Ok::<(), Error>(()),
{
    assert(crate::world::origin_for_member(origin, membership_id));
    assert(w1.council.stage_update.stage is Announcing);
}

} // verus!
