//! The council protocol's full state and every operation on it: the user
//! calls of the candidacy registry and budget ledger, the referendum's vote
//! and reveal calls, the connection between the two modules, and the
//! block-finalization tick that drives the stage state machine.
//!
//! All storage is held in one [`World`] value passed explicitly to every
//! operation, so the core runs without an ambient runtime host.

use vstd::prelude::*;

use crate::balances::{spec_free, spec_lock, AccountRecord, Balances, LockId};
use crate::council::{
    active_count, candidates_wf, event_eq, has_candidate, is_active_candidate,
    lemma_active_count_le_len, lemma_active_count_none, lemma_active_count_pos,
    lemma_active_count_push, lemma_active_count_remove, lemma_active_count_same_cycles,
    lemma_candidate_idx, lemma_same_candidate_ids, member_of, owed_of, pay_members, pay_one,
    rewards_distinct,
    spec_candidate, candidate_idx, Candidate, CandidateRecord, CouncilMember, CouncilStage,
    CouncilStageAnnouncing, CouncilStageElection, CouncilStageUpdate, CouncilState, Error,
    RawEvent,
};
use crate::referendum::{
    has_vote, has_winner, lemma_vote_idx, lemma_winner_idx, spec_vote, spec_vote_power,
    spec_winner_power, update_winner, vote_idx, votes_wf, winner_idx, winners_sorted,
    winners_unique, CastVote, OptionResult, ReferendumError, ReferendumStage,
    ReferendumStageRevealing, ReferendumStageVoting, ReferendumState,
};
use crate::settings::CouncilSettings;

verus! {

/// The origin a call is made under.
#[derive(Clone, Copy, PartialEq, Eq, Structural, Debug)]
pub enum OriginType {
    /// Signed by the given account.
    Signed(u64),
    /// The privileged (root) origin.
    Root,
}

/// Whether `origin` is entitled to act for member `membership_id`: it must
/// be signed by the member's own account.
pub open spec fn origin_for_member(origin: OriginType, membership_id: u64) -> bool {
    origin == OriginType::Signed(membership_id)
}

/// The candidacy registry after a delivery: the winners' records are gone,
/// everything else is untouched.
pub open spec fn winners_removed(
    pre_cands: Seq<CandidateRecord>,
    winners: Seq<OptionResult>,
    post_cands: Seq<CandidateRecord>,
) -> bool {
    &&& post_cands.len() == pre_cands.len() - winners.len()
    &&& forall|m: u64|
        #[trigger] has_candidate(post_cands, m) == (has_candidate(pre_cands, m) && !has_winner(
            winners,
            m,
        ))
    &&& forall|m: u64|
        has_candidate(post_cands, m) ==> #[trigger] spec_candidate(post_cands, m)
            == spec_candidate(pre_cands, m)
}

/// The ledger after a delivery: each winner's stake has moved from the
/// candidacy lock to the councilor lock (stated per winner when the winners'
/// staking accounts are pairwise distinct), and no other lock moved.
pub open spec fn winner_locks_moved(
    pre_cands: Seq<CandidateRecord>,
    winners: Seq<OptionResult>,
    pre_bal: Seq<AccountRecord>,
    post_bal: Seq<AccountRecord>,
) -> bool {
    &&& forall|x: u64, l: LockId|
        !World::winner_staking_prefix(pre_cands, winners, winners.len() as int, x)
            ==> #[trigger] spec_lock(post_bal, x, l) == spec_lock(pre_bal, x, l)
    &&& (World::winners_distinct_staking(pre_cands, winners) ==> forall|i: int|
        0 <= i < winners.len() ==> {
            let acct = spec_candidate(
                pre_cands,
                (#[trigger] winners[i]).option_id,
            ).staking_account_id;
            &&& spec_lock(post_bal, acct, LockId::Candidacy) == 0
            &&& spec_lock(post_bal, acct, LockId::Councilor) == spec_candidate(
                pre_cands,
                winners[i].option_id,
            ).stake
        })
}

/// The state after the referendum delivers `winners` to the council in
/// state `pre`: the members installed from the winners' candidacies, the
/// protocol idle, the winners' records gone and their stakes re-locked.
pub open spec fn results_delivered(pre: World, winners: Seq<OptionResult>, post: World) -> bool {
    &&& post.council.council_members@ == Seq::new(
        winners.len(),
        |i: int|
            member_of(
                spec_candidate(pre.council.candidates@, winners[i].option_id),
                winners[i].option_id,
                pre.block_number,
            ),
    )
    &&& post.council.stage_update == (CouncilStageUpdate {
        stage: CouncilStage::Idle,
        changed_at: pre.block_number,
    })
    &&& post.referendum.stage is Inactive
    &&& post.referendum.votes == pre.referendum.votes
    &&& winners_removed(pre.council.candidates@, winners, post.council.candidates@)
    &&& forall|x: u64|
        #[trigger] spec_free(post.balances.accounts@, x) == spec_free(pre.balances.accounts@, x)
    &&& winner_locks_moved(
        pre.council.candidates@,
        winners,
        pre.balances.accounts@,
        post.balances.accounts@,
    )
    &&& post.council.announcement_period_nr == pre.council.announcement_period_nr
    &&& post.council.budget == pre.council.budget
    &&& post.council.next_budget_refill == pre.council.next_budget_refill
    &&& post.council.next_reward_payments == crate::sat_add(
        pre.block_number,
        pre.settings.elected_member_reward_period,
    )
    &&& post.events == pre.events
    &&& post.same_infra(pre)
}

/// The winners a revealing stage delivers when it elapses: the first
/// `winning_target_count` entries of the intermediate winners list.
pub open spec fn winners_prefix(rv: ReferendumStageRevealing) -> Seq<OptionResult> {
    if rv.winning_target_count < rv.intermediate_winners@.len() {
        rv.intermediate_winners@.subrange(0, rv.winning_target_count as int)
    } else {
        rv.intermediate_winners@
    }
}

/// Whether the tick at `pre` ends the revealing stage and delivers results.
pub open spec fn delivery_due(pre: World) -> bool {
    pre.referendum.stage matches ReferendumStage::Revealing(rv) && pre.block_number - rv.started
        >= pre.settings.reveal_stage_duration
}

/// The winners a due delivery hands over.
pub open spec fn due_winners(pre: World) -> Seq<OptionResult> {
    winners_prefix(pre.referendum.stage->Revealing_0)
}

/// The membership set right after the stage part of a tick: the installed
/// winners when a delivery is due, the seated members otherwise.
pub open spec fn mid_members(pre: World) -> Seq<CouncilMember> {
    if delivery_due(pre) {
        Seq::new(
            due_winners(pre).len(),
            |i: int|
                member_of(
                    spec_candidate(pre.council.candidates@, due_winners(pre)[i].option_id),
                    due_winners(pre)[i].option_id,
                    pre.block_number,
                ),
        )
    } else {
        pre.council.council_members@
    }
}

/// The treasury after the refill part of a tick.
pub open spec fn refilled_budget(pre: World) -> u64 {
    if pre.block_number >= pre.council.next_budget_refill {
        crate::sat_add(pre.council.budget, pre.settings.budget_refill_amount)
    } else {
        pre.council.budget
    }
}

/// Whether the tick at `pre` runs a reward payment round.
pub open spec fn reward_due(pre: World) -> bool {
    pre.block_number >= pre.council.next_reward_payments
}

/// How one block-finalization tick advances the stage state machine: the
/// only transitions are Announcing to Election (when the period elapsed with
/// enough candidates; the referendum starts), Announcing extended in place
/// (too few candidates), Election to Idle (delivered by the referendum when
/// revealing elapses), and Idle to Announcing (incrementing the cycle
/// counter) — never skipping or regressing.
pub open spec fn stage_step_ok(pre: World, post: World) -> bool {
    let now = pre.block_number;
    let su = pre.council.stage_update;
    let nr = pre.council.announcement_period_nr;
    match su.stage {
        CouncilStage::Announcing(a) => {
            if now - su.changed_at >= pre.settings.announcing_stage_duration {
                if a.candidates_count >= pre.settings.min_candidate_count {
                    &&& post.council.stage_update == (CouncilStageUpdate {
                        stage: CouncilStage::Election(CouncilStageElection {
                            candidates_count: a.candidates_count,
                        }),
                        changed_at: now,
                    })
                    &&& post.council.announcement_period_nr == nr
                    &&& post.referendum.stage == (ReferendumStage::Voting(ReferendumStageVoting {
                        started: now,
                        winning_target_count: pre.settings.council_size,
                        current_cycle_id: nr,
                    }))
                } else {
                    &&& post.council.stage_update == (CouncilStageUpdate {
                        stage: su.stage,
                        changed_at: now,
                    })
                    &&& post.council.announcement_period_nr == nr
                    &&& post.referendum.stage is Inactive
                }
            } else {
                &&& post.council.stage_update == su
                &&& post.council.announcement_period_nr == nr
                &&& post.referendum.stage is Inactive
            }
        },
        CouncilStage::Election(_) => {
            match pre.referendum.stage {
                ReferendumStage::Inactive => {
                    &&& post.council.stage_update == su
                    &&& post.council.announcement_period_nr == nr
                    &&& post.referendum.stage is Inactive
                },
                ReferendumStage::Voting(v) => {
                    if now - v.started >= pre.settings.voting_stage_duration {
                        &&& post.council.stage_update == su
                        &&& post.council.announcement_period_nr == nr
                        &&& (post.referendum.stage matches ReferendumStage::Revealing(r) && {
                            &&& r.started == now
                            &&& r.winning_target_count == v.winning_target_count
                            &&& r.current_cycle_id == v.current_cycle_id
                            &&& r.intermediate_winners@.len() == 0
                        })
                    } else {
                        &&& post.council.stage_update == su
                        &&& post.council.announcement_period_nr == nr
                        &&& post.referendum.stage == pre.referendum.stage
                    }
                },
                ReferendumStage::Revealing(rv) => {
                    if now - rv.started >= pre.settings.reveal_stage_duration {
                        &&& post.council.stage_update == (CouncilStageUpdate {
                            stage: CouncilStage::Idle,
                            changed_at: now,
                        })
                        &&& post.council.announcement_period_nr == nr
                        &&& post.referendum.stage is Inactive
                    } else {
                        &&& post.council.stage_update == su
                        &&& post.council.announcement_period_nr == nr
                        &&& post.referendum.stage == pre.referendum.stage
                    }
                },
            }
        },
        CouncilStage::Idle => {
            if now - su.changed_at >= pre.settings.idle_stage_duration {
                &&& post.council.stage_update == (CouncilStageUpdate {
                    stage: CouncilStage::Announcing(CouncilStageAnnouncing { candidates_count: 0 }),
                    changed_at: now,
                })
                &&& post.council.announcement_period_nr == nr + 1
                &&& post.referendum.stage is Inactive
            } else {
                &&& post.council.stage_update == su
                &&& post.council.announcement_period_nr == nr
                &&& post.referendum.stage is Inactive
            }
        },
    }
}

/// Everything one block-finalization tick does to the state, at unchanged
/// block height: the stage step, the delivery effects when one is due, and
/// the refill and reward-round equations, including what each distinct
/// reward account is credited.
pub open spec fn tick_effects(pre: World, post: World) -> bool {
    &&& post.block_number == pre.block_number
    &&& stage_step_ok(pre, post)
    &&& (delivery_due(pre) ==> winners_removed(
        pre.council.candidates@,
        due_winners(pre),
        post.council.candidates@,
    ) && winner_locks_moved(
        pre.council.candidates@,
        due_winners(pre),
        pre.balances.accounts@,
        post.balances.accounts@,
    ))
    &&& (!delivery_due(pre) ==> post.council.candidates == pre.council.candidates && forall|
        x: u64,
        l: LockId,
    |
        #[trigger] spec_lock(post.balances.accounts@, x, l) == spec_lock(
            pre.balances.accounts@,
            x,
            l,
        ))
    &&& post.council.council_members@ == (if reward_due(pre) && !delivery_due(pre) {
        pay_members(
            mid_members(pre),
            refilled_budget(pre),
            pre.block_number,
            pre.settings.elected_member_reward_per_block,
        ).0
    } else {
        mid_members(pre)
    })
    &&& post.council.budget == (if reward_due(pre) && !delivery_due(pre) {
        pay_members(
            mid_members(pre),
            refilled_budget(pre),
            pre.block_number,
            pre.settings.elected_member_reward_per_block,
        ).1
    } else {
        refilled_budget(pre)
    })
    &&& post.council.next_budget_refill == (if pre.block_number
        >= pre.council.next_budget_refill {
        crate::sat_add(pre.council.next_budget_refill, pre.settings.budget_refill_period)
    } else {
        pre.council.next_budget_refill
    })
    &&& post.council.next_reward_payments == (if reward_due(pre) || delivery_due(pre) {
        crate::sat_add(pre.block_number, pre.settings.elected_member_reward_period)
    } else {
        pre.council.next_reward_payments
    })
    &&& forall|x: u64|
        !crate::council::is_reward_account(mid_members(pre), x) ==> #[trigger] spec_free(
            post.balances.accounts@,
            x,
        ) == spec_free(pre.balances.accounts@, x)
    &&& (!(reward_due(pre) && !delivery_due(pre)) ==> forall|x: u64|
        #[trigger] spec_free(post.balances.accounts@, x) == spec_free(pre.balances.accounts@, x))
    &&& (reward_due(pre) && !delivery_due(pre) && crate::council::rewards_distinct(
        mid_members(pre),
    ) ==> forall|j: int|
        0 <= j < mid_members(pre).len() ==> #[trigger] spec_free(
            post.balances.accounts@,
            mid_members(pre)[j].reward_account_id,
        ) == crate::sat_add(
            spec_free(pre.balances.accounts@, mid_members(pre)[j].reward_account_id),
            (owed_of(
                mid_members(pre)[j],
                pre.block_number,
                pre.settings.elected_member_reward_per_block,
            ) - pay_members(
                mid_members(pre),
                refilled_budget(pre),
                pre.block_number,
                pre.settings.elected_member_reward_per_block,
            ).0[j].unpaid_reward) as u64,
        ))
    &&& (!delivery_due(pre) && (!reward_due(pre) || mid_members(pre).len() == 0)
        ==> post.balances == pre.balances)
    &&& post.referendum.votes == pre.referendum.votes
    &&& post.events == pre.events
    &&& post.same_infra(pre)
}

/// One finalized block: the tick's effects, then the block height raised by
/// one.
pub open spec fn finalized_tick(pre: World, post: World) -> bool {
    &&& post.block_number == pre.block_number + 1
    &&& tick_effects(
        pre,
        World {
            block_number: pre.block_number,
            ..post
        },
    )
}

/// `steps` witnesses that `post` is reached from `pre` by `n` finalized
/// blocks in order.
pub open spec fn chain_of_ticks(steps: Seq<World>, pre: World, post: World, n: u64) -> bool {
    &&& steps.len() == n + 1
    &&& steps[0] == pre
    &&& steps[n as int] == post
    &&& forall|i: int| 0 <= i < n ==> #[trigger] finalized_tick(steps[i], steps[i + 1])
}

/// `post` is exactly what `n` successive finalized blocks make of `pre`:
/// each consecutive pair of states is one tick's effects plus the block
/// increment, so every stage transition, refill and reward round along the
/// way is accounted for.
pub open spec fn advances_by_ticks(pre: World, post: World, n: u64) -> bool {
    exists|steps: Seq<World>| chain_of_ticks(steps, pre, post, n)
}

/// The whole protocol state: configuration, block height, the council core,
/// the referendum engine, the account ledger, the emitted notifications, and
/// the two feature switches the test harness flips.
#[derive(Debug)]
pub struct World {
    pub settings: CouncilSettings,
    pub block_number: u64,
    pub council: CouncilState,
    pub referendum: ReferendumState,
    pub balances: Balances,
    pub events: Vec<RawEvent>,
    /// When cleared, every vote-stake release is vetoed.
    pub is_unstake_enabled: bool,
    /// When cleared, every option id is reported invalid to the referendum.
    pub is_option_id_valid: bool,
}

impl World {
    /// The protocol invariant: unique registries, stage counters in step
    /// with the registry, the referendum synchronized with the council, and
    /// every recorded block height at or below the current one.
    pub open spec fn wf(self) -> bool {
        &&& self.settings.wf()
        &&& self.balances.wf()
        &&& candidates_wf(self.council.candidates@)
        &&& votes_wf(self.referendum.votes@)
        &&& self.council.stage_update.changed_at <= self.block_number
        &&& forall|i: int|
            0 <= i < self.council.candidates@.len()
                ==> #[trigger] self.council.candidates@[i].candidate.cycle_id
                <= self.council.announcement_period_nr
        &&& forall|i: int|
            0 <= i < self.council.council_members@.len()
                ==> #[trigger] self.council.council_members@[i].last_payment_block
                <= self.block_number
        &&& match self.council.stage_update.stage {
            CouncilStage::Announcing(a) => a.candidates_count == active_count(
                self.council.candidates@,
                self.council.announcement_period_nr,
            ),
            CouncilStage::Election(e) => e.candidates_count == active_count(
                self.council.candidates@,
                self.council.announcement_period_nr,
            ),
            CouncilStage::Idle => true,
        }
        &&& match self.referendum.stage {
            ReferendumStage::Inactive => true,
            ReferendumStage::Voting(v) => {
                &&& self.council.stage_update.stage is Election
                &&& v.current_cycle_id == self.council.announcement_period_nr
                &&& v.started <= self.block_number
                &&& v.winning_target_count == self.settings.council_size
            },
            ReferendumStage::Revealing(r) => {
                &&& self.council.stage_update.stage is Election
                &&& r.current_cycle_id == self.council.announcement_period_nr
                &&& r.started <= self.block_number
                &&& r.winning_target_count == self.settings.council_size
                &&& winners_sorted(r.intermediate_winners@)
                &&& winners_unique(r.intermediate_winners@)
                &&& forall|i: int|
                    0 <= i < r.intermediate_winners@.len() ==> is_active_candidate(
                        self.council.candidates@,
                        (#[trigger] r.intermediate_winners@[i]).option_id,
                        self.council.announcement_period_nr,
                    ) && spec_candidate(
                        self.council.candidates@,
                        r.intermediate_winners@[i].option_id,
                    ).vote_power == r.intermediate_winners@[i].vote_power
            },
        }
    }

    /// Fields no council or referendum operation touches.
    pub open spec fn same_infra(self, o: World) -> bool {
        &&& self.settings == o.settings
        &&& self.block_number == o.block_number
        &&& self.is_unstake_enabled == o.is_unstake_enabled
        &&& self.is_option_id_valid == o.is_option_id_valid
    }

    /// The last emitted notification equals `e`.
    pub open spec fn last_event_is(self, e: RawEvent) -> bool {
        self.events@.len() > 0 && event_eq(self.events@.last(), e)
    }

    /// Whether the member may still vote-query as a candidate: the council's
    /// answer to the referendum's validity query, before the feature switch.
    pub open spec fn spec_is_valid_candidate_id(self, option_id: u64) -> bool {
        is_active_candidate(
            self.council.candidates@,
            option_id,
            self.council.announcement_period_nr,
        )
    }

    /// The canonical vote tally of an option: the vote power stored on its
    /// candidacy record — the single source of truth, read with no cycle
    /// filter, so a record kept from an earlier cycle still answers with
    /// its stored tally; zero only for an unknown option.
    pub open spec fn spec_option_power(self, option_id: u64) -> u64 {
        if has_candidate(self.council.candidates@, option_id) {
            spec_candidate(self.council.candidates@, option_id).vote_power
        } else {
            0
        }
    }

    /// Whether the council lets a vote's stake go: only once the cycle the
    /// vote was cast in is resolved (a later cycle has begun, or the current
    /// one is idle).
    pub open spec fn spec_can_unlock_vote_stake(self, vote_cycle_id: u64) -> bool {
        vote_cycle_id != self.council.announcement_period_nr
            || self.council.stage_update.stage is Idle
    }

    /// The position of member `m`'s candidacy record, if any.
    pub fn find_candidate_index(&self, membership_id: u64) -> (r: Option<usize>)
        ensures
            match r {
                Some(i) => i < self.council.candidates@.len()
                    && self.council.candidates@[i as int].membership_id == membership_id,
                None => !has_candidate(self.council.candidates@, membership_id),
            },
    {
        self.find_candidate(membership_id)
    }

    /// The position of member `m`'s candidacy record, if any.
    fn find_candidate(&self, membership_id: u64) -> (r: Option<usize>)
        ensures
            match r {
                Some(i) => i < self.council.candidates@.len()
                    && self.council.candidates@[i as int].membership_id == membership_id,
                None => !has_candidate(self.council.candidates@, membership_id),
            },
    {
        let n = self.council.candidates.len();
        let mut i: usize = 0;
        while i < n
            invariant
                i <= n,
                n == self.council.candidates@.len(),
                forall|j: int|
                    0 <= j < i ==> self.council.candidates@[j].membership_id != membership_id,
            decreases n - i,
        {
            if self.council.candidates[i].membership_id == membership_id {
                return Some(i);
            }
            i = i + 1;
        }
        assert(!has_candidate(self.council.candidates@, membership_id)) by {
            if has_candidate(self.council.candidates@, membership_id) {
                let k = candidate_idx(self.council.candidates@, membership_id);
                assert(0 <= k < self.council.candidates@.len());
            }
        }
        None
    }

    /// The position of account `a`'s cast vote, if any.
    fn find_vote(&self, account_id: u64) -> (r: Option<usize>)
        ensures
            match r {
                Some(i) => i < self.referendum.votes@.len()
                    && self.referendum.votes@[i as int].account_id == account_id,
                None => !has_vote(self.referendum.votes@, account_id),
            },
    {
        let n = self.referendum.votes.len();
        let mut i: usize = 0;
        while i < n
            invariant
                i <= n,
                n == self.referendum.votes@.len(),
                forall|j: int| 0 <= j < i ==> self.referendum.votes@[j].account_id != account_id,
            decreases n - i,
        {
            if self.referendum.votes[i].account_id == account_id {
                return Some(i);
            }
            i = i + 1;
        }
        assert(!has_vote(self.referendum.votes@, account_id)) by {
            if has_vote(self.referendum.votes@, account_id) {
                let k = vote_idx(self.referendum.votes@, account_id);
                assert(0 <= k < self.referendum.votes@.len());
            }
        }
        None
    }

    /// Answers the referendum's validity query for an option id, before the
    /// feature switch: an option is valid exactly while it is an active
    /// candidate, so a withdrawn candidacy cannot be voted for.
    pub fn is_valid_candidate_id(&self, option_id: u64) -> (r: bool)
        requires
            self.wf(),
        ensures
            r == self.spec_is_valid_candidate_id(option_id),
    {
        match self.find_candidate(option_id) {
            Some(i) => {
                proof {
                    lemma_candidate_idx(self.council.candidates@, option_id, i as int);
                }
                self.council.candidates[i].candidate.cycle_id
                    == self.council.announcement_period_nr
            }
            None => false,
        }
    }

    /// The canonical running tally of an option, kept on the candidate
    /// record itself and read with no cycle filter.
    pub fn get_option_power(&self, option_id: u64) -> (r: u64)
        requires
            self.wf(),
        ensures
            r == self.spec_option_power(option_id),
    {
        match self.find_candidate(option_id) {
            Some(i) => {
                proof {
                    lemma_candidate_idx(self.council.candidates@, option_id, i as int);
                }
                self.council.candidates[i].candidate.vote_power
            }
            None => 0,
        }
    }

    /// Sets the treasury to `amount`.  Only the privileged origin may; a
    /// failing call changes nothing.
    pub fn set_budget(&mut self, origin: OriginType, amount: u64) -> (r: Result<(), Error>)
        requires
            old(self).wf(),
        ensures
            final(self).wf(),
            r == if origin is Root {
                Ok::<(), Error>(())
            } else {
                Err::<(), Error>(Error::BadOrigin)
            },
            r is Err ==> *final(self) == *old(self),
            r is Ok ==> {
                &&& final(self).council.budget == amount
                &&& final(self).council == (CouncilState {
                    budget: amount,
                    ..old(self).council
                })
                &&& final(self).events@ == old(self).events@.push(
                    RawEvent::BudgetBalanceSet(amount),
                )
                &&& final(self).same_infra(*old(self))
                &&& final(self).referendum == old(self).referendum
                &&& final(self).balances == old(self).balances
            },
    {
        match origin {
            OriginType::Root => {
                self.council.budget = amount;
                self.events.push(RawEvent::BudgetBalanceSet(amount));
                Ok(())
            }
            OriginType::Signed(_) => Err(Error::BadOrigin),
        }
    }

    /// Plans the next budget refill for block `next_refill`.  Only the
    /// privileged origin may; a failing call changes nothing.
    pub fn plan_budget_refill(&mut self, origin: OriginType, next_refill: u64) -> (r: Result<
        (),
        Error,
    >)
        requires
            old(self).wf(),
        ensures
            final(self).wf(),
            r == if origin is Root {
                Ok::<(), Error>(())
            } else {
                Err::<(), Error>(Error::BadOrigin)
            },
            r is Err ==> *final(self) == *old(self),
            r is Ok ==> {
                &&& final(self).council.next_budget_refill == next_refill
                &&& final(self).council == (CouncilState {
                    next_budget_refill: next_refill,
                    ..old(self).council
                })
                &&& final(self).events@ == old(self).events@.push(
                    RawEvent::BudgetRefillPlanned(next_refill),
                )
                &&& final(self).same_infra(*old(self))
                &&& final(self).referendum == old(self).referendum
                &&& final(self).balances == old(self).balances
            },
    {
        match origin {
            OriginType::Root => {
                self.council.next_budget_refill = next_refill;
                self.events.push(RawEvent::BudgetRefillPlanned(next_refill));
                Ok(())
            }
            OriginType::Signed(_) => Err(Error::BadOrigin),
        }
    }

    /// The result [`World::announce_candidacy`] returns, as a function of the
    /// state it is called in.
    pub open spec fn announce_outcome(
        self,
        origin: OriginType,
        membership_id: u64,
        staking_account_id: u64,
        stake: u64,
    ) -> Result<(), Error> {
        if !origin_for_member(origin, membership_id) {
            Err(Error::BadOrigin)
        } else if !(self.council.stage_update.stage is Announcing) {
            Err(Error::NotAnnouncingStage)
        } else if is_active_candidate(
            self.council.candidates@,
            membership_id,
            self.council.announcement_period_nr,
        ) {
            Err(Error::MemberAlreadyCandidating)
        } else if stake < self.settings.min_candidate_stake {
            Err(Error::CandidacyStakeTooLow)
        } else if spec_free(self.balances.accounts@, staking_account_id) < stake {
            Err(Error::AccountInsufficientBalance)
        } else {
            Ok(())
        }
    }

    /// Declares a candidacy: allowed only during announcing, once per member
    /// and cycle, with at least the minimum stake, which is locked on the
    /// staking account.  A failing call changes nothing.
    pub fn announce_candidacy(
        &mut self,
        origin: OriginType,
        membership_id: u64,
        staking_account_id: u64,
        reward_account_id: u64,
        stake: u64,
    ) -> (r: Result<(), Error>)
        requires
            old(self).wf(),
            old(self).council.candidates@.len() < u64::MAX,
        ensures
            final(self).wf(),
            r == old(self).announce_outcome(origin, membership_id, staking_account_id, stake),
            r is Err ==> *final(self) == *old(self),
            r is Ok ==> {
                &&& final(self).council.candidates@.len() <= old(self).council.candidates@.len()
                    + 1
                &&& is_active_candidate(
                    final(self).council.candidates@,
                    membership_id,
                    old(self).council.announcement_period_nr,
                )
                &&& spec_candidate(final(self).council.candidates@, membership_id)
                    == (Candidate {
                    staking_account_id,
                    reward_account_id,
                    cycle_id: old(self).council.announcement_period_nr,
                    stake,
                    vote_power: 0u64,
                    note_hash: None,
                })
                &&& forall|m: u64|
                    m != membership_id ==> #[trigger] has_candidate(
                        final(self).council.candidates@,
                        m,
                    ) == has_candidate(old(self).council.candidates@, m)
                &&& forall|m: u64|
                    m != membership_id && has_candidate(old(self).council.candidates@, m)
                        ==> #[trigger] spec_candidate(final(self).council.candidates@, m)
                        == spec_candidate(old(self).council.candidates@, m)
                &&& (match old(self).council.stage_update.stage {
                    CouncilStage::Announcing(a) => final(self).council.stage_update
                        == (CouncilStageUpdate {
                        stage: CouncilStage::Announcing(CouncilStageAnnouncing {
                            candidates_count: (a.candidates_count + 1) as u64,
                        }),
                        changed_at: old(self).council.stage_update.changed_at,
                    }),
                    _ => false,
                })
                &&& final(self).council.announcement_period_nr
                    == old(self).council.announcement_period_nr
                &&& final(self).council.council_members == old(self).council.council_members
                &&& final(self).council.budget == old(self).council.budget
                &&& final(self).council.next_budget_refill == old(self).council.next_budget_refill
                &&& final(self).council.next_reward_payments
                    == old(self).council.next_reward_payments
                &&& final(self).referendum == old(self).referendum
                &&& spec_lock(final(self).balances.accounts@, staking_account_id, LockId::Candidacy)
                    == stake
                &&& forall|a: u64, l: LockId|
                    !(a == staking_account_id && l == LockId::Candidacy)
                        ==> #[trigger] spec_lock(final(self).balances.accounts@, a, l) == spec_lock(
                        old(self).balances.accounts@,
                        a,
                        l,
                    )
                &&& forall|a: u64|
                    #[trigger] spec_free(final(self).balances.accounts@, a) == spec_free(
                        old(self).balances.accounts@,
                        a,
                    )
                &&& final(self).events@ == old(self).events@.push(
                    RawEvent::NewCandidate(membership_id, stake),
                )
                &&& final(self).same_infra(*old(self))
            },
    {
        let ghost w0 = *self;
        let ghost nr = self.council.announcement_period_nr;
        let authorized = match origin {
            OriginType::Signed(a) => a == membership_id,
            OriginType::Root => false,
        };
        if !authorized {
            return Err(Error::BadOrigin);
        }
        let count = match self.council.stage_update.stage {
            CouncilStage::Announcing(a) => a.candidates_count,
            _ => {
                return Err(Error::NotAnnouncingStage);
            }
        };
        let idx = self.find_candidate(membership_id);
        match idx {
            Some(i) => {
                proof {
                    lemma_candidate_idx(self.council.candidates@, membership_id, i as int);
                }
                if self.council.candidates[i].candidate.cycle_id
                    == self.council.announcement_period_nr {
                    return Err(Error::MemberAlreadyCandidating);
                }
            }
            None => {}
        }
        if stake < self.settings.min_candidate_stake {
            return Err(Error::CandidacyStakeTooLow);
        }
        if self.balances.free_balance(staking_account_id) < stake {
            return Err(Error::AccountInsufficientBalance);
        }
        proof {
            lemma_active_count_le_len(self.council.candidates@, nr);
        }
        self.balances.set_lock(staking_account_id, LockId::Candidacy, stake);
        let cand = Candidate {
            staking_account_id,
            reward_account_id,
            cycle_id: self.council.announcement_period_nr,
            stake,
            vote_power: 0,
            note_hash: None,
        };
        let ghost cands0 = self.council.candidates@;
        crate::registry::upsert_candidate(&mut self.council.candidates, membership_id, cand);
        proof {
            let cands1 = self.council.candidates@;
            if has_candidate(cands0, membership_id) {
                let k = candidate_idx(cands0, membership_id);
                assert(0 <= k < cands0.len() && cands0[k].membership_id == membership_id);
                assert(cands0[k].candidate.cycle_id != nr);
                let rec = CandidateRecord { membership_id, candidate: cand };
                assert(cands1 == cands0.update(k, rec));
                lemma_active_count_remove(cands0, nr, k);
                lemma_active_count_remove(cands1, nr, k);
                assert(cands1.remove(k) =~= cands0.remove(k));
                assert(active_count(cands1, nr) == active_count(cands0, nr) + 1);
                assert(forall|j: int|
                    0 <= j < cands1.len() ==> (#[trigger] cands1[j]) == if j == k {
                        rec
                    } else {
                        cands0[j]
                    });
            } else {
                lemma_active_count_push(cands0, nr, CandidateRecord { membership_id, candidate: cand });
                assert(active_count(cands1, nr) == active_count(cands0, nr) + 1);
            }
            assert(self.referendum.stage is Inactive) by {
                match w0.referendum.stage {
                    ReferendumStage::Inactive => {}
                    ReferendumStage::Voting(_) => {
                        assert(w0.council.stage_update.stage is Election);
                    }
                    ReferendumStage::Revealing(_) => {
                        assert(w0.council.stage_update.stage is Election);
                    }
                }
            }
        }
        self.council.stage_update.stage = CouncilStage::Announcing(CouncilStageAnnouncing {
            candidates_count: count + 1,
        });
        self.events.push(RawEvent::NewCandidate(membership_id, stake));
        Ok(())
    }

    /// The result [`World::withdraw_candidacy`] returns, as a function of
    /// the state it is called in.
    pub open spec fn withdraw_outcome(self, origin: OriginType, membership_id: u64) -> Result<
        (),
        Error,
    > {
        if !origin_for_member(origin, membership_id) {
            Err(Error::BadOrigin)
        } else if !has_candidate(self.council.candidates@, membership_id) {
            Err(Error::NotCandidate)
        } else if !(self.council.stage_update.stage is Announcing) {
            Err(Error::CandidacyStakeLockedPostAnnouncement)
        } else if spec_candidate(self.council.candidates@, membership_id).cycle_id
            != self.council.announcement_period_nr {
            Err(Error::NotCandidate)
        } else {
            Ok(())
        }
    }

    /// Withdraws a candidacy: allowed only while the announcing stage the
    /// candidacy was declared in still lasts; unlocks the stake and removes
    /// the record.  A failing call changes nothing.
    pub fn withdraw_candidacy(&mut self, origin: OriginType, membership_id: u64) -> (r: Result<
        (),
        Error,
    >)
        requires
            old(self).wf(),
        ensures
            final(self).wf(),
            r == old(self).withdraw_outcome(origin, membership_id),
            r is Err ==> *final(self) == *old(self),
            r is Ok ==> {
                &&& !has_candidate(final(self).council.candidates@, membership_id)
                &&& final(self).council.candidates@.len() == old(
                    self,
                ).council.candidates@.len() - 1
                &&& forall|m: u64|
                    m != membership_id ==> #[trigger] has_candidate(
                        final(self).council.candidates@,
                        m,
                    ) == has_candidate(old(self).council.candidates@, m)
                &&& forall|m: u64|
                    m != membership_id && has_candidate(old(self).council.candidates@, m)
                        ==> #[trigger] spec_candidate(final(self).council.candidates@, m)
                        == spec_candidate(old(self).council.candidates@, m)
                &&& (match old(self).council.stage_update.stage {
                    CouncilStage::Announcing(a) => final(self).council.stage_update
                        == (CouncilStageUpdate {
                        stage: CouncilStage::Announcing(CouncilStageAnnouncing {
                            candidates_count: (a.candidates_count - 1) as u64,
                        }),
                        changed_at: old(self).council.stage_update.changed_at,
                    }),
                    _ => false,
                })
                &&& final(self).council.announcement_period_nr
                    == old(self).council.announcement_period_nr
                &&& final(self).council.council_members == old(self).council.council_members
                &&& final(self).council.budget == old(self).council.budget
                &&& final(self).council.next_budget_refill == old(self).council.next_budget_refill
                &&& final(self).council.next_reward_payments
                    == old(self).council.next_reward_payments
                &&& final(self).referendum == old(self).referendum
                &&& spec_lock(
                    final(self).balances.accounts@,
                    spec_candidate(old(self).council.candidates@, membership_id).staking_account_id,
                    LockId::Candidacy,
                ) == 0
                &&& forall|a: u64, l: LockId|
                    !(a == spec_candidate(
                        old(self).council.candidates@,
                        membership_id,
                    ).staking_account_id && l == LockId::Candidacy) ==> #[trigger] spec_lock(
                        final(self).balances.accounts@,
                        a,
                        l,
                    ) == spec_lock(old(self).balances.accounts@, a, l)
                &&& forall|a: u64|
                    #[trigger] spec_free(final(self).balances.accounts@, a) == spec_free(
                        old(self).balances.accounts@,
                        a,
                    )
                &&& final(self).events@ == old(self).events@.push(
                    RawEvent::CandidacyWithdraw(membership_id),
                )
                &&& final(self).same_infra(*old(self))
            },
    {
        let ghost w0 = *self;
        let ghost nr = self.council.announcement_period_nr;
        let authorized = match origin {
            OriginType::Signed(a) => a == membership_id,
            OriginType::Root => false,
        };
        if !authorized {
            return Err(Error::BadOrigin);
        }
        let i = match self.find_candidate(membership_id) {
            Some(i) => i,
            None => {
                return Err(Error::NotCandidate);
            }
        };
        proof {
            lemma_candidate_idx(self.council.candidates@, membership_id, i as int);
        }
        let count = match self.council.stage_update.stage {
            CouncilStage::Announcing(a) => a.candidates_count,
            _ => {
                return Err(Error::CandidacyStakeLockedPostAnnouncement);
            }
        };
        if self.council.candidates[i].candidate.cycle_id != self.council.announcement_period_nr {
            return Err(Error::NotCandidate);
        }
        let staking_account_id = self.council.candidates[i].candidate.staking_account_id;
        proof {
            lemma_active_count_pos(self.council.candidates@, nr, i as int);
        }
        self.balances.remove_lock(staking_account_id, LockId::Candidacy);
        let ghost cands0 = self.council.candidates@;
        crate::registry::remove_candidate_at(&mut self.council.candidates, i);
        proof {
            lemma_active_count_remove(cands0, nr, i as int);
            assert(active_count(self.council.candidates@, nr) == active_count(cands0, nr) - 1);
            assert(self.referendum.stage is Inactive) by {
                match w0.referendum.stage {
                    ReferendumStage::Inactive => {}
                    ReferendumStage::Voting(_) => {
                        assert(w0.council.stage_update.stage is Election);
                    }
                    ReferendumStage::Revealing(_) => {
                        assert(w0.council.stage_update.stage is Election);
                    }
                }
            }
            assert(forall|j: int|
                0 <= j < self.council.candidates@.len()
                    ==> #[trigger] self.council.candidates@[j].candidate.cycle_id <= nr) by {
                cands0.remove_ensures(i as int);
            }
        }
        self.council.stage_update.stage = CouncilStage::Announcing(CouncilStageAnnouncing {
            candidates_count: count - 1,
        });
        self.events.push(RawEvent::CandidacyWithdraw(membership_id));
        Ok(())
    }

    /// The result [`World::set_candidacy_note`] returns, as a function of
    /// the state it is called in.
    pub open spec fn note_outcome(self, origin: OriginType, membership_id: u64) -> Result<
        (),
        Error,
    > {
        if !origin_for_member(origin, membership_id) {
            Err(Error::BadOrigin)
        } else if !is_active_candidate(
            self.council.candidates@,
            membership_id,
            self.council.announcement_period_nr,
        ) {
            Err(Error::NotCandidatingNow)
        } else if self.council.stage_update.stage is Idle {
            Err(Error::NotCandidatingNow)
        } else {
            Ok(())
        }
    }

    /// Stores the digest of a candidacy note: allowed while the member's
    /// candidacy is part of the cycle still being decided.  Only the digest
    /// is kept, so on-chain storage stays bounded.  A failing call changes
    /// nothing.
    pub fn set_candidacy_note(&mut self, origin: OriginType, membership_id: u64, note: &Vec<u8>)
        -> (r: Result<(), Error>)
        requires
            old(self).wf(),
        ensures
            final(self).wf(),
            r == old(self).note_outcome(origin, membership_id),
            r is Err ==> *final(self) == *old(self),
            r is Ok ==> {
                &&& has_candidate(final(self).council.candidates@, membership_id)
                &&& ({
                    let c1 = spec_candidate(final(self).council.candidates@, membership_id);
                    let c0 = spec_candidate(old(self).council.candidates@, membership_id);
                    &&& c1.staking_account_id == c0.staking_account_id
                    &&& c1.reward_account_id == c0.reward_account_id
                    &&& c1.cycle_id == c0.cycle_id
                    &&& c1.stake == c0.stake
                    &&& c1.vote_power == c0.vote_power
                    &&& c1.note_hash matches Some(h) && h@ == crate::hashing::spec_note_hash(note@)
                })
                &&& forall|m: u64|
                    m != membership_id ==> #[trigger] has_candidate(
                        final(self).council.candidates@,
                        m,
                    ) == has_candidate(old(self).council.candidates@, m)
                &&& forall|m: u64|
                    m != membership_id && has_candidate(old(self).council.candidates@, m)
                        ==> #[trigger] spec_candidate(final(self).council.candidates@, m)
                        == spec_candidate(old(self).council.candidates@, m)
                &&& final(self).council.stage_update == old(self).council.stage_update
                &&& final(self).council.announcement_period_nr
                    == old(self).council.announcement_period_nr
                &&& final(self).council.council_members == old(self).council.council_members
                &&& final(self).council.budget == old(self).council.budget
                &&& final(self).council.next_budget_refill == old(self).council.next_budget_refill
                &&& final(self).council.next_reward_payments
                    == old(self).council.next_reward_payments
                &&& final(self).referendum == old(self).referendum
                &&& final(self).balances == old(self).balances
                &&& final(self).events@.len() == old(self).events@.len() + 1
                &&& final(self).events@.subrange(0, old(self).events@.len() as int) == old(
                    self,
                ).events@
                &&& final(self).last_event_is(RawEvent::CandidacyNoteSet(membership_id, *note))
                &&& final(self).same_infra(*old(self))
            },
    {
        let ghost w0 = *self;
        let ghost nr = self.council.announcement_period_nr;
        let authorized = match origin {
            OriginType::Signed(a) => a == membership_id,
            OriginType::Root => false,
        };
        if !authorized {
            return Err(Error::BadOrigin);
        }
        let i = match self.find_candidate(membership_id) {
            Some(i) => i,
            None => {
                return Err(Error::NotCandidatingNow);
            }
        };
        proof {
            lemma_candidate_idx(self.council.candidates@, membership_id, i as int);
        }
        if self.council.candidates[i].candidate.cycle_id != self.council.announcement_period_nr {
            return Err(Error::NotCandidatingNow);
        }
        match self.council.stage_update.stage {
            CouncilStage::Idle => {
                return Err(Error::NotCandidatingNow);
            }
            _ => {}
        }
        let digest = crate::hashing::note_hash_of(note);
        let ghost cands0 = self.council.candidates@;
        let rec = &mut self.council.candidates[i];
        rec.candidate.note_hash = Some(digest);
        proof {
            let cands1 = self.council.candidates@;
            assert(cands1.len() == cands0.len());
            assert(forall|j: int| 0 <= j < cands1.len() && j != i ==> cands1[j] == cands0[j]);
            assert(cands1[i as int].membership_id == cands0[i as int].membership_id);
            assert(cands1[i as int].candidate.cycle_id == cands0[i as int].candidate.cycle_id);
            assert(cands1[i as int].candidate.vote_power == cands0[i as int].candidate.vote_power);
            assert(candidates_wf(cands1)) by {
                assert(forall|j: int|
                    0 <= j < cands1.len() ==> cands1[j].membership_id
                        == #[trigger] cands0[j].membership_id);
            }
            lemma_candidate_idx(cands1, membership_id, i as int);
            lemma_active_count_same_cycles(cands0, cands1, nr);
            assert forall|m: u64| m != membership_id implies #[trigger] has_candidate(cands1, m)
                == has_candidate(cands0, m) by {
                lemma_same_candidate_ids(cands0, cands1, m);
            }
            assert forall|m: u64| m != membership_id && has_candidate(cands0, m) implies
                #[trigger] spec_candidate(cands1, m) == spec_candidate(cands0, m) by {
                lemma_same_candidate_ids(cands0, cands1, m);
                let k = candidate_idx(cands0, m);
                assert(0 <= k < cands0.len() && cands0[k].membership_id == m);
                assert(k != i);
            }
            assert(forall|j: int|
                0 <= j < cands1.len() ==> #[trigger] cands1[j].candidate.cycle_id <= nr);
            match w0.referendum.stage {
                ReferendumStage::Revealing(rv) => {
                    assert forall|j: int| 0 <= j < rv.intermediate_winners@.len() implies
                        is_active_candidate(
                            cands1,
                            (#[trigger] rv.intermediate_winners@[j]).option_id,
                            nr,
                        ) && spec_candidate(
                        cands1,
                        rv.intermediate_winners@[j].option_id,
                    ).vote_power == rv.intermediate_winners@[j].vote_power by {
                        let o = rv.intermediate_winners@[j].option_id;
                        lemma_same_candidate_ids(cands0, cands1, o);
                    }
                }
                _ => {}
            }
        }
        self.events.push(RawEvent::CandidacyNoteSet(membership_id, crate::hashing::clone_bytes(note)));
        proof {
            assert(self.events@.subrange(0, self.events@.len() - 1) =~= old(self).events@);
        }
        Ok(())
    }

    /// The result [`World::release_candidacy_stake`] returns, as a function
    /// of the state it is called in.
    pub open spec fn release_outcome(self, origin: OriginType, membership_id: u64) -> Result<
        (),
        Error,
    > {
        if !origin_for_member(origin, membership_id) {
            Err(Error::BadOrigin)
        } else if !has_candidate(self.council.candidates@, membership_id) {
            Err(Error::NotCandidate)
        } else if spec_candidate(self.council.candidates@, membership_id).cycle_id
            == self.council.announcement_period_nr && !(self.council.stage_update.stage is Idle) {
            Err(Error::StakeStillNeeded)
        } else {
            Ok(())
        }
    }

    /// Releases the stake of a candidacy that reached a terminal state (the
    /// election was lost, or the cycle it belonged to is over): unlocks the
    /// stake and deletes the record, so a second release fails.  A failing
    /// call changes nothing.
    pub fn release_candidacy_stake(&mut self, origin: OriginType, membership_id: u64) -> (r:
        Result<(), Error>)
        requires
            old(self).wf(),
        ensures
            final(self).wf(),
            r == old(self).release_outcome(origin, membership_id),
            r is Err ==> *final(self) == *old(self),
            r is Ok ==> {
                &&& !has_candidate(final(self).council.candidates@, membership_id)
                &&& final(self).council.candidates@.len() == old(
                    self,
                ).council.candidates@.len() - 1
                &&& forall|m: u64|
                    m != membership_id ==> #[trigger] has_candidate(
                        final(self).council.candidates@,
                        m,
                    ) == has_candidate(old(self).council.candidates@, m)
                &&& forall|m: u64|
                    m != membership_id && has_candidate(old(self).council.candidates@, m)
                        ==> #[trigger] spec_candidate(final(self).council.candidates@, m)
                        == spec_candidate(old(self).council.candidates@, m)
                &&& final(self).council.stage_update == old(self).council.stage_update
                &&& final(self).council.announcement_period_nr
                    == old(self).council.announcement_period_nr
                &&& final(self).council.council_members == old(self).council.council_members
                &&& final(self).council.budget == old(self).council.budget
                &&& final(self).council.next_budget_refill == old(self).council.next_budget_refill
                &&& final(self).council.next_reward_payments
                    == old(self).council.next_reward_payments
                &&& final(self).referendum == old(self).referendum
                &&& spec_lock(
                    final(self).balances.accounts@,
                    spec_candidate(old(self).council.candidates@, membership_id).staking_account_id,
                    LockId::Candidacy,
                ) == 0
                &&& forall|a: u64, l: LockId|
                    !(a == spec_candidate(
                        old(self).council.candidates@,
                        membership_id,
                    ).staking_account_id && l == LockId::Candidacy) ==> #[trigger] spec_lock(
                        final(self).balances.accounts@,
                        a,
                        l,
                    ) == spec_lock(old(self).balances.accounts@, a, l)
                &&& forall|a: u64|
                    #[trigger] spec_free(final(self).balances.accounts@, a) == spec_free(
                        old(self).balances.accounts@,
                        a,
                    )
                &&& final(self).events@ == old(self).events@.push(
                    RawEvent::CandidacyStakeRelease(membership_id),
                )
                &&& final(self).same_infra(*old(self))
            },
    {
        let ghost w0 = *self;
        let ghost nr = self.council.announcement_period_nr;
        let authorized = match origin {
            OriginType::Signed(a) => a == membership_id,
            OriginType::Root => false,
        };
        if !authorized {
            return Err(Error::BadOrigin);
        }
        let i = match self.find_candidate(membership_id) {
            Some(i) => i,
            None => {
                return Err(Error::NotCandidate);
            }
        };
        proof {
            lemma_candidate_idx(self.council.candidates@, membership_id, i as int);
        }
        let is_idle = match self.council.stage_update.stage {
            CouncilStage::Idle => true,
            _ => false,
        };
        if self.council.candidates[i].candidate.cycle_id == self.council.announcement_period_nr
            && !is_idle {
            return Err(Error::StakeStillNeeded);
        }
        let staking_account_id = self.council.candidates[i].candidate.staking_account_id;
        self.balances.remove_lock(staking_account_id, LockId::Candidacy);
        let ghost cands0 = self.council.candidates@;
        crate::registry::remove_candidate_at(&mut self.council.candidates, i);
        proof {
            let cands1 = self.council.candidates@;
            cands0.remove_ensures(i as int);
            assert(forall|j: int|
                0 <= j < cands1.len() ==> #[trigger] cands1[j].candidate.cycle_id <= nr);
            match w0.council.stage_update.stage {
                CouncilStage::Announcing(_) | CouncilStage::Election(_) => {
                    assert(cands0[i as int].candidate.cycle_id != nr);
                    lemma_active_count_remove(cands0, nr, i as int);
                    assert(active_count(cands1, nr) == active_count(cands0, nr));
                }
                CouncilStage::Idle => {}
            }
            match w0.referendum.stage {
                ReferendumStage::Revealing(rv) => {
                    assert(cands0[i as int].candidate.cycle_id != nr);
                    assert forall|j: int| 0 <= j < rv.intermediate_winners@.len() implies
                        is_active_candidate(
                            cands1,
                            (#[trigger] rv.intermediate_winners@[j]).option_id,
                            nr,
                        ) && spec_candidate(
                        cands1,
                        rv.intermediate_winners@[j].option_id,
                    ).vote_power == rv.intermediate_winners@[j].vote_power by {
                        let o = rv.intermediate_winners@[j].option_id;
                        assert(is_active_candidate(cands0, o, nr));
                        assert(o != membership_id) by {
                            if o == membership_id {
                                assert(spec_candidate(cands0, o).cycle_id == nr);
                            }
                        }
                    }
                }
                _ => {}
            }
        }
        self.events.push(RawEvent::CandidacyStakeRelease(membership_id));
        Ok(())
    }

    /// The result [`World::vote`] returns, as a function of the state it is
    /// called in.
    pub open spec fn vote_outcome(self, origin: OriginType, stake: u64) -> Result<
        (),
        ReferendumError,
    > {
        match origin {
            OriginType::Root => Err(ReferendumError::BadOrigin),
            OriginType::Signed(a) => {
                if !(self.referendum.stage is Voting) {
                    Err(ReferendumError::ReferendumNotRunning)
                } else if has_vote(self.referendum.votes@, a) {
                    Err(ReferendumError::AlreadyVoted)
                } else if stake < self.settings.min_voting_stake {
                    Err(ReferendumError::InsufficientStake)
                } else if spec_free(self.balances.accounts@, a) < stake {
                    Err(ReferendumError::InsufficientBalance)
                } else {
                    Ok(())
                }
            },
        }
    }

    /// Casts a vote: a commitment to an option, with the stake locked under
    /// the voting lock.  Allowed only while the voting stage lasts, once per
    /// account, with at least the minimum voting stake.  A failing call
    /// changes nothing.
    pub fn vote(&mut self, origin: OriginType, commitment: Vec<u8>, stake: u64) -> (r: Result<
        (),
        ReferendumError,
    >)
        requires
            old(self).wf(),
        ensures
            final(self).wf(),
            r == old(self).vote_outcome(origin, stake),
            r is Err ==> *final(self) == *old(self),
            r is Ok ==> {
                &&& (origin matches OriginType::Signed(a) && {
                    &&& final(self).referendum.votes@ == old(self).referendum.votes@.push(
                        CastVote {
                            account_id: a,
                            commitment,
                            stake,
                            cycle_id: old(self).council.announcement_period_nr,
                            vote_for: None,
                        },
                    )
                    &&& spec_lock(final(self).balances.accounts@, a, LockId::Voting) == stake
                    &&& forall|x: u64, l: LockId|
                        !(x == a && l == LockId::Voting) ==> #[trigger] spec_lock(
                            final(self).balances.accounts@,
                            x,
                            l,
                        ) == spec_lock(old(self).balances.accounts@, x, l)
                })
                &&& forall|x: u64|
                    #[trigger] spec_free(final(self).balances.accounts@, x) == spec_free(
                        old(self).balances.accounts@,
                        x,
                    )
                &&& final(self).referendum.stage == old(self).referendum.stage
                &&& final(self).council == old(self).council
                &&& final(self).events == old(self).events
                &&& final(self).same_infra(*old(self))
            },
    {
        let ghost w0 = *self;
        let account_id = match origin {
            OriginType::Signed(a) => a,
            OriginType::Root => {
                return Err(ReferendumError::BadOrigin);
            }
        };
        let cycle_id = match &self.referendum.stage {
            ReferendumStage::Voting(v) => v.current_cycle_id,
            _ => {
                return Err(ReferendumError::ReferendumNotRunning);
            }
        };
        match self.find_vote(account_id) {
            Some(i) => {
                proof {
                    lemma_vote_idx(self.referendum.votes@, account_id, i as int);
                }
                return Err(ReferendumError::AlreadyVoted);
            }
            None => {}
        }
        if stake < self.settings.min_voting_stake {
            return Err(ReferendumError::InsufficientStake);
        }
        if self.balances.free_balance(account_id) < stake {
            return Err(ReferendumError::InsufficientBalance);
        }
        self.balances.set_lock(account_id, LockId::Voting, stake);
        let ghost votes0 = self.referendum.votes@;
        self.referendum.votes.push(CastVote {
            account_id,
            commitment,
            stake,
            cycle_id,
            vote_for: None,
        });
        proof {
            let votes1 = self.referendum.votes@;
            let m0 = votes0.len() as int;
            assert(votes1[m0].account_id == account_id);
            assert(forall|j: int| 0 <= j < m0 ==> votes1[j] == votes0[j]);
            assert(votes_wf(votes1)) by {
                assert forall|x: int, y: int| 0 <= x < y < votes1.len() implies votes1[x].account_id
                    != votes1[y].account_id by {
                    if y < m0 {
                    } else {
                        assert(!has_vote(votes0, account_id));
                        assert(votes0[x].account_id != account_id);
                    }
                }
            }
        }
        Ok(())
    }

    /// The result [`World::reveal_vote`] returns, as a function of the state
    /// it is called in.
    pub open spec fn reveal_outcome(
        self,
        origin: OriginType,
        salt: Seq<u8>,
        vote_option_id: u64,
    ) -> Result<(), ReferendumError> {
        match origin {
            OriginType::Root => Err(ReferendumError::BadOrigin),
            OriginType::Signed(a) => {
                if !(self.referendum.stage is Revealing) {
                    Err(ReferendumError::RevealingNotInProgress)
                } else if !has_vote(self.referendum.votes@, a) {
                    Err(ReferendumError::VoteNotExisting)
                } else if spec_vote(self.referendum.votes@, a).cycle_id
                    != self.council.announcement_period_nr {
                    Err(ReferendumError::InvalidVote)
                } else if spec_vote(self.referendum.votes@, a).vote_for is Some {
                    Err(ReferendumError::AlreadyRevealed)
                } else if salt.len() > self.settings.max_salt_length {
                    Err(ReferendumError::SaltTooLong)
                } else if !(self.is_option_id_valid && self.spec_is_valid_candidate_id(
                    vote_option_id,
                )) {
                    Err(ReferendumError::InvalidVote)
                } else if spec_vote(self.referendum.votes@, a).commitment@
                    != crate::hashing::spec_commitment(
                    a,
                    salt,
                    self.council.announcement_period_nr,
                    vote_option_id,
                ) {
                    Err(ReferendumError::InvalidReveal)
                } else {
                    Ok(())
                }
            },
        }
    }

    /// Reveals a cast vote: the salt and option must reproduce the stored
    /// commitment, the option must still be a valid candidate, and the vote
    /// must belong to the cycle being decided.  On success the candidate's
    /// vote power grows by the vote's weight and the winners list is
    /// reordered accordingly.  A failing call changes nothing.
    pub fn reveal_vote(&mut self, origin: OriginType, salt: &Vec<u8>, vote_option_id: u64) -> (r:
        Result<(), ReferendumError>)
        requires
            old(self).wf(),
        ensures
            final(self).wf(),
            r == old(self).reveal_outcome(origin, salt@, vote_option_id),
            r is Err ==> *final(self) == *old(self),
            r is Ok ==> {
                &&& (origin matches OriginType::Signed(a) && {
                    &&& spec_candidate(final(self).council.candidates@, vote_option_id).vote_power
                        == crate::sat_add(
                        spec_candidate(old(self).council.candidates@, vote_option_id).vote_power,
                        spec_vote_power(a, spec_vote(old(self).referendum.votes@, a).stake),
                    )
                    &&& has_vote(final(self).referendum.votes@, a)
                    &&& spec_vote(final(self).referendum.votes@, a).vote_for == Some(
                        vote_option_id,
                    )
                    &&& spec_vote(final(self).referendum.votes@, a).account_id == spec_vote(
                        old(self).referendum.votes@,
                        a,
                    ).account_id
                    &&& spec_vote(final(self).referendum.votes@, a).stake == spec_vote(
                        old(self).referendum.votes@,
                        a,
                    ).stake
                    &&& spec_vote(final(self).referendum.votes@, a).cycle_id == spec_vote(
                        old(self).referendum.votes@,
                        a,
                    ).cycle_id
                    &&& forall|x: u64|
                        x != a ==> #[trigger] has_vote(final(self).referendum.votes@, x)
                            == has_vote(old(self).referendum.votes@, x)
                    &&& forall|x: u64|
                        x != a && has_vote(old(self).referendum.votes@, x)
                            ==> #[trigger] spec_vote(final(self).referendum.votes@, x) == spec_vote(
                            old(self).referendum.votes@,
                            x,
                        )
                })
                &&& forall|m: u64|
                    #[trigger] has_candidate(final(self).council.candidates@, m) == has_candidate(
                        old(self).council.candidates@,
                        m,
                    )
                &&& forall|m: u64|
                    m != vote_option_id && has_candidate(old(self).council.candidates@, m)
                        ==> #[trigger] spec_candidate(final(self).council.candidates@, m)
                        == spec_candidate(old(self).council.candidates@, m)
                &&& (match (old(self).referendum.stage, final(self).referendum.stage) {
                    (ReferendumStage::Revealing(r0), ReferendumStage::Revealing(r1)) => {
                        &&& r1.started == r0.started
                        &&& r1.winning_target_count == r0.winning_target_count
                        &&& r1.current_cycle_id == r0.current_cycle_id
                        &&& has_winner(r1.intermediate_winners@, vote_option_id)
                        &&& spec_winner_power(r1.intermediate_winners@, vote_option_id)
                            == spec_candidate(
                            final(self).council.candidates@,
                            vote_option_id,
                        ).vote_power
                        &&& forall|o: u64|
                            o != vote_option_id ==> #[trigger] has_winner(
                                r1.intermediate_winners@,
                                o,
                            ) == has_winner(r0.intermediate_winners@, o)
                        &&& forall|o: u64|
                            o != vote_option_id ==> #[trigger] spec_winner_power(
                                r1.intermediate_winners@,
                                o,
                            ) == spec_winner_power(r0.intermediate_winners@, o)
                    },
                    _ => false,
                })
                &&& final(self).council.stage_update == old(self).council.stage_update
                &&& final(self).council.announcement_period_nr
                    == old(self).council.announcement_period_nr
                &&& final(self).council.council_members == old(self).council.council_members
                &&& final(self).council.budget == old(self).council.budget
                &&& final(self).council.next_budget_refill == old(self).council.next_budget_refill
                &&& final(self).council.next_reward_payments
                    == old(self).council.next_reward_payments
                &&& final(self).balances == old(self).balances
                &&& final(self).events == old(self).events
                &&& final(self).same_infra(*old(self))
            },
    {
        let ghost w0 = *self;
        let ghost nr = self.council.announcement_period_nr;
        let account_id = match origin {
            OriginType::Signed(a) => a,
            OriginType::Root => {
                return Err(ReferendumError::BadOrigin);
            }
        };
        let cycle_id = match &self.referendum.stage {
            ReferendumStage::Revealing(rv) => rv.current_cycle_id,
            _ => {
                return Err(ReferendumError::RevealingNotInProgress);
            }
        };
        let vi = match self.find_vote(account_id) {
            Some(i) => i,
            None => {
                return Err(ReferendumError::VoteNotExisting);
            }
        };
        proof {
            lemma_vote_idx(self.referendum.votes@, account_id, vi as int);
        }
        if self.referendum.votes[vi].cycle_id != cycle_id {
            return Err(ReferendumError::InvalidVote);
        }
        if self.referendum.votes[vi].vote_for.is_some() {
            return Err(ReferendumError::AlreadyRevealed);
        }
        if salt.len() as u64 > self.settings.max_salt_length {
            return Err(ReferendumError::SaltTooLong);
        }
        let valid = self.is_option_id_valid && self.is_valid_candidate_id(vote_option_id);
        if !valid {
            return Err(ReferendumError::InvalidVote);
        }
        let expected = crate::hashing::calculate_commitment(
            account_id,
            salt,
            cycle_id,
            vote_option_id,
        );
        if !crate::hashing::bytes_equal(&self.referendum.votes[vi].commitment, &expected) {
            return Err(ReferendumError::InvalidReveal);
        }
        let stake = self.referendum.votes[vi].stake;
        let power = crate::referendum::calculate_vote_power_of(account_id, stake);
        // The candidate record is the single source of truth for the tally.
        let ci = match self.find_candidate(vote_option_id) {
            Some(i) => i,
            None => {
                proof {
                    assert(false);
                }
                return Err(ReferendumError::InvalidVote);
            }
        };
        proof {
            lemma_candidate_idx(self.council.candidates@, vote_option_id, ci as int);
        }
        let new_power = self.council.candidates[ci].candidate.vote_power.saturating_add(power);
        let ghost cands0 = self.council.candidates@;
        let crec = &mut self.council.candidates[ci];
        crec.candidate.vote_power = new_power;
        proof {
            let cands1 = self.council.candidates@;
            assert(candidates_wf(cands1)) by {
                assert(forall|j: int|
                    0 <= j < cands1.len() ==> cands1[j].membership_id
                        == #[trigger] cands0[j].membership_id);
            }
            lemma_candidate_idx(cands1, vote_option_id, ci as int);
            lemma_active_count_same_cycles(cands0, cands1, nr);
            assert forall|m: u64| #[trigger] has_candidate(cands1, m) == has_candidate(
                cands0,
                m,
            ) by {
                lemma_same_candidate_ids(cands0, cands1, m);
            }
            assert forall|m: u64| m != vote_option_id && has_candidate(cands0, m) implies
                #[trigger] spec_candidate(cands1, m) == spec_candidate(cands0, m) by {
                lemma_same_candidate_ids(cands0, cands1, m);
                let k = candidate_idx(cands0, m);
                assert(0 <= k < cands0.len() && cands0[k].membership_id == m);
                assert(k != ci);
            }
        }
        // Reorder the winners list around the option's new power.
        match &mut self.referendum.stage {
            ReferendumStage::Revealing(rv) => {
                proof {
                    assert(winners_sorted(rv.intermediate_winners@));
                }
                update_winner(&mut rv.intermediate_winners, vote_option_id, new_power);
            }
            _ => {
                proof {
                    assert(false);
                }
            }
        }
        // Mark the vote revealed.
        let vrec = &mut self.referendum.votes[vi];
        vrec.vote_for = Some(vote_option_id);
        proof {
            let votes0 = w0.referendum.votes@;
            let votes1 = self.referendum.votes@;
            assert(votes_wf(votes1)) by {
                assert(forall|j: int|
                    0 <= j < votes1.len() ==> votes1[j].account_id
                        == #[trigger] votes0[j].account_id);
            }
            lemma_vote_idx(votes1, account_id, vi as int);
            assert forall|x: u64| x != account_id implies #[trigger] has_vote(votes1, x)
                == has_vote(votes0, x) by {
                if has_vote(votes0, x) {
                    let k = vote_idx(votes0, x);
                    assert(0 <= k < votes0.len() && votes0[k].account_id == x);
                    lemma_vote_idx(votes1, x, k);
                } else {
                    if has_vote(votes1, x) {
                        let k = vote_idx(votes1, x);
                        assert(0 <= k < votes1.len() && votes1[k].account_id == x);
                        assert(votes0[k].account_id == x);
                    }
                }
            }
            assert forall|x: u64| x != account_id && has_vote(votes0, x) implies #[trigger]
                spec_vote(votes1, x) == spec_vote(votes0, x) by {
                let k = vote_idx(votes0, x);
                assert(0 <= k < votes0.len() && votes0[k].account_id == x);
                assert(k != vi);
                lemma_vote_idx(votes1, x, k);
                lemma_vote_idx(votes0, x, k);
            }
            // Re-establish the winners synchronization.
            let cands1 = self.council.candidates@;
            assert(w0.referendum.stage is Revealing);
            assert(self.referendum.stage is Revealing);
            let r0 = w0.referendum.stage->Revealing_0;
            let r1 = self.referendum.stage->Revealing_0;
            {
                {
                    assert forall|j: int| 0 <= j < r1.intermediate_winners@.len() implies
                        is_active_candidate(
                            cands1,
                            (#[trigger] r1.intermediate_winners@[j]).option_id,
                            nr,
                        ) && spec_candidate(
                        cands1,
                        r1.intermediate_winners@[j].option_id,
                    ).vote_power == r1.intermediate_winners@[j].vote_power by {
                        let o = r1.intermediate_winners@[j].option_id;
                        crate::referendum::lemma_winner_idx(
                            r1.intermediate_winners@,
                            o,
                            j,
                        );
                        if o == vote_option_id {
                            assert(spec_winner_power(r1.intermediate_winners@, o) == new_power);
                        } else {
                            assert(has_winner(r1.intermediate_winners@, o));
                            assert(has_winner(r0.intermediate_winners@, o));
                            let k = winner_idx(r0.intermediate_winners@, o);
                            assert(0 <= k < r0.intermediate_winners@.len()
                                && r0.intermediate_winners@[k].option_id == o);
                            assert(is_active_candidate(w0.council.candidates@, o, nr));
                            assert(spec_winner_power(r1.intermediate_winners@, o)
                                == spec_winner_power(r0.intermediate_winners@, o));
                            assert(spec_winner_power(r0.intermediate_winners@, o)
                                == r0.intermediate_winners@[k].vote_power);
                        }
                    }
                }
            }
        }
        Ok(())
    }

    /// The result [`World::release_vote_stake`] returns, as a function of
    /// the state it is called in.
    pub open spec fn release_vote_outcome(self, origin: OriginType) -> Result<
        (),
        ReferendumError,
    > {
        match origin {
            OriginType::Root => Err(ReferendumError::BadOrigin),
            OriginType::Signed(a) => {
                if !has_vote(self.referendum.votes@, a) {
                    Err(ReferendumError::VoteNotExisting)
                } else if !(self.is_unstake_enabled && self.spec_can_unlock_vote_stake(
                    spec_vote(self.referendum.votes@, a).cycle_id,
                )) {
                    Err(ReferendumError::UnstakingForbidden)
                } else {
                    Ok(())
                }
            },
        }
    }

    /// Releases a vote's stake: vetoed by the council while the vote's cycle
    /// is unresolved, so the same funds cannot vote twice in one cycle.  On
    /// success the vote record is deleted and the stake unlocked.  A failing
    /// call changes nothing.
    pub fn release_vote_stake(&mut self, origin: OriginType) -> (r: Result<(), ReferendumError>)
        requires
            old(self).wf(),
        ensures
            final(self).wf(),
            r == old(self).release_vote_outcome(origin),
            r is Err ==> *final(self) == *old(self),
            r is Ok ==> {
                &&& (origin matches OriginType::Signed(a) && {
                    &&& !has_vote(final(self).referendum.votes@, a)
                    &&& forall|x: u64|
                        x != a ==> #[trigger] has_vote(final(self).referendum.votes@, x)
                            == has_vote(old(self).referendum.votes@, x)
                    &&& forall|x: u64|
                        x != a && has_vote(old(self).referendum.votes@, x)
                            ==> #[trigger] spec_vote(final(self).referendum.votes@, x) == spec_vote(
                            old(self).referendum.votes@,
                            x,
                        )
                    &&& spec_lock(final(self).balances.accounts@, a, LockId::Voting) == 0
                    &&& forall|x: u64, l: LockId|
                        !(x == a && l == LockId::Voting) ==> #[trigger] spec_lock(
                            final(self).balances.accounts@,
                            x,
                            l,
                        ) == spec_lock(old(self).balances.accounts@, x, l)
                })
                &&& forall|x: u64|
                    #[trigger] spec_free(final(self).balances.accounts@, x) == spec_free(
                        old(self).balances.accounts@,
                        x,
                    )
                &&& final(self).referendum.stage == old(self).referendum.stage
                &&& final(self).council == old(self).council
                &&& final(self).events == old(self).events
                &&& final(self).same_infra(*old(self))
            },
    {
        let account_id = match origin {
            OriginType::Signed(a) => a,
            OriginType::Root => {
                return Err(ReferendumError::BadOrigin);
            }
        };
        let vi = match self.find_vote(account_id) {
            Some(i) => i,
            None => {
                return Err(ReferendumError::VoteNotExisting);
            }
        };
        proof {
            lemma_vote_idx(self.referendum.votes@, account_id, vi as int);
        }
        let can_unlock = if !self.is_unstake_enabled {
            false
        } else {
            let is_idle = match self.council.stage_update.stage {
                CouncilStage::Idle => true,
                _ => false,
            };
            self.referendum.votes[vi].cycle_id != self.council.announcement_period_nr || is_idle
        };
        if !can_unlock {
            return Err(ReferendumError::UnstakingForbidden);
        }
        crate::referendum::remove_vote_at(&mut self.referendum.votes, vi);
        self.balances.remove_lock(account_id, LockId::Voting);
        Ok(())
    }

    /// Whether every entry of `winners` resolves to a candidacy of the
    /// current cycle.
    pub open spec fn winners_resolvable(self, winners: Seq<OptionResult>) -> bool {
        forall|i: int|
            0 <= i < winners.len() ==> is_active_candidate(
                self.council.candidates@,
                (#[trigger] winners[i]).option_id,
                self.council.announcement_period_nr,
            )
    }

    /// Whether `m` is among the first `k` winning options.
    pub open spec fn in_winner_prefix(winners: Seq<OptionResult>, k: int, m: u64) -> bool {
        exists|j: int| 0 <= j < k && (#[trigger] winners[j]).option_id == m
    }

    /// The staking accounts of the winners are pairwise distinct.
    pub open spec fn winners_distinct_staking(
        cands: Seq<CandidateRecord>,
        winners: Seq<OptionResult>,
    ) -> bool {
        forall|i: int, j: int|
            0 <= i < j < winners.len() ==> spec_candidate(
                cands,
                (#[trigger] winners[i]).option_id,
            ).staking_account_id != spec_candidate(
                cands,
                (#[trigger] winners[j]).option_id,
            ).staking_account_id
    }

    /// Whether `x` is the staking account of one of the first `k` winners.
    pub open spec fn winner_staking_prefix(
        cands: Seq<CandidateRecord>,
        winners: Seq<OptionResult>,
        k: int,
        x: u64,
    ) -> bool {
        exists|j: int|
            0 <= j < k && spec_candidate(
                cands,
                (#[trigger] winners[j]).option_id,
            ).staking_account_id == x
    }

    /// Delivers the referendum's results: called when revealing completes.
    /// Each winning option is mapped back to its candidacy, snapshotted into
    /// a council member elected at the current block — the same height the
    /// idle stage starts at, so rewards run from the delivery block — and
    /// the membership set
    /// is replaced atomically; winners' stakes move from the candidacy lock
    /// to the councilor lock, their candidacy records are deleted, and the
    /// losers' records remain, eligible for release.  A winner that cannot
    /// be resolved to a live candidacy is a cross-module invariant violation:
    /// the whole delivery halts with no state change, and `r` is false.
    pub fn recieve_referendum_results(&mut self, winners: &Vec<OptionResult>) -> (r: bool)
        requires
            old(self).wf(),
            old(self).referendum.stage is Revealing,
        ensures
            final(self).wf(),
            r == (winners_unique(winners@) && old(self).winners_resolvable(winners@)),
            !r ==> *final(self) == *old(self),
            r ==> {
                &&& final(self).council.council_members@ == Seq::new(
                    winners@.len(),
                    |i: int|
                        member_of(
                            spec_candidate(
                                old(self).council.candidates@,
                                winners@[i].option_id,
                            ),
                            winners@[i].option_id,
                            old(self).block_number,
                        ),
                )
                &&& final(self).council.stage_update == (CouncilStageUpdate {
                    stage: CouncilStage::Idle,
                    changed_at: old(self).block_number,
                })
                &&& final(self).referendum.stage is Inactive
                &&& final(self).referendum.votes == old(self).referendum.votes
                &&& final(self).council.candidates@.len() == old(
                    self,
                ).council.candidates@.len() - winners@.len()
                &&& forall|m: u64|
                    #[trigger] has_candidate(final(self).council.candidates@, m) == (has_candidate(
                        old(self).council.candidates@,
                        m,
                    ) && !has_winner(winners@, m))
                &&& forall|m: u64|
                    has_candidate(final(self).council.candidates@, m)
                        ==> #[trigger] spec_candidate(final(self).council.candidates@, m)
                        == spec_candidate(old(self).council.candidates@, m)
                &&& forall|x: u64|
                    #[trigger] spec_free(final(self).balances.accounts@, x) == spec_free(
                        old(self).balances.accounts@,
                        x,
                    )
                &&& forall|x: u64, l: LockId|
                    !Self::winner_staking_prefix(
                        old(self).council.candidates@,
                        winners@,
                        winners@.len() as int,
                        x,
                    ) ==> #[trigger] spec_lock(final(self).balances.accounts@, x, l) == spec_lock(
                        old(self).balances.accounts@,
                        x,
                        l,
                    )
                &&& (Self::winners_distinct_staking(old(self).council.candidates@, winners@)
                    ==> forall|i: int|
                    0 <= i < winners@.len() ==> {
                        let acct = spec_candidate(
                            old(self).council.candidates@,
                            (#[trigger] winners@[i]).option_id,
                        ).staking_account_id;
                        &&& spec_lock(final(self).balances.accounts@, acct, LockId::Candidacy) == 0
                        &&& spec_lock(final(self).balances.accounts@, acct, LockId::Councilor)
                            == spec_candidate(
                            old(self).council.candidates@,
                            winners@[i].option_id,
                        ).stake
                    })
                &&& final(self).council.announcement_period_nr
                    == old(self).council.announcement_period_nr
                &&& final(self).council.budget == old(self).council.budget
                &&& final(self).council.next_budget_refill == old(self).council.next_budget_refill
                &&& final(self).council.next_reward_payments == crate::sat_add(
                    old(self).block_number,
                    old(self).settings.elected_member_reward_period,
                )
                &&& final(self).events == old(self).events
                &&& final(self).same_infra(*old(self))
            },
    {
        let ghost w0 = *self;
        let ghost nr = self.council.announcement_period_nr;
        let ghost cands0 = self.council.candidates@;
        let n = winners.len();
        // A winner that is not a live candidacy of this cycle, or a repeated
        // option, indicates desynchronization: halt with no change.
        let mut i: usize = 0;
        while i < n
            invariant
                i <= n,
                n == winners@.len(),
                *self == w0,
                old(self).wf(),
                *old(self) == w0,
                forall|j: int|
                    0 <= j < i ==> is_active_candidate(
                        w0.council.candidates@,
                        (#[trigger] winners@[j]).option_id,
                        w0.council.announcement_period_nr,
                    ),
                forall|x: int, y: int|
                    0 <= x < y < i ==> winners@[x].option_id != winners@[y].option_id,
            decreases n - i,
        {
            if !self.is_valid_candidate_id(winners[i].option_id) {
                return false;
            }
            let mut j: usize = 0;
            while j < i
                invariant
                    j <= i < n,
                    n == winners@.len(),
                    *self == w0,
                    *old(self) == w0,
                    old(self).wf(),
                    forall|y: int| 0 <= y < j ==> winners@[y].option_id != winners@[i as int].option_id,
                decreases i - j,
            {
                if winners[j].option_id == winners[i].option_id {
                    assert(!winners_unique(winners@));
                    return false;
                }
                j = j + 1;
            }
            i = i + 1;
        }
        assert(winners_unique(winners@));
        assert(w0.winners_resolvable(winners@));
        let now = self.block_number;
        // Snapshot each winner into a member.
        let mut new_members: Vec<CouncilMember> = Vec::new();
        let mut i: usize = 0;
        while i < n
            invariant
                i <= n,
                n == winners@.len(),
                *self == w0,
                winners_unique(winners@),
                w0.wf(),
                w0.winners_resolvable(winners@),
                now == w0.block_number,
                new_members@.len() == i,
                forall|j: int|
                    0 <= j < i ==> new_members@[j] == member_of(
                        spec_candidate(w0.council.candidates@, (#[trigger] winners@[j]).option_id),
                        winners@[j].option_id,
                        now,
                    ),
            decreases n - i,
        {
            let ci = match self.find_candidate(winners[i].option_id) {
                Some(c) => c,
                None => {
                    proof {
                        assert(is_active_candidate(
                            w0.council.candidates@,
                            winners@[i as int].option_id,
                            w0.council.announcement_period_nr,
                        ));
                        assert(false);
                    }
                    return false;
                }
            };
            proof {
                lemma_candidate_idx(self.council.candidates@, winners@[i as int].option_id, ci as int);
            }
            let c = &self.council.candidates[ci].candidate;
            new_members.push(CouncilMember {
                staking_account_id: c.staking_account_id,
                reward_account_id: c.reward_account_id,
                membership_id: winners[i].option_id,
                stake: c.stake,
                last_payment_block: now,
                unpaid_reward: 0,
            });
            i = i + 1;
        }
        // Move each winner's stake from the candidacy to the councilor lock.
        let mut i: usize = 0;
        while i < n
            invariant
                i <= n,
                n == winners@.len(),
                winners_unique(winners@),
                w0.wf(),
                w0.winners_resolvable(winners@),
                self.council == w0.council,
                self.referendum == w0.referendum,
                self.events == w0.events,
                self.same_infra(w0),
                self.balances.wf(),
                forall|x: u64|
                    #[trigger] spec_free(self.balances.accounts@, x) == spec_free(
                        w0.balances.accounts@,
                        x,
                    ),
                forall|x: u64, l: LockId|
                    !Self::winner_staking_prefix(w0.council.candidates@, winners@, i as int, x)
                        ==> #[trigger] spec_lock(self.balances.accounts@, x, l) == spec_lock(
                        w0.balances.accounts@,
                        x,
                        l,
                    ),
                Self::winners_distinct_staking(w0.council.candidates@, winners@) ==> forall|j: int|
                    0 <= j < i ==> {
                        let acct = spec_candidate(
                            w0.council.candidates@,
                            (#[trigger] winners@[j]).option_id,
                        ).staking_account_id;
                        &&& spec_lock(self.balances.accounts@, acct, LockId::Candidacy) == 0
                        &&& spec_lock(self.balances.accounts@, acct, LockId::Councilor)
                            == spec_candidate(
                            w0.council.candidates@,
                            winners@[j].option_id,
                        ).stake
                    },
            decreases n - i,
        {
            let ci = match self.find_candidate(winners[i].option_id) {
                Some(c) => c,
                None => {
                    proof {
                        assert(is_active_candidate(
                            w0.council.candidates@,
                            winners@[i as int].option_id,
                            w0.council.announcement_period_nr,
                        ));
                        assert(false);
                    }
                    return false;
                }
            };
            proof {
                lemma_candidate_idx(self.council.candidates@, winners@[i as int].option_id, ci as int);
            }
            let acct = self.council.candidates[ci].candidate.staking_account_id;
            let stk = self.council.candidates[ci].candidate.stake;
            self.balances.remove_lock(acct, LockId::Candidacy);
            self.balances.set_lock(acct, LockId::Councilor, stk);
            proof {
                assert forall|x: u64, l: LockId| !Self::winner_staking_prefix(
                    w0.council.candidates@,
                    winners@,
                    i + 1,
                    x,
                ) implies #[trigger] spec_lock(self.balances.accounts@, x, l) == spec_lock(
                    w0.balances.accounts@,
                    x,
                    l,
                ) by {
                    assert(x != acct);
                    assert(!Self::winner_staking_prefix(w0.council.candidates@, winners@, i as int, x));
                }
            }
            i = i + 1;
        }
        // Delete the winners' candidacy records; losers stay releasable.
        let ghost bal1 = self.balances;
        let mut i: usize = 0;
        while i < n
            invariant
                i <= n,
                n == winners@.len(),
                winners_unique(winners@),
                w0.wf(),
                w0.winners_resolvable(winners@),
                self.referendum == w0.referendum,
                self.events == w0.events,
                self.same_infra(w0),
                self.balances == bal1,
                self.council.stage_update == w0.council.stage_update,
                self.council.announcement_period_nr == w0.council.announcement_period_nr,
                self.council.council_members == w0.council.council_members,
                self.council.budget == w0.council.budget,
                self.council.next_budget_refill == w0.council.next_budget_refill,
                self.council.next_reward_payments == w0.council.next_reward_payments,
                candidates_wf(self.council.candidates@),
                self.council.candidates@.len() == w0.council.candidates@.len() - i,
                forall|m: u64|
                    #[trigger] has_candidate(self.council.candidates@, m) == (has_candidate(
                        w0.council.candidates@,
                        m,
                    ) && !Self::in_winner_prefix(winners@, i as int, m)),
                forall|m: u64|
                    has_candidate(self.council.candidates@, m) ==> #[trigger] spec_candidate(
                        self.council.candidates@,
                        m,
                    ) == spec_candidate(w0.council.candidates@, m),
            decreases n - i,
        {
            let o = winners[i].option_id;
            proof {
                assert(is_active_candidate(w0.council.candidates@, o, w0.council.announcement_period_nr));
                assert(!Self::in_winner_prefix(winners@, i as int, o)) by {
                    if Self::in_winner_prefix(winners@, i as int, o) {
                        let j = choose|j: int|
                            0 <= j < i && (#[trigger] winners@[j]).option_id == o;
                        assert(winners@[j].option_id == winners@[i as int].option_id);
                    }
                }
                assert(has_candidate(self.council.candidates@, o));
            }
            let ci = match self.find_candidate(o) {
                Some(c) => c,
                None => {
                    proof {
                        assert(false);
                    }
                    return false;
                }
            };
            let ghost candsb = self.council.candidates@;
            crate::registry::remove_candidate_at(&mut self.council.candidates, ci);
            proof {
                assert(candsb[ci as int].membership_id == o);
                assert forall|m: u64| #[trigger] has_candidate(self.council.candidates@, m)
                    == (has_candidate(w0.council.candidates@, m) && !Self::in_winner_prefix(
                    winners@,
                    i + 1,
                    m,
                )) by {
                    if m == o {
                        assert(Self::in_winner_prefix(winners@, i + 1, m));
                        assert(!has_candidate(self.council.candidates@, m));
                    } else {
                        assert(has_candidate(self.council.candidates@, m) == has_candidate(
                            candsb,
                            m,
                        ));
                        assert(Self::in_winner_prefix(winners@, i + 1, m)
                            == Self::in_winner_prefix(winners@, i as int, m)) by {
                            if Self::in_winner_prefix(winners@, i + 1, m) {
                                let j = choose|j: int|
                                    0 <= j < i + 1 && (#[trigger] winners@[j]).option_id == m;
                                assert(j != i);
                                assert(Self::in_winner_prefix(winners@, i as int, m));
                            }
                        }
                    }
                }
            }
            i = i + 1;
        }
        // Install the new membership set and return to idle, atomically from
        // the caller's point of view: no call observes results received but
        // membership not yet replaced.
        self.council.council_members = new_members;
        self.council.stage_update = CouncilStageUpdate {
            stage: CouncilStage::Idle,
            changed_at: now,
        };
        // The reward cadence restarts for the fresh council.
        self.council.next_reward_payments = now.saturating_add(
            self.settings.elected_member_reward_period,
        );
        self.referendum.stage = ReferendumStage::Inactive;
        proof {
            assert(self.council.council_members@ =~= Seq::new(
                winners@.len(),
                |i: int|
                    member_of(
                        spec_candidate(w0.council.candidates@, winners@[i].option_id),
                        winners@[i].option_id,
                        w0.block_number,
                    ),
            ));
            assert forall|m: u64| #[trigger] has_candidate(self.council.candidates@, m)
                == (has_candidate(w0.council.candidates@, m) && !has_winner(winners@, m)) by {
                assert(Self::in_winner_prefix(winners@, winners@.len() as int, m) == has_winner(
                    winners@,
                    m,
                ));
            }
            assert forall|j: int| 0 <= j < self.council.candidates@.len() implies
                #[trigger] self.council.candidates@[j].candidate.cycle_id
                    <= self.council.announcement_period_nr by {
                let m = self.council.candidates@[j].membership_id;
                lemma_candidate_idx(self.council.candidates@, m, j);
                assert(has_candidate(self.council.candidates@, m));
                assert(spec_candidate(self.council.candidates@, m) == spec_candidate(
                    w0.council.candidates@,
                    m,
                ));
                let k = candidate_idx(w0.council.candidates@, m);
                assert(0 <= k < w0.council.candidates@.len());
                assert(w0.council.candidates@[k].candidate.cycle_id
                    <= w0.council.announcement_period_nr);
            }
        }
        true
    }

    /// Adds the periodic refill to the treasury when the refill block has
    /// been reached, and schedules the next one a full period later.  When
    /// several periods have been missed, each is honored by a separate
    /// refill on successive ticks, catching up gradually.
    pub fn refill_budget(&mut self)
        requires
            old(self).wf(),
        ensures
            final(self).wf(),
            old(self).block_number >= old(self).council.next_budget_refill ==> {
                &&& final(self).council.budget == crate::sat_add(
                    old(self).council.budget,
                    old(self).settings.budget_refill_amount,
                )
                &&& final(self).council.next_budget_refill == crate::sat_add(
                    old(self).council.next_budget_refill,
                    old(self).settings.budget_refill_period,
                )
            },
            old(self).block_number < old(self).council.next_budget_refill ==> {
                &&& final(self).council.budget == old(self).council.budget
                &&& final(self).council.next_budget_refill == old(self).council.next_budget_refill
            },
            final(self).council.stage_update == old(self).council.stage_update,
            final(self).council.announcement_period_nr == old(self).council.announcement_period_nr,
            final(self).council.candidates == old(self).council.candidates,
            final(self).council.council_members == old(self).council.council_members,
            final(self).council.next_reward_payments == old(self).council.next_reward_payments,
            final(self).referendum == old(self).referendum,
            final(self).balances == old(self).balances,
            final(self).events == old(self).events,
            final(self).same_infra(*old(self)),
    {
        if self.block_number >= self.council.next_budget_refill {
            self.council.budget = self.council.budget.saturating_add(
                self.settings.budget_refill_amount,
            );
            self.council.next_budget_refill = self.council.next_budget_refill.saturating_add(
                self.settings.budget_refill_period,
            );
        }
    }

    /// Pays every member its reward for the blocks elapsed since its last
    /// payment, when the payment block has been reached.  A member is paid
    /// in full when the budget covers what it is owed; otherwise it is paid
    /// the whole remaining budget and the shortfall is carried forward in
    /// `unpaid_reward` — treasury exhaustion never blocks or removes a
    /// member.
    #[verifier::loop_isolation(false)]
    pub fn pay_rewards(&mut self)
        requires
            old(self).wf(),
        ensures
            final(self).wf(),
            old(self).block_number >= old(self).council.next_reward_payments ==> {
                &&& final(self).council.council_members@ == pay_members(
                    old(self).council.council_members@,
                    old(self).council.budget,
                    old(self).block_number,
                    old(self).settings.elected_member_reward_per_block,
                ).0
                &&& final(self).council.budget == pay_members(
                    old(self).council.council_members@,
                    old(self).council.budget,
                    old(self).block_number,
                    old(self).settings.elected_member_reward_per_block,
                ).1
                &&& final(self).council.next_reward_payments == crate::sat_add(
                    old(self).block_number,
                    old(self).settings.elected_member_reward_period,
                )
            },
            old(self).block_number < old(self).council.next_reward_payments ==> {
                &&& final(self).council.council_members == old(self).council.council_members
                &&& final(self).council.budget == old(self).council.budget
                &&& final(self).council.next_reward_payments
                    == old(self).council.next_reward_payments
                &&& final(self).balances == old(self).balances
            },
            forall|x: u64, l: LockId|
                #[trigger] spec_lock(final(self).balances.accounts@, x, l) == spec_lock(
                    old(self).balances.accounts@,
                    x,
                    l,
                ),
            forall|x: u64|
                !crate::council::is_reward_account(old(self).council.council_members@, x)
                    ==> #[trigger] spec_free(final(self).balances.accounts@, x) == spec_free(
                    old(self).balances.accounts@,
                    x,
                ),
            old(self).council.council_members@.len() == 0 ==> final(self).balances == old(
                self,
            ).balances,
            // What a payment credits: with pairwise-distinct reward accounts,
            // each member's account grows by exactly the amount paid to it
            // (what was owed, less the recorded shortfall).
            old(self).block_number >= old(self).council.next_reward_payments && rewards_distinct(
                old(self).council.council_members@,
            ) ==> forall|j: int|
                0 <= j < old(self).council.council_members@.len() ==> #[trigger] spec_free(
                    final(self).balances.accounts@,
                    old(self).council.council_members@[j].reward_account_id,
                ) == crate::sat_add(
                    spec_free(
                        old(self).balances.accounts@,
                        old(self).council.council_members@[j].reward_account_id,
                    ),
                    (owed_of(
                        old(self).council.council_members@[j],
                        old(self).block_number,
                        old(self).settings.elected_member_reward_per_block,
                    ) - pay_members(
                        old(self).council.council_members@,
                        old(self).council.budget,
                        old(self).block_number,
                        old(self).settings.elected_member_reward_per_block,
                    ).0[j].unpaid_reward) as u64,
                ),
            final(self).council.stage_update == old(self).council.stage_update,
            final(self).council.announcement_period_nr == old(self).council.announcement_period_nr,
            final(self).council.candidates == old(self).council.candidates,
            final(self).council.next_budget_refill == old(self).council.next_budget_refill,
            final(self).referendum == old(self).referendum,
            final(self).events == old(self).events,
            final(self).same_infra(*old(self)),
    {
        let now = self.block_number;
        if now < self.council.next_reward_payments {
            return;
        }
        let per_block = self.settings.elected_member_reward_per_block;
        let ghost members0 = self.council.council_members@;
        let ghost b0 = self.council.budget;
        let ghost target = pay_members(members0, b0, now, per_block);
        let n = self.council.council_members.len();
        proof {
            assert(members0.subrange(0, n as int) =~= members0);
            assert(self.council.council_members@.subrange(0, 0) + pay_members(
                members0,
                self.council.budget,
                now,
                per_block,
            ).0 =~= pay_members(members0, self.council.budget, now, per_block).0);
        }
        let mut i: usize = 0;
        while i < n
            invariant
                i <= n,
                n == members0.len(),
                self.council.council_members@.len() == n,
                forall|j: int|
                    i <= j < n ==> #[trigger] self.council.council_members@[j] == members0[j],
                target == (
                    self.council.council_members@.subrange(0, i as int) + pay_members(
                        members0.subrange(i as int, n as int),
                        self.council.budget,
                        now,
                        per_block,
                    ).0,
                    pay_members(
                        members0.subrange(i as int, n as int),
                        self.council.budget,
                        now,
                        per_block,
                    ).1,
                ),
                self.balances.wf(),
                forall|x: u64, l: LockId|
                    #[trigger] spec_lock(self.balances.accounts@, x, l) == spec_lock(
                        old(self).balances.accounts@,
                        x,
                        l,
                    ),
                forall|x: u64|
                    !crate::council::is_reward_account(members0, x) ==> #[trigger] spec_free(
                        self.balances.accounts@,
                        x,
                    ) == spec_free(old(self).balances.accounts@, x),
                rewards_distinct(members0) ==> forall|j: int|
                    0 <= j < i ==> #[trigger] spec_free(
                        self.balances.accounts@,
                        members0[j].reward_account_id,
                    ) == crate::sat_add(
                        spec_free(old(self).balances.accounts@, members0[j].reward_account_id),
                        (owed_of(members0[j], now, per_block)
                            - self.council.council_members@[j].unpaid_reward) as u64,
                    ),
                rewards_distinct(members0) ==> forall|j: int|
                    i <= j < n ==> #[trigger] spec_free(
                        self.balances.accounts@,
                        members0[j].reward_account_id,
                    ) == spec_free(old(self).balances.accounts@, members0[j].reward_account_id),
                n == 0 ==> self.balances == old(self).balances,
                self.council.stage_update == old(self).council.stage_update,
                self.council.announcement_period_nr == old(self).council.announcement_period_nr,
                self.council.candidates == old(self).council.candidates,
                self.council.next_budget_refill == old(self).council.next_budget_refill,
                self.council.next_reward_payments == old(self).council.next_reward_payments,
                self.referendum == old(self).referendum,
                self.events == old(self).events,
                self.same_infra(*old(self)),
                self.block_number == now,
            decreases n - i,
        {
            let m = self.council.council_members[i];
            let ghost msh = self.council.council_members@;
            let ghost bh = self.council.budget;
            let ghost suf = members0.subrange(i as int, n as int);
            proof {
                assert(suf.len() > 0);
                assert(suf[0] == members0[i as int]);
                assert(suf.drop_first() =~= members0.subrange(i + 1, n as int));
            }
            let elapsed = now - m.last_payment_block;
            let accrued = crate::saturating_mul_u64(per_block, elapsed);
            let owed = m.unpaid_reward.saturating_add(accrued);
            let paid = if self.council.budget >= owed {
                owed
            } else {
                self.council.budget
            };
            self.council.budget = self.council.budget - paid;
            let rec = &mut self.council.council_members[i];
            rec.last_payment_block = now;
            rec.unpaid_reward = owed - paid;
            self.balances.deposit_creating(m.reward_account_id, paid);
            proof {
                assert(crate::council::is_reward_account(members0, m.reward_account_id)) by {
                    assert(members0[i as int].reward_account_id == m.reward_account_id);
                }
                if rewards_distinct(members0) {
                    assert forall|j: int| 0 <= j < i + 1 implies #[trigger] spec_free(
                        self.balances.accounts@,
                        members0[j].reward_account_id,
                    ) == crate::sat_add(
                        spec_free(old(self).balances.accounts@, members0[j].reward_account_id),
                        (owed_of(members0[j], now, per_block)
                            - self.council.council_members@[j].unpaid_reward) as u64,
                    ) by {
                        if j < i {
                            assert(members0[j].reward_account_id != m.reward_account_id);
                        } else {
                            assert(self.council.council_members@[j].unpaid_reward == owed - paid);
                        }
                    }
                    assert forall|j: int| i + 1 <= j < n implies #[trigger] spec_free(
                        self.balances.accounts@,
                        members0[j].reward_account_id,
                    ) == spec_free(
                        old(self).balances.accounts@,
                        members0[j].reward_account_id,
                    ) by {
                        assert(members0[j].reward_account_id != m.reward_account_id);
                    }
                }
                let step = pay_one(members0[i as int], bh, now, per_block);
                assert(owed == owed_of(members0[i as int], now, per_block));
                assert(self.council.council_members@[i as int] == step.0);
                assert(self.council.budget == step.1);
                assert(pay_members(suf, bh, now, per_block).0 == seq![step.0] + pay_members(
                    suf.drop_first(),
                    step.1,
                    now,
                    per_block,
                ).0);
                assert(pay_members(suf, bh, now, per_block).1 == pay_members(
                    suf.drop_first(),
                    step.1,
                    now,
                    per_block,
                ).1);
                assert(self.council.council_members@.subrange(0, i as int) =~= msh.subrange(
                    0,
                    i as int,
                ));
                assert(self.council.council_members@.subrange(0, i + 1) =~= msh.subrange(
                    0,
                    i as int,
                ).push(step.0));
                assert(target.0 =~= self.council.council_members@.subrange(0, i + 1) + pay_members(
                    members0.subrange(i + 1, n as int),
                    self.council.budget,
                    now,
                    per_block,
                ).0);
                assert(target.1 == pay_members(
                    members0.subrange(i + 1, n as int),
                    self.council.budget,
                    now,
                    per_block,
                ).1);
            }
            i = i + 1;
        }
        proof {
            assert(members0.subrange(n as int, n as int).len() == 0);
            assert(self.council.council_members@.subrange(0, n as int) =~= self
                .council
                .council_members@);
            assert(self.council.council_members@ == target.0);
            assert(self.council.budget == target.1);
            crate::council::lemma_pay_members_last(members0, b0, now, per_block);
        }
        self.council.next_reward_payments = now.saturating_add(
            self.settings.elected_member_reward_period,
        );
    }

    /// The council's own stage transitions, evaluated once per tick: ends an
    /// elapsed announcing stage (starting the referendum, or extending the
    /// stage in place when candidates are too few — the cycle never
    /// deadlocks), and ends an elapsed idle stage by re-entering announcing
    /// with the next cycle number.
    pub fn council_stage_tick(&mut self)
        requires
            old(self).wf(),
            old(self).council.announcement_period_nr < u64::MAX,
        ensures
            final(self).wf(),
            ({
                let now = old(self).block_number;
                let su = old(self).council.stage_update;
                let nr = old(self).council.announcement_period_nr;
                match su.stage {
                    CouncilStage::Announcing(a) => {
                        if now - su.changed_at >= old(self).settings.announcing_stage_duration {
                            if a.candidates_count >= old(self).settings.min_candidate_count {
                                &&& final(self).council.stage_update == (CouncilStageUpdate {
                                    stage: CouncilStage::Election(CouncilStageElection {
                                        candidates_count: a.candidates_count,
                                    }),
                                    changed_at: now,
                                })
                                &&& final(self).council.announcement_period_nr == nr
                                &&& final(self).referendum.stage == (ReferendumStage::Voting(
                                    ReferendumStageVoting {
                                        started: now,
                                        winning_target_count: old(self).settings.council_size,
                                        current_cycle_id: nr,
                                    },
                                ))
                            } else {
                                &&& final(self).council.stage_update == (CouncilStageUpdate {
                                    stage: su.stage,
                                    changed_at: now,
                                })
                                &&& final(self).council.announcement_period_nr == nr
                                &&& final(self).referendum == old(self).referendum
                            }
                        } else {
                            &&& final(self).council.stage_update == su
                            &&& final(self).council.announcement_period_nr == nr
                            &&& final(self).referendum == old(self).referendum
                        }
                    },
                    CouncilStage::Election(_) => {
                        &&& final(self).council.stage_update == su
                        &&& final(self).council.announcement_period_nr == nr
                        &&& final(self).referendum == old(self).referendum
                    },
                    CouncilStage::Idle => {
                        if now - su.changed_at >= old(self).settings.idle_stage_duration {
                            &&& final(self).council.stage_update == (CouncilStageUpdate {
                                stage: CouncilStage::Announcing(CouncilStageAnnouncing {
                                    candidates_count: 0,
                                }),
                                changed_at: now,
                            })
                            &&& final(self).council.announcement_period_nr == nr + 1
                            &&& final(self).referendum == old(self).referendum
                        } else {
                            &&& final(self).council.stage_update == su
                            &&& final(self).council.announcement_period_nr == nr
                            &&& final(self).referendum == old(self).referendum
                        }
                    },
                }
            }),
            final(self).referendum.votes == old(self).referendum.votes,
            final(self).council.candidates == old(self).council.candidates,
            final(self).council.council_members == old(self).council.council_members,
            final(self).council.budget == old(self).council.budget,
            final(self).council.next_budget_refill == old(self).council.next_budget_refill,
            final(self).council.next_reward_payments == old(self).council.next_reward_payments,
            final(self).balances == old(self).balances,
            final(self).events == old(self).events,
            final(self).same_infra(*old(self)),
    {
        let ghost w0 = *self;
        let now = self.block_number;
        match self.council.stage_update.stage {
            CouncilStage::Announcing(a) => {
                if now - self.council.stage_update.changed_at
                    >= self.settings.announcing_stage_duration {
                    if a.candidates_count >= self.settings.min_candidate_count {
                        self.council.stage_update = CouncilStageUpdate {
                            stage: CouncilStage::Election(CouncilStageElection {
                                candidates_count: a.candidates_count,
                            }),
                            changed_at: now,
                        };
                        self.referendum.stage = ReferendumStage::Voting(ReferendumStageVoting {
                            started: now,
                            winning_target_count: self.settings.council_size,
                            current_cycle_id: self.council.announcement_period_nr,
                        });
                    } else {
                        self.council.stage_update = CouncilStageUpdate {
                            stage: CouncilStage::Announcing(a),
                            changed_at: now,
                        };
                        proof {
                            assert(self.referendum.stage is Inactive) by {
                                match w0.referendum.stage {
                                    ReferendumStage::Inactive => {}
                                    ReferendumStage::Voting(_) => {
                                        assert(w0.council.stage_update.stage is Election);
                                    }
                                    ReferendumStage::Revealing(_) => {
                                        assert(w0.council.stage_update.stage is Election);
                                    }
                                }
                            }
                        }
                    }
                }
            }
            CouncilStage::Election(_) => {}
            CouncilStage::Idle => {
                if now - self.council.stage_update.changed_at
                    >= self.settings.idle_stage_duration {
                    let nr1 = self.council.announcement_period_nr + 1;
                    self.council.stage_update = CouncilStageUpdate {
                        stage: CouncilStage::Announcing(CouncilStageAnnouncing {
                            candidates_count: 0,
                        }),
                        changed_at: now,
                    };
                    self.council.announcement_period_nr = nr1;
                    proof {
                        assert(active_count(self.council.candidates@, nr1) == 0) by {
                            assert(forall|i: int|
                                0 <= i < self.council.candidates@.len()
                                    ==> #[trigger] self.council.candidates@[i].candidate.cycle_id
                                    != nr1);
                            lemma_active_count_none(self.council.candidates@, nr1);
                        }
                        assert(self.referendum.stage is Inactive) by {
                            match w0.referendum.stage {
                                ReferendumStage::Inactive => {}
                                ReferendumStage::Voting(_) => {
                                    assert(w0.council.stage_update.stage is Election);
                                }
                                ReferendumStage::Revealing(_) => {
                                    assert(w0.council.stage_update.stage is Election);
                                }
                            }
                        }
                    }
                }
            }
        }
    }

    /// The referendum's stage transitions, evaluated once per tick: an
    /// elapsed voting stage starts revealing with an empty winners list; an
    /// elapsed revealing stage delivers the winners to the council and goes
    /// inactive.
    pub fn referendum_tick(&mut self)
        requires
            old(self).wf(),
        ensures
            final(self).wf(),
            ({
                let now = old(self).block_number;
                match old(self).referendum.stage {
                    ReferendumStage::Inactive => *final(self) == *old(self),
                    ReferendumStage::Voting(v) => {
                        if now - v.started >= old(self).settings.voting_stage_duration {
                            &&& (final(self).referendum.stage matches ReferendumStage::Revealing(
                                r,
                            ) && {
                                &&& r.started == now
                                &&& r.winning_target_count == v.winning_target_count
                                &&& r.current_cycle_id == v.current_cycle_id
                                &&& r.intermediate_winners@.len() == 0
                            })
                            &&& final(self).referendum.votes == old(self).referendum.votes
                            &&& final(self).council == old(self).council
                            &&& final(self).balances == old(self).balances
                            &&& final(self).events == old(self).events
                            &&& final(self).same_infra(*old(self))
                        } else {
                            *final(self) == *old(self)
                        }
                    },
                    ReferendumStage::Revealing(rv) => {
                        if now - rv.started >= old(self).settings.reveal_stage_duration {
                            results_delivered(*old(self), winners_prefix(rv), *final(self))
                        } else {
                            *final(self) == *old(self)
                        }
                    },
                }
            }),
    {
        let ghost w0 = *self;
        let now = self.block_number;
        let voting_done: Option<ReferendumStageVoting> = match &self.referendum.stage {
            ReferendumStage::Voting(v) => {
                if now - v.started >= self.settings.voting_stage_duration {
                    Some(*v)
                } else {
                    None
                }
            }
            _ => None,
        };
        match voting_done {
            Some(v) => {
                self.referendum.stage = ReferendumStage::Revealing(ReferendumStageRevealing {
                    started: now,
                    winning_target_count: v.winning_target_count,
                    intermediate_winners: Vec::new(),
                    current_cycle_id: v.current_cycle_id,
                });
                return;
            }
            None => {}
        }
        let reveal_winners: Option<Vec<OptionResult>> = match &self.referendum.stage {
            ReferendumStage::Revealing(rv) => {
                if now - rv.started >= self.settings.reveal_stage_duration {
                    let ghost iw = rv.intermediate_winners@;
                    let len = rv.intermediate_winners.len();
                    let k = if rv.winning_target_count < len as u64 {
                        rv.winning_target_count as usize
                    } else {
                        len
                    };
                    let mut ws: Vec<OptionResult> = Vec::new();
                    let mut i: usize = 0;
                    while i < k
                        invariant
                            i <= k,
                            k <= iw.len(),
                            rv.intermediate_winners@ == iw,
                            ws@ == iw.subrange(0, i as int),
                        decreases k - i,
                    {
                        ws.push(rv.intermediate_winners[i]);
                        proof {
                            assert(ws@ =~= iw.subrange(0, i + 1));
                        }
                        i = i + 1;
                    }
                    proof {
                        assert(ws@ == iw.subrange(0, k as int));
                        assert(ws@ =~= winners_prefix(w0.referendum.stage->Revealing_0));
                    }
                    Some(ws)
                } else {
                    None
                }
            }
            _ => None,
        };
        match reveal_winners {
            Some(ws) => {
                let ghost rv0 = w0.referendum.stage->Revealing_0;
                let ghost wp = winners_prefix(rv0);
                proof {
                    assert(ws@ == wp);
                    let iw = rv0.intermediate_winners@;
                    assert(winners_unique(ws@)) by {
                        assert forall|x: int, y: int| 0 <= x < y < ws@.len() implies ws@[x].option_id
                            != ws@[y].option_id by {
                            assert(ws@[x] == iw[x] && ws@[y] == iw[y]);
                        }
                    }
                    assert(w0.winners_resolvable(ws@)) by {
                        assert forall|j: int| 0 <= j < ws@.len() implies is_active_candidate(
                            w0.council.candidates@,
                            (#[trigger] ws@[j]).option_id,
                            w0.council.announcement_period_nr,
                        ) by {
                            assert(ws@[j] == iw[j]);
                        }
                    }
                }
                let ok = self.recieve_referendum_results(&ws);
                proof {
                    assert(ok);
                    assert(results_delivered(w0, wp, *self)) by {
                        assert(self.council.council_members@ =~= Seq::new(
                            wp.len(),
                            |i: int|
                                member_of(
                                    spec_candidate(w0.council.candidates@, wp[i].option_id),
                                    wp[i].option_id,
                                    w0.block_number,
                                ),
                        ));
                    }
                }
            }
            None => {}
        }
    }

    /// One block-finalization tick: the council's stage machine, then the
    /// referendum's (which may deliver results), then the budget refill,
    /// then the reward round — so a refill landing on a reward block funds
    /// that very round.
    pub fn on_finalize(&mut self)
        requires
            old(self).wf(),
            old(self).council.announcement_period_nr < u64::MAX,
            old(self).block_number < u64::MAX,
        ensures
            final(self).wf(),
            tick_effects(*old(self), *final(self)),
    {
        let ghost pre = *self;
        self.council_stage_tick();
        let ghost w1 = *self;
        self.referendum_tick();
        let ghost w2 = *self;
        proof {
            assert(w2.council.council_members@ == mid_members(pre)) by {
                if delivery_due(pre) {
                    assert(pre.council.stage_update.stage is Election);
                    assert(w1.council == pre.council && w1.referendum == pre.referendum);
                } else {
                    match pre.referendum.stage {
                        ReferendumStage::Inactive => {}
                        ReferendumStage::Voting(_) => {}
                        ReferendumStage::Revealing(_) => {}
                    }
                }
            }
            assert(stage_step_ok(pre, w2));
            assert(w2.council.budget == pre.council.budget);
            assert(w2.council.next_budget_refill == pre.council.next_budget_refill);
            if delivery_due(pre) {
                assert(w2.council.next_reward_payments == crate::sat_add(
                    pre.block_number,
                    pre.settings.elected_member_reward_period,
                ));
                assert(pre.block_number < w2.council.next_reward_payments);
            } else {
                assert(w2.council.next_reward_payments == pre.council.next_reward_payments);
                assert(w2.balances == pre.balances);
            }
            assert(w2.block_number == pre.block_number);
            assert forall|x: u64| #[trigger] spec_free(w2.balances.accounts@, x) == spec_free(
                pre.balances.accounts@,
                x,
            ) by {}
        }
        self.refill_budget();
        let ghost w3 = *self;
        self.pay_rewards();
        proof {
            assert(stage_step_ok(pre, *self));
            assert(w3.balances == w2.balances);
            assert(w3.council.council_members@ == mid_members(pre));
            assert(w3.council.budget == refilled_budget(pre));
            assert forall|x: u64| #[trigger] spec_free(w3.balances.accounts@, x) == spec_free(
                pre.balances.accounts@,
                x,
            ) by {}
            if reward_due(pre) && !delivery_due(pre) && crate::council::rewards_distinct(
                mid_members(pre),
            ) {
                assert forall|j: int| 0 <= j < mid_members(pre).len() implies #[trigger] spec_free(
                    self.balances.accounts@,
                    mid_members(pre)[j].reward_account_id,
                ) == crate::sat_add(
                    spec_free(pre.balances.accounts@, mid_members(pre)[j].reward_account_id),
                    (owed_of(
                        mid_members(pre)[j],
                        pre.block_number,
                        pre.settings.elected_member_reward_per_block,
                    ) - pay_members(
                        mid_members(pre),
                        refilled_budget(pre),
                        pre.block_number,
                        pre.settings.elected_member_reward_per_block,
                    ).0[j].unpaid_reward) as u64,
                ) by {
                    assert(spec_free(
                        self.balances.accounts@,
                        w3.council.council_members@[j].reward_account_id,
                    ) == crate::sat_add(
                        spec_free(
                            w3.balances.accounts@,
                            w3.council.council_members@[j].reward_account_id,
                        ),
                        (owed_of(
                            w3.council.council_members@[j],
                            w3.block_number,
                            w3.settings.elected_member_reward_per_block,
                        ) - pay_members(
                            w3.council.council_members@,
                            w3.council.budget,
                            w3.block_number,
                            w3.settings.elected_member_reward_per_block,
                        ).0[j].unpaid_reward) as u64,
                    ));
                }
            }
            assert(tick_effects(pre, *self));
        }
    }

    /// Advances the chain by `increase` blocks, finalizing each one in
    /// turn: this is what drives every stage transition, refill and reward
    /// round.  The final state is exactly what `increase` successive
    /// finalized blocks make of the initial one ([`advances_by_ticks`]): no
    /// tick is skipped.
    pub fn increase_block_number(&mut self, increase: u64)
        requires
            old(self).wf(),
            old(self).block_number + increase <= u64::MAX,
            old(self).council.announcement_period_nr + increase < u64::MAX,
        ensures
            final(self).wf(),
            final(self).block_number == old(self).block_number + increase,
            final(self).council.announcement_period_nr <= old(
                self,
            ).council.announcement_period_nr + increase,
            final(self).same_settings(*old(self)),
            advances_by_ticks(*old(self), *final(self), increase),
    {
        let ghost mut steps: Seq<World> = seq![*self];
        let mut i: u64 = 0;
        while i < increase
            invariant
                i <= increase,
                self.wf(),
                self.block_number == old(self).block_number + i,
                self.council.announcement_period_nr
                    <= old(self).council.announcement_period_nr + i,
                self.settings == old(self).settings,
                self.is_unstake_enabled == old(self).is_unstake_enabled,
                self.is_option_id_valid == old(self).is_option_id_valid,
                old(self).block_number + increase <= u64::MAX,
                old(self).council.announcement_period_nr + increase < u64::MAX,
                chain_of_ticks(steps, *old(self), *self, i),
            decreases increase - i,
        {
            let ghost before = *self;
            self.on_finalize();
            let ghost mid = *self;
            proof {
                assert(self.council.announcement_period_nr
                    <= before.council.announcement_period_nr + 1) by {
                    assert(stage_step_ok(before, *self));
                }
            }
            self.block_number = self.block_number + 1;
            proof {
                assert((World {
                    block_number: before.block_number,
                    ..(*self)
                }) == mid);
                assert(finalized_tick(before, *self));
                let prev = steps;
                steps = steps.push(*self);
                assert(steps[i + 1] == *self);
                assert(forall|j: int| 0 <= j <= i ==> steps[j] == prev[j]);
                assert(chain_of_ticks(steps, *old(self), *self, (i + 1) as u64)) by {
                    assert forall|j: int| 0 <= j < i + 1 implies #[trigger] finalized_tick(
                        steps[j],
                        steps[j + 1],
                    ) by {
                        if j < i {
                            assert(finalized_tick(prev[j], prev[j + 1]));
                        }
                    }
                }
            }
            i = i + 1;
        }
        proof {
            assert(chain_of_ticks(steps, *old(self), *self, increase));
        }
    }

    /// Configuration and switches are never touched by a tick.
    pub open spec fn same_settings(self, o: World) -> bool {
        &&& self.settings == o.settings
        &&& self.is_unstake_enabled == o.is_unstake_enabled
        &&& self.is_option_id_valid == o.is_option_id_valid
    }
}

} // verus!
