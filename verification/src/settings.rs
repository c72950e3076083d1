//! Immutable configuration of the council protocol: council size, stake
//! thresholds, stage durations and the budget/reward parameters, together
//! with the derived election and cycle durations.

use vstd::prelude::*;

verus! {

/// Number of candidates beyond the council size needed before an election starts.
pub const MIN_NUMBER_OF_EXTRA_CANDIDATES: u64 = 1;
/// Blocks the announcing stage lasts before an election can start.
pub const ANNOUNCING_PERIOD_DURATION: u64 = 15;
/// Blocks the idle stage lasts before the next announcing stage starts.
pub const IDLE_PERIOD_DURATION: u64 = 27;
/// Number of seats on the council.
pub const COUNCIL_SIZE: u64 = 3;
/// Minimum stake a candidacy announcement must lock.
pub const MIN_CANDIDATE_STAKE: u64 = 11000;
/// Reward owed to each elected member for every elapsed block.
pub const ELECTED_MEMBER_REWARD_PER_BLOCK: u64 = 100;
/// Blocks between two reward payment rounds.
pub const ELECTED_MEMBER_REWARD_PERIOD: u64 = 10;
/// Amount added to the budget at each refill.
pub const BUDGET_REFILL_AMOUNT: u64 = 1000;
/// Blocks between two budget refills.
pub const BUDGET_REFILL_PERIOD: u64 = 1000;
/// Blocks the referendum's voting stage lasts.
pub const VOTE_STAGE_DURATION: u64 = 19;
/// Blocks the referendum's revealing stage lasts.
pub const REVEAL_STAGE_DURATION: u64 = 23;
/// Minimum stake a vote must lock.
pub const MINIMUM_VOTING_STAKE: u64 = 10000;
/// Longest salt, in bytes, accepted when a vote is revealed.
pub const MAX_SALT_LENGTH: u64 = 32;

/// The configuration the council core runs under, constructed once and passed
/// by reference into every operation.
#[derive(Clone, Copy, PartialEq, Eq, Structural, Debug)]
pub struct CouncilSettings {
    pub council_size: u64,
    pub min_candidate_count: u64,
    pub min_candidate_stake: u64,
    pub announcing_stage_duration: u64,
    pub voting_stage_duration: u64,
    pub reveal_stage_duration: u64,
    pub idle_stage_duration: u64,
    pub election_duration: u64,
    pub cycle_duration: u64,
    pub budget_refill_amount: u64,
    pub budget_refill_period: u64,
    pub elected_member_reward_per_block: u64,
    pub elected_member_reward_period: u64,
    pub min_voting_stake: u64,
    pub max_salt_length: u64,
}

/// The configuration [`CouncilSettings::extract_settings`] returns.
pub open spec fn test_settings() -> CouncilSettings {
    CouncilSettings {
        council_size: COUNCIL_SIZE,
        min_candidate_count: (COUNCIL_SIZE + MIN_NUMBER_OF_EXTRA_CANDIDATES) as u64,
        min_candidate_stake: MIN_CANDIDATE_STAKE,
        announcing_stage_duration: ANNOUNCING_PERIOD_DURATION,
        voting_stage_duration: VOTE_STAGE_DURATION,
        reveal_stage_duration: REVEAL_STAGE_DURATION,
        idle_stage_duration: IDLE_PERIOD_DURATION,
        election_duration: (ANNOUNCING_PERIOD_DURATION + VOTE_STAGE_DURATION
            + REVEAL_STAGE_DURATION) as u64,
        cycle_duration: (ANNOUNCING_PERIOD_DURATION + VOTE_STAGE_DURATION + REVEAL_STAGE_DURATION
            + IDLE_PERIOD_DURATION) as u64,
        budget_refill_amount: BUDGET_REFILL_AMOUNT,
        budget_refill_period: BUDGET_REFILL_PERIOD,
        elected_member_reward_per_block: ELECTED_MEMBER_REWARD_PER_BLOCK,
        elected_member_reward_period: ELECTED_MEMBER_REWARD_PERIOD,
        min_voting_stake: MINIMUM_VOTING_STAKE,
        max_salt_length: MAX_SALT_LENGTH,
    }
}

impl CouncilSettings {
    /// Internal consistency of a configuration: the derived durations really
    /// are the sums of the stage durations (stated over `int`, so the sums are
    /// also known not to overflow), and the candidate floor covers the council.
    pub open spec fn wf(self) -> bool {
        &&& self.election_duration == self.announcing_stage_duration + self.voting_stage_duration
            + self.reveal_stage_duration
        &&& self.cycle_duration == self.election_duration + self.idle_stage_duration
        &&& self.min_candidate_count >= self.council_size
        &&& self.council_size >= 1
        &&& self.announcing_stage_duration >= 1
        &&& self.voting_stage_duration >= 1
        &&& self.reveal_stage_duration >= 1
        &&& self.idle_stage_duration >= 1
        &&& self.elected_member_reward_period >= 1
    }

    /// The configuration every test runs under, derived from the chain
    /// parameters above.
    pub fn extract_settings() -> (s: CouncilSettings)
        ensures
            s.wf(),
            s == test_settings(),
            s.council_size == COUNCIL_SIZE,
            s.min_candidate_count == COUNCIL_SIZE + MIN_NUMBER_OF_EXTRA_CANDIDATES,
            s.min_candidate_stake == MIN_CANDIDATE_STAKE,
            s.announcing_stage_duration == ANNOUNCING_PERIOD_DURATION,
            s.voting_stage_duration == VOTE_STAGE_DURATION,
            s.reveal_stage_duration == REVEAL_STAGE_DURATION,
            s.idle_stage_duration == IDLE_PERIOD_DURATION,
            s.election_duration == ANNOUNCING_PERIOD_DURATION + VOTE_STAGE_DURATION
                + REVEAL_STAGE_DURATION,
            s.cycle_duration == ANNOUNCING_PERIOD_DURATION + VOTE_STAGE_DURATION
                + REVEAL_STAGE_DURATION + IDLE_PERIOD_DURATION,
            s.budget_refill_amount == BUDGET_REFILL_AMOUNT,
            s.budget_refill_period == BUDGET_REFILL_PERIOD,
            s.elected_member_reward_per_block == ELECTED_MEMBER_REWARD_PER_BLOCK,
            s.elected_member_reward_period == ELECTED_MEMBER_REWARD_PERIOD,
            s.min_voting_stake == MINIMUM_VOTING_STAKE,
            s.max_salt_length == MAX_SALT_LENGTH,
    {
        let announcing_stage_duration = ANNOUNCING_PERIOD_DURATION;
        let voting_stage_duration = VOTE_STAGE_DURATION;
        let reveal_stage_duration = REVEAL_STAGE_DURATION;
        let idle_stage_duration = IDLE_PERIOD_DURATION;
        let election_duration = announcing_stage_duration + voting_stage_duration
            + reveal_stage_duration;
        CouncilSettings {
            council_size: COUNCIL_SIZE,
            min_candidate_count: COUNCIL_SIZE + MIN_NUMBER_OF_EXTRA_CANDIDATES,
            min_candidate_stake: MIN_CANDIDATE_STAKE,
            announcing_stage_duration,
            voting_stage_duration,
            reveal_stage_duration,
            idle_stage_duration,
            election_duration,
            cycle_duration: election_duration + idle_stage_duration,
            budget_refill_amount: BUDGET_REFILL_AMOUNT,
            budget_refill_period: BUDGET_REFILL_PERIOD,
            elected_member_reward_per_block: ELECTED_MEMBER_REWARD_PER_BLOCK,
            elected_member_reward_period: ELECTED_MEMBER_REWARD_PERIOD,
            min_voting_stake: MINIMUM_VOTING_STAKE,
            max_salt_length: MAX_SALT_LENGTH,
        }
    }
}

} // verus!
