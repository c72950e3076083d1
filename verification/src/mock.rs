//! The test harness around the council core: deterministic generators for
//! candidates and voters, a genesis configuration, and checked wrappers for
//! every operation, mirroring how a runtime would drive the protocol.

use vstd::prelude::*;

use crate::balances::LockId;
use crate::council::{
    active_count, candidates_wf, has_candidate, is_active_candidate, pay_members, spec_candidate,
    Candidate, CandidateRecord, CouncilMember, CouncilStage, CouncilStageAnnouncing,
    CouncilStageElection, CouncilStageUpdate, CouncilState, Error, RawEvent,
};
use crate::hashing::{clone_bytes, spec_commitment, spec_note_hash};
use crate::referendum::{
    spec_vote_power, CastVote, OptionResult, ReferendumStage, ReferendumState,
};
use crate::settings::{
    CouncilSettings, BUDGET_REFILL_PERIOD, ELECTED_MEMBER_REWARD_PERIOD, MINIMUM_VOTING_STAKE,
};
use crate::world::{results_delivered, OriginType, World};

pub use crate::referendum::{POWER_VOTE_STRENGTH, USER_REGULAR_POWER_VOTES};

verus! {

/// First account identifier handed to generated voters.
pub const VOTER_BASE_ID: u64 = 4000;
/// Distance between voter and candidate account identifiers.
pub const VOTER_CANDIDATE_OFFSET: u64 = 1000;
/// First account identifier handed to generated candidates.
pub const CANDIDATE_BASE_ID: u64 = VOTER_BASE_ID + VOTER_CANDIDATE_OFFSET;
/// A membership identifier no generator ever hands out.
pub const INVALID_USER_MEMBER: u64 = 9999;
/// Generated candidates are funded with this multiple of their stake, so one
/// account can stake repeatedly.
pub const TOPUP_MULTIPLIER: u64 = 10;

/// The state the protocol starts from.
#[derive(Clone, Debug)]
pub struct GenesisConfig {
    pub stage: CouncilStageUpdate,
    pub council_members: Vec<CouncilMember>,
    pub candidates: Vec<CandidateRecord>,
    pub announcement_period_nr: u64,
    pub budget: u64,
    pub next_reward_payments: u64,
    pub next_budget_refill: u64,
}

/// A genesis configuration the protocol invariant accepts: consistent
/// registries, counters starting at zero, and no election mid-flight.
pub open spec fn genesis_wf(config: GenesisConfig) -> bool {
    &&& candidates_wf(config.candidates@)
    &&& config.stage.changed_at == 0
    &&& forall|i: int|
        0 <= i < config.candidates@.len() ==> (#[trigger] config.candidates@[i]).candidate.cycle_id
            <= config.announcement_period_nr
    &&& forall|i: int|
        0 <= i < config.council_members@.len()
            ==> (#[trigger] config.council_members@[i]).last_payment_block == 0
    &&& match config.stage.stage {
        CouncilStage::Announcing(a) => a.candidates_count == active_count(
            config.candidates@,
            config.announcement_period_nr,
        ),
        CouncilStage::Election(_) => false,
        CouncilStage::Idle => true,
    }
}

/// The genesis configuration the tests start from: an empty protocol with
/// the first refill a full period away.
pub fn default_genesis_config() -> (r: GenesisConfig)
    ensures
        genesis_wf(r),
        r.stage == (CouncilStageUpdate {
            stage: CouncilStage::Announcing(CouncilStageAnnouncing { candidates_count: 0 }),
            changed_at: 0u64,
        }),
        r.council_members@.len() == 0,
        r.candidates@.len() == 0,
        r.announcement_period_nr == 0,
        r.budget == 0,
        r.next_reward_payments == 0,
        r.next_budget_refill == BUDGET_REFILL_PERIOD,
{
    GenesisConfig {
        stage: CouncilStageUpdate::new_default(),
        council_members: Vec::new(),
        candidates: Vec::new(),
        announcement_period_nr: 0,
        budget: 0,
        next_reward_payments: 0,
        next_budget_refill: BUDGET_REFILL_PERIOD,
    }
}

/// Builds the world a test runs in: the genesis state under the test
/// configuration, advanced past the genesis block.
pub fn build_test_externalities(config: GenesisConfig) -> (r: World)
    requires
        genesis_wf(config),
        config.announcement_period_nr < u64::MAX - 1,
    ensures
        r.wf(),
        r.block_number == 1,
        r.settings == crate::settings::test_settings(),
        r.council.stage_update == config.stage,
        r.council.announcement_period_nr == config.announcement_period_nr,
        r.council.candidates == config.candidates,
        r.referendum.stage is Inactive,
        r.referendum.votes@.len() == 0,
        r.events@.len() == 0,
        r.is_unstake_enabled,
        r.is_option_id_valid,
        config.council_members@.len() == 0 ==> r.council.council_members@.len() == 0,
        config.next_budget_refill > 0 ==> {
            &&& r.council.budget == (if config.next_reward_payments == 0 {
                pay_members(
                    config.council_members@,
                    config.budget,
                    0u64,
                    crate::settings::test_settings().elected_member_reward_per_block,
                ).1
            } else {
                config.budget
            })
            &&& r.council.next_budget_refill == config.next_budget_refill
        },
        config.next_reward_payments == 0 ==> r.council.next_reward_payments
            == ELECTED_MEMBER_REWARD_PERIOD,
        config.next_reward_payments > 0 ==> r.council.council_members@
            == config.council_members@ && r.council.next_reward_payments
            == config.next_reward_payments,
        // The ledger starts empty: nothing is funded and nothing is locked,
        // except that a genesis-due reward round may have touched the
        // members' reward accounts.
        config.council_members@.len() == 0 || config.next_reward_payments > 0
            ==> r.balances.accounts@.len() == 0,
        forall|a: u64, l: crate::balances::LockId|
            #[trigger] crate::balances::spec_lock(r.balances.accounts@, a, l) == 0,
        forall|a: u64|
            !crate::council::is_reward_account(config.council_members@, a)
                ==> #[trigger] crate::balances::spec_free(r.balances.accounts@, a) == 0,
{
    let settings = CouncilSettings::extract_settings();
    let mut w = World {
        settings,
        block_number: 0,
        council: CouncilState {
            stage_update: config.stage,
            announcement_period_nr: config.announcement_period_nr,
            candidates: config.candidates,
            council_members: config.council_members,
            budget: config.budget,
            next_budget_refill: config.next_budget_refill,
            next_reward_payments: config.next_reward_payments,
        },
        referendum: ReferendumState { stage: ReferendumStage::Inactive, votes: Vec::new() },
        balances: crate::balances::Balances::new(),
        events: Vec::new(),
        is_unstake_enabled: true,
        is_option_id_valid: true,
    };
    // Leave the genesis block behind, as a chain does before accepting calls.
    w.on_finalize();
    w.block_number = 1;
    proof {
        if config.next_reward_payments == 0 {
            crate::council::lemma_pay_members_last(
                config.council_members@,
                config.budget,
                0u64,
                settings.elected_member_reward_per_block,
            );
        }
        assert(forall|a: u64, l: crate::balances::LockId|
            #[trigger] crate::balances::spec_lock(Seq::<crate::balances::AccountRecord>::empty(), a, l)
                == 0);
        assert(forall|a: u64|
            #[trigger] crate::balances::spec_free(Seq::<crate::balances::AccountRecord>::empty(), a)
                == 0);
    }
    w
}

/// The runtime seam between the referendum engine and the council: the
/// callbacks the engine consults, and the feature switches the tests flip.
#[derive(Clone, PartialEq, Eq, Structural, Debug)]
pub struct Runtime;

impl Runtime {
    /// Flips the switch that makes every option id invalid, exercising the
    /// engine's rejection path.
    pub fn _feature_option_id_valid(w: &mut World, is_valid: bool)
        requires
            old(w).wf(),
        ensures
            final(w).wf(),
            final(w).is_option_id_valid == is_valid,
            final(w).council == old(w).council,
            final(w).referendum == old(w).referendum,
            final(w).balances == old(w).balances,
            final(w).events == old(w).events,
            final(w).block_number == old(w).block_number,
            final(w).settings == old(w).settings,
            final(w).is_unstake_enabled == old(w).is_unstake_enabled,
    {
        w.is_option_id_valid = is_valid;
    }

    /// The vote-power weighting: stake, amplified tenfold for the
    /// power-voting account.
    pub fn calculate_vote_power(account_id: u64, stake: u64) -> (r: u64)
        ensures
            r == spec_vote_power(account_id, stake),
    {
        crate::referendum::calculate_vote_power_of(account_id, stake)
    }

    /// Whether the engine may release a vote's stake: the feature switch,
    /// then the council's veto on unresolved cycles.
    pub fn can_unlock_vote_stake(w: &World, vote: &CastVote) -> (r: bool)
        ensures
            r == (w.is_unstake_enabled && w.spec_can_unlock_vote_stake(vote.cycle_id)),
    {
        if !w.is_unstake_enabled {
            return false;
        }
        let is_idle = match w.council.stage_update.stage {
            CouncilStage::Idle => true,
            _ => false,
        };
        vote.cycle_id != w.council.announcement_period_nr || is_idle
    }

    /// Hands the engine's winners to the council.
    pub fn process_results(w: &mut World, winners: &Vec<OptionResult>) -> (r: bool)
        requires
            old(w).wf(),
            old(w).referendum.stage is Revealing,
        ensures
            final(w).wf(),
            r == (crate::referendum::winners_unique(winners@) && old(w).winners_resolvable(
                winners@,
            )),
            !r ==> *final(w) == *old(w),
            r ==> results_delivered(*old(w), winners@, *final(w)),
    {
        let ok = w.recieve_referendum_results(winners);
        proof {
            if ok {
                assert(results_delivered(*old(w), winners@, *w));
            }
        }
        ok
    }

    /// The engine's validity query: the feature switch, then whether the
    /// option is an active candidacy.
    pub fn is_valid_option_id(w: &World, option_index: u64) -> (r: bool)
        requires
            w.wf(),
        ensures
            r == (w.is_option_id_valid && w.spec_is_valid_candidate_id(option_index)),
    {
        if !w.is_option_id_valid {
            return false;
        }
        w.is_valid_candidate_id(option_index)
    }

    /// The engine's tally query, answered from the candidate record.
    pub fn get_option_power(w: &World, option_id: u64) -> (r: u64)
        requires
            w.wf(),
        ensures
            r == w.spec_option_power(option_id),
    {
        w.get_option_power(option_id)
    }
}

/// A generated candidate: the origin it announces under, its accounts, and
/// the record its announcement creates.
#[derive(Clone, Debug)]
pub struct CandidateInfo {
    pub origin: OriginType,
    pub account_id: u64,
    pub membership_id: u64,
    pub candidate: Candidate,
}

/// A generated voter: the origin it votes under, its commitment and the
/// salt and option that reveal it.
#[derive(Clone, Debug)]
pub struct VoterInfo {
    pub origin: OriginType,
    pub account_id: u64,
    pub commitment: Vec<u8>,
    pub salt: Vec<u8>,
    pub vote_for: u64,
    pub stake: u64,
}

/// Where a simulated cycle deliberately stops, to examine an intermediate
/// state.
#[derive(Clone, Copy, PartialEq, Eq, Structural, Debug)]
pub enum CouncilCycleInterrupt {
    BeforeCandidatesAnnounce,
    AfterCandidatesAnnounce,
    BeforeVoting,
    AfterVoting,
    BeforeRevealing,
    AfterRevealing,
}

/// Everything one simulated election cycle runs with and checks against.
#[derive(Clone, Debug)]
pub struct CouncilCycleParams {
    pub council_settings: CouncilSettings,
    pub cycle_start_block_number: u64,
    /// The members seated when the cycle starts.
    pub expected_initial_council_members: Vec<CouncilMember>,
    /// The members seated when the cycle finishes.
    pub expected_final_council_members: Vec<CouncilMember>,
    /// The candidates that announce during the cycle.
    pub candidates_announcing: Vec<CandidateInfo>,
    /// The candidates expected once announcing is over.
    pub expected_candidates: Vec<Candidate>,
    /// The voters that take part in the referendum.
    pub voters: Vec<VoterInfo>,
    /// Where to stop the cycle, if anywhere.
    pub interrupt_point: Option<CouncilCycleInterrupt>,
}

/// The generated full cycle's vote distribution, by candidate index: four
/// votes for candidate 3, three for 0, two for 1, one for 2.
pub open spec fn vote_targets() -> Seq<u64> {
    seq![3u64, 3u64, 3u64, 3u64, 0u64, 0u64, 0u64, 1u64, 1u64, 2u64]
}

/// The account of the generated cycle's seat number `j`: candidate 3, then
/// 0, then 1.
pub open spec fn expected_winner_account(users_offset: u64, j: int) -> u64 {
    if j == 0 {
        (CANDIDATE_BASE_ID + users_offset + 3) as u64
    } else if j == 1 {
        (CANDIDATE_BASE_ID + users_offset) as u64
    } else {
        (CANDIDATE_BASE_ID + users_offset + 1) as u64
    }
}

/// Deterministic generators for the accounts, candidates and voters a test
/// drives the protocol with.
pub struct InstanceMockUtils;

impl InstanceMockUtils {
    /// The origin a generated participant calls under.
    pub fn mock_origin(origin: OriginType) -> (r: OriginType)
        ensures
            r == origin,
    {
        origin
    }

    /// Advances the chain by `increase` blocks, finalizing each.
    pub fn increase_block_number(w: &mut World, increase: u64)
        requires
            old(w).wf(),
            old(w).block_number + increase <= u64::MAX,
            old(w).council.announcement_period_nr + increase < u64::MAX,
        ensures
            final(w).wf(),
            final(w).block_number == old(w).block_number + increase,
            final(w).council.announcement_period_nr <= old(w).council.announcement_period_nr
                + increase,
            final(w).same_settings(*old(w)),
    {
        w.increase_block_number(increase);
    }

    /// Funds an account so it can stake.
    pub fn topup_account(w: &mut World, account_id: u64, amount: u64)
        requires
            old(w).wf(),
        ensures
            final(w).wf(),
            crate::balances::spec_free(final(w).balances.accounts@, account_id) == crate::sat_add(
                crate::balances::spec_free(old(w).balances.accounts@, account_id),
                amount,
            ),
            forall|a: u64|
                a != account_id ==> #[trigger] crate::balances::spec_free(
                    final(w).balances.accounts@,
                    a,
                ) == crate::balances::spec_free(old(w).balances.accounts@, a),
            forall|a: u64, l: LockId|
                #[trigger] crate::balances::spec_lock(final(w).balances.accounts@, a, l)
                    == crate::balances::spec_lock(old(w).balances.accounts@, a, l),
            final(w).council == old(w).council,
            final(w).referendum == old(w).referendum,
            final(w).events == old(w).events,
            final(w).council.announcement_period_nr == old(w).council.announcement_period_nr,
            final(w).block_number == old(w).block_number,
            final(w).same_settings(*old(w)),
    {
        w.balances.deposit_creating(account_id, amount);
    }

    /// Generates candidate number `index`: a funded account whose identity
    /// doubles as membership, staking and reward account.
    pub fn generate_candidate(w: &mut World, index: u64, stake: u64) -> (r: CandidateInfo)
        requires
            old(w).wf(),
            CANDIDATE_BASE_ID + index <= u64::MAX,
        ensures
            final(w).wf(),
            r.account_id == CANDIDATE_BASE_ID + index,
            r.membership_id == r.account_id,
            r.origin == OriginType::Signed(r.account_id),
            r.candidate.staking_account_id == r.account_id,
            r.candidate.reward_account_id == r.account_id,
            r.candidate.cycle_id == old(w).council.announcement_period_nr,
            r.candidate.stake == stake,
            r.candidate.vote_power == 0,
            r.candidate.note_hash is None,
            crate::balances::spec_free(final(w).balances.accounts@, r.account_id)
                == crate::sat_add(
                crate::balances::spec_free(old(w).balances.accounts@, r.account_id),
                crate::sat_mul(stake, TOPUP_MULTIPLIER),
            ),
            forall|a: u64|
                a != r.account_id ==> #[trigger] crate::balances::spec_free(
                    final(w).balances.accounts@,
                    a,
                ) == crate::balances::spec_free(old(w).balances.accounts@, a),
            forall|a: u64, l: LockId|
                #[trigger] crate::balances::spec_lock(final(w).balances.accounts@, a, l)
                    == crate::balances::spec_lock(old(w).balances.accounts@, a, l),
            final(w).council == old(w).council,
            final(w).referendum == old(w).referendum,
            final(w).events == old(w).events,
            final(w).council.announcement_period_nr == old(w).council.announcement_period_nr,
            final(w).block_number == old(w).block_number,
            final(w).same_settings(*old(w)),
    {
        let account_id = CANDIDATE_BASE_ID + index;
        let candidate = Candidate {
            staking_account_id: account_id,
            reward_account_id: account_id,
            cycle_id: w.council.announcement_period_nr,
            stake,
            vote_power: 0,
            note_hash: None,
        };
        Self::topup_account(w, account_id, crate::saturating_mul_u64(stake, TOPUP_MULTIPLIER));
        CandidateInfo { origin: OriginType::Signed(account_id), account_id, membership_id: account_id, candidate }
    }

    /// Generates voter number `index`: a funded account with a fresh salt
    /// and the commitment that hides its chosen option.
    pub fn generate_voter(w: &mut World, index: u64, stake: u64, vote_for_index: u64, cycle_id: u64)
        -> (r: VoterInfo)
        requires
            old(w).wf(),
            VOTER_BASE_ID + index <= u64::MAX,
        ensures
            final(w).wf(),
            r.account_id == VOTER_BASE_ID + index,
            r.origin == OriginType::Signed(r.account_id),
            r.vote_for == vote_for_index,
            r.stake == stake,
            r.salt@.len() == 8,
            r.commitment@ == spec_commitment(r.account_id, r.salt@, cycle_id, vote_for_index),
            crate::balances::spec_free(final(w).balances.accounts@, r.account_id)
                == crate::sat_add(
                crate::balances::spec_free(old(w).balances.accounts@, r.account_id),
                stake,
            ),
            forall|a: u64|
                a != r.account_id ==> #[trigger] crate::balances::spec_free(
                    final(w).balances.accounts@,
                    a,
                ) == crate::balances::spec_free(old(w).balances.accounts@, a),
            forall|a: u64, l: LockId|
                #[trigger] crate::balances::spec_lock(final(w).balances.accounts@, a, l)
                    == crate::balances::spec_lock(old(w).balances.accounts@, a, l),
            final(w).council == old(w).council,
            final(w).referendum == old(w).referendum,
            final(w).events == old(w).events,
            final(w).council.announcement_period_nr == old(w).council.announcement_period_nr,
            final(w).block_number == old(w).block_number,
            final(w).same_settings(*old(w)),
    {
        let account_id = VOTER_BASE_ID + index;
        let (commitment, salt) = Self::vote_commitment(account_id, vote_for_index, cycle_id);
        Self::topup_account(w, account_id, stake);
        VoterInfo {
            origin: OriginType::Signed(account_id),
            account_id,
            commitment,
            salt,
            vote_for: vote_for_index,
            stake,
        }
    }

    /// Relies on rand::random: eight fresh bytes of salt, different between
    /// calls with overwhelming likelihood.
    #[verifier::external_body]
    pub fn generate_salt() -> (r: Vec<u8>)
        ensures
            r@.len() == 8,
    {
        let x: u64 = rand::random();
        x.to_be_bytes().to_vec()
    }

    /// A fresh salt and the commitment it produces for the given account,
    /// option and cycle.
    pub fn vote_commitment(account_id: u64, vote_option_index: u64, cycle_id: u64) -> (r: (
        Vec<u8>,
        Vec<u8>,
    ))
        ensures
            r.1@.len() == 8,
            r.0@ == spec_commitment(account_id, r.1@, cycle_id, vote_option_index),
    {
        let salt = Self::generate_salt();
        let commitment = crate::hashing::calculate_commitment(
            account_id,
            &salt,
            cycle_id,
            vote_option_index,
        );
        (commitment, salt)
    }
}

/// Element-wise equality of two membership sets.
fn members_equal(a: &Vec<CouncilMember>, b: &Vec<CouncilMember>) -> (r: bool)
    ensures
        r == (a@ == b@),
{
    if a.len() != b.len() {
        assert(a@ != b@) by {
            assert(a@.len() != b@.len());
        }
        return false;
    }
    let n = a.len();
    let mut i: usize = 0;
    while i < n
        invariant
            i <= n,
            n == a@.len(),
            n == b@.len(),
            forall|j: int| 0 <= j < i ==> a@[j] == b@[j],
        decreases n - i,
    {
        if !(a[i] == b[i]) {
            assert(a@ != b@);
            return false;
        }
        i = i + 1;
    }
    proof {
        assert(a@ =~= b@);
    }
    true
}

/// The two membership sets agree on who is seated: same length and, at
/// each seat, the same member identity, accounts and stake — the fields a
/// reward round never changes.
pub open spec fn members_identity_eq(a: Seq<CouncilMember>, b: Seq<CouncilMember>) -> bool {
    &&& a.len() == b.len()
    &&& forall|i: int|
        0 <= i < a.len() ==> {
            &&& (#[trigger] a[i]).membership_id == b[i].membership_id
            &&& a[i].staking_account_id == b[i].staking_account_id
            &&& a[i].reward_account_id == b[i].reward_account_id
            &&& a[i].stake == b[i].stake
        }
}

/// Whether the two membership sets agree on who is seated.
fn member_identities_match(a: &Vec<CouncilMember>, b: &Vec<CouncilMember>) -> (r: bool)
    ensures
        r == members_identity_eq(a@, b@),
{
    if a.len() != b.len() {
        return false;
    }
    let n = a.len();
    let mut i: usize = 0;
    while i < n
        invariant
            i <= n,
            n == a@.len(),
            n == b@.len(),
            forall|j: int|
                0 <= j < i ==> {
                    &&& (#[trigger] a@[j]).membership_id == b@[j].membership_id
                    &&& a@[j].staking_account_id == b@[j].staking_account_id
                    &&& a@[j].reward_account_id == b@[j].reward_account_id
                    &&& a@[j].stake == b@[j].stake
                },
        decreases n - i,
    {
        let x = a[i];
        let y = b[i];
        if x.membership_id != y.membership_id || x.staking_account_id != y.staking_account_id
            || x.reward_account_id != y.reward_account_id || x.stake != y.stake {
            return false;
        }
        i = i + 1;
    }
    true
}

/// Element-wise equality of two winners lists.
fn winners_equal(a: &Vec<OptionResult>, b: &Vec<OptionResult>) -> (r: bool)
    ensures
        r == (a@ == b@),
{
    if a.len() != b.len() {
        assert(a@ != b@) by {
            assert(a@.len() != b@.len());
        }
        return false;
    }
    let n = a.len();
    let mut i: usize = 0;
    while i < n
        invariant
            i <= n,
            n == a@.len(),
            n == b@.len(),
            forall|j: int| 0 <= j < i ==> a@[j] == b@[j],
        decreases n - i,
    {
        if !(a[i] == b[i]) {
            assert(a@ != b@);
            return false;
        }
        i = i + 1;
    }
    proof {
        assert(a@ =~= b@);
    }
    true
}

/// Equality of two errors.
fn error_eq(x: Error, y: Error) -> (r: bool)
    ensures
        r == (x == y),
{
    match (x, y) {
        (Error::BadOrigin, Error::BadOrigin) => true,
        (Error::NotAnnouncingStage, Error::NotAnnouncingStage) => true,
        (Error::MemberAlreadyCandidating, Error::MemberAlreadyCandidating) => true,
        (Error::CandidacyStakeTooLow, Error::CandidacyStakeTooLow) => true,
        (Error::AccountInsufficientBalance, Error::AccountInsufficientBalance) => true,
        (Error::NotCandidate, Error::NotCandidate) => true,
        (Error::CandidacyStakeLockedPostAnnouncement, Error::CandidacyStakeLockedPostAnnouncement) => true,
        (Error::NotCandidatingNow, Error::NotCandidatingNow) => true,
        (Error::StakeStillNeeded, Error::StakeStillNeeded) => true,
        _ => false,
    }
}

/// Equality of two operation results.
fn error_results_match(a: Result<(), Error>, b: Result<(), Error>) -> (r: bool)
    ensures
        r == (a == b),
{
    match a {
        Ok(u) => match b {
            Ok(v) => {
                proof {
                    assert(u == v);
                }
                true
            },
            Err(_) => false,
        },
        Err(x) => match b {
            Ok(_) => false,
            Err(y) => error_eq(x, y),
        },
    }
}

/// Checked wrappers for every operation: each performs the call and reports
/// whether the outcome, the emitted notification and the resulting state
/// match what the test expects — as the runtime's dispatcher would observe.
pub struct InstanceMocks;

impl InstanceMocks {
    /// The protocol is announcing as expected, since the expected block.
    pub fn check_announcing_period(
        w: &World,
        expected_update_block_number: u64,
        expected_state: CouncilStageAnnouncing,
    ) -> (r: bool)
        ensures
            r == (w.council.stage_update == (CouncilStageUpdate {
                stage: CouncilStage::Announcing(expected_state),
                changed_at: expected_update_block_number,
            })),
    {
        w.council.stage_update == CouncilStageUpdate {
            stage: CouncilStage::Announcing(expected_state),
            changed_at: expected_update_block_number,
        }
    }

    /// The protocol is in the election stage as expected.
    pub fn check_election_period(
        w: &World,
        expected_update_block_number: u64,
        expected_state: CouncilStageElection,
    ) -> (r: bool)
        ensures
            r == (w.council.stage_update == (CouncilStageUpdate {
                stage: CouncilStage::Election(expected_state),
                changed_at: expected_update_block_number,
            })),
    {
        w.council.stage_update == CouncilStageUpdate {
            stage: CouncilStage::Election(expected_state),
            changed_at: expected_update_block_number,
        }
    }

    /// The protocol is idle as expected.
    pub fn check_idle_period(w: &World, expected_update_block_number: u64) -> (r: bool)
        ensures
            r == (w.council.stage_update == (CouncilStageUpdate {
                stage: CouncilStage::Idle,
                changed_at: expected_update_block_number,
            })),
    {
        w.council.stage_update == CouncilStageUpdate {
            stage: CouncilStage::Idle,
            changed_at: expected_update_block_number,
        }
    }

    /// The seated members are exactly the expected ones, in order.
    pub fn check_council_members(w: &World, expect_members: &Vec<CouncilMember>) -> (r: bool)
        ensures
            r == (w.council.council_members@ == expect_members@),
    {
        members_equal(&w.council.council_members, expect_members)
    }

    /// The referendum is revealing as expected: stage fields, the current
    /// intermediate winners, and the tallies of the given options.
    pub fn check_referendum_revealing(
        w: &World,
        winning_target_count: u64,
        intermediate_winners: &Vec<OptionResult>,
        intermediate_results: &Vec<(u64, u64)>,
        expected_update_block_number: u64,
    ) -> (r: bool)
        requires
            w.wf(),
        ensures
            r == ({
                &&& (w.referendum.stage matches ReferendumStage::Revealing(rv) && {
                    &&& rv.winning_target_count == winning_target_count
                    &&& rv.started == expected_update_block_number
                    &&& rv.current_cycle_id == w.council.announcement_period_nr
                    &&& rv.intermediate_winners@ == intermediate_winners@
                })
                &&& forall|i: int|
                    0 <= i < intermediate_results@.len() ==> has_candidate(
                        w.council.candidates@,
                        (#[trigger] intermediate_results@[i]).0,
                    ) && spec_candidate(
                        w.council.candidates@,
                        intermediate_results@[i].0,
                    ).vote_power == intermediate_results@[i].1
            }),
    {
        let stage_ok = match &w.referendum.stage {
            ReferendumStage::Revealing(rv) => {
                rv.winning_target_count == winning_target_count && rv.started
                    == expected_update_block_number && rv.current_cycle_id
                    == w.council.announcement_period_nr && winners_equal(
                    &rv.intermediate_winners,
                    intermediate_winners,
                )
            }
            _ => false,
        };
        if !stage_ok {
            return false;
        }
        let n = intermediate_results.len();
        let mut i: usize = 0;
        while i < n
            invariant
                i <= n,
                w.wf(),
                n == intermediate_results@.len(),
                forall|j: int|
                    0 <= j < i ==> has_candidate(
                        w.council.candidates@,
                        (#[trigger] intermediate_results@[j]).0,
                    ) && spec_candidate(
                        w.council.candidates@,
                        intermediate_results@[j].0,
                    ).vote_power == intermediate_results@[j].1,
            decreases n - i,
        {
            let (key, value) = intermediate_results[i];
            if !Self::check_option_power(w, key, value) {
                return false;
            }
            i = i + 1;
        }
        true
    }

    /// The option is a known candidacy whose tally equals `value`.
    fn check_option_power(w: &World, key: u64, value: u64) -> (r: bool)
        requires
            w.wf(),
        ensures
            r == (has_candidate(w.council.candidates@, key) && spec_candidate(
                w.council.candidates@,
                key,
            ).vote_power == value),
    {
        match w.find_candidate_index(key) {
            Some(i) => {
                proof {
                    crate::council::lemma_candidate_idx(w.council.candidates@, key, i as int);
                }
                w.council.candidates[i].candidate.vote_power == value
            }
            None => false,
        }
    }

    /// The member's candidacy holds the expected stake.
    pub fn check_announcing_stake(w: &World, membership_id: u64, amount: u64) -> (r: bool)
        requires
            w.wf(),
        ensures
            r == (has_candidate(w.council.candidates@, membership_id) && spec_candidate(
                w.council.candidates@,
                membership_id,
            ).stake == amount),
    {
        match w.find_candidate_index(membership_id) {
            Some(i) => {
                proof {
                    crate::council::lemma_candidate_idx(
                        w.council.candidates@,
                        membership_id,
                        i as int,
                    );
                }
                w.council.candidates[i].candidate.stake == amount
            }
            None => false,
        }
    }

    /// The member's candidacy stores the digest of the given note, or no
    /// digest at all.
    pub fn check_candidacy_note(w: &World, membership_id: u64, note: Option<&Vec<u8>>) -> (r:
        bool)
        requires
            w.wf(),
        ensures
            r == (has_candidate(w.council.candidates@, membership_id) && (match note {
                Option::None => spec_candidate(w.council.candidates@, membership_id).note_hash
                    is None,
                Option::Some(n) => spec_candidate(
                    w.council.candidates@,
                    membership_id,
                ).note_hash matches Some(h) && h@ == spec_note_hash(n@),
            })),
    {
        let i = match w.find_candidate_index(membership_id) {
            Some(i) => i,
            None => {
                return false;
            }
        };
        proof {
            crate::council::lemma_candidate_idx(w.council.candidates@, membership_id, i as int);
        }
        match (&w.council.candidates[i].candidate.note_hash, note) {
            (Option::None, Option::None) => true,
            (Option::Some(h), Option::Some(n)) => {
                let digest = crate::hashing::note_hash_of(n);
                crate::hashing::bytes_equal(h, &digest)
            }
            _ => false,
        }
    }

    /// The treasury and the next refill block are as expected.
    pub fn check_budget_refill(w: &World, expected_balance: u64, expected_next_refill: u64) -> (r:
        bool)
        ensures
            r == (w.council.budget == expected_balance && w.council.next_budget_refill
                == expected_next_refill),
    {
        w.council.budget == expected_balance && w.council.next_budget_refill
            == expected_next_refill
    }

    /// Sets a candidacy note and checks the outcome, the notification and
    /// the stored digest against the expectation.
    pub fn set_candidacy_note(
        w: &mut World,
        origin: OriginType,
        membership_id: u64,
        note: &Vec<u8>,
        expected_result: Result<(), Error>,
    ) -> (r: bool)
        requires
            old(w).wf(),
        ensures
            final(w).wf(),
            r == (old(w).note_outcome(origin, membership_id) == expected_result),
            old(w).note_outcome(origin, membership_id) is Ok ==> has_candidate(
                final(w).council.candidates@,
                membership_id,
            ) && (spec_candidate(
                final(w).council.candidates@,
                membership_id,
            ).note_hash matches Some(h) && h@ == spec_note_hash(note@)),
            old(w).note_outcome(origin, membership_id) is Err ==> *final(w) == *old(w),
            final(w).council.stage_update == old(w).council.stage_update,
            final(w).council.announcement_period_nr == old(w).council.announcement_period_nr,
            final(w).balances == old(w).balances,
            final(w).block_number == old(w).block_number,
            final(w).same_settings(*old(w)),
    {
        let result = w.set_candidacy_note(origin, membership_id, note);
        if !error_results_match(result, expected_result) {
            return false;
        }
        match result {
            Err(_) => true,
            Ok(()) => {
                let idx = w.events.len() - 1;
                let event_ok = match &w.events[idx] {
                    RawEvent::CandidacyNoteSet(m, n) => *m == membership_id
                        && crate::hashing::bytes_equal(n, note),
                    _ => false,
                };
                if !event_ok {
                    return false;
                }
                Self::check_candidacy_note(w, membership_id, Some(note))
            }
        }
    }

    /// Announces a candidacy, the member's account doubling as its staking
    /// and reward account, and checks the outcome against the expectation.
    pub fn announce_candidacy(
        w: &mut World,
        origin: OriginType,
        member_id: u64,
        stake: u64,
        expected_result: Result<(), Error>,
    ) -> (r: bool)
        requires
            old(w).wf(),
            old(w).council.candidates@.len() < u64::MAX,
        ensures
            final(w).wf(),
            r == (old(w).announce_outcome(origin, member_id, member_id, stake)
                == expected_result),
            final(w).council.candidates@.len() <= old(w).council.candidates@.len() + 1,
            old(w).announce_outcome(origin, member_id, member_id, stake) is Ok
                ==> is_active_candidate(
                final(w).council.candidates@,
                member_id,
                old(w).council.announcement_period_nr,
            ),
            old(w).announce_outcome(origin, member_id, member_id, stake) is Err ==> *final(w)
                == *old(w),
            final(w).council.announcement_period_nr == old(w).council.announcement_period_nr,
            final(w).block_number == old(w).block_number,
            final(w).same_settings(*old(w)),
    {
        Self::announce_candidacy_raw(w, origin, member_id, member_id, member_id, stake, expected_result)
    }

    /// Announces a candidacy under explicit staking and reward accounts and
    /// checks the outcome and the notification against the expectation.
    pub fn announce_candidacy_raw(
        w: &mut World,
        origin: OriginType,
        member_id: u64,
        staking_account_id: u64,
        reward_account_id: u64,
        stake: u64,
        expected_result: Result<(), Error>,
    ) -> (r: bool)
        requires
            old(w).wf(),
            old(w).council.candidates@.len() < u64::MAX,
        ensures
            final(w).wf(),
            r == (old(w).announce_outcome(origin, member_id, staking_account_id, stake)
                == expected_result),
            final(w).council.candidates@.len() <= old(w).council.candidates@.len() + 1,
            old(w).announce_outcome(origin, member_id, staking_account_id, stake) is Ok
                ==> is_active_candidate(
                final(w).council.candidates@,
                member_id,
                old(w).council.announcement_period_nr,
            ),
            old(w).announce_outcome(origin, member_id, staking_account_id, stake) is Err
                ==> *final(w) == *old(w),
            final(w).council.announcement_period_nr == old(w).council.announcement_period_nr,
            final(w).block_number == old(w).block_number,
            final(w).same_settings(*old(w)),
    {
        let result = w.announce_candidacy(origin, member_id, staking_account_id, reward_account_id, stake);
        if !error_results_match(result, expected_result) {
            return false;
        }
        match result {
            Err(_) => true,
            Ok(()) => {
                let idx = w.events.len() - 1;
                match &w.events[idx] {
                    RawEvent::NewCandidate(m, s) => *m == member_id && *s == stake,
                    _ => false,
                }
            }
        }
    }

    /// Withdraws a candidacy and checks the outcome and the notification
    /// against the expectation.
    pub fn withdraw_candidacy(
        w: &mut World,
        origin: OriginType,
        member_id: u64,
        expected_result: Result<(), Error>,
    ) -> (r: bool)
        requires
            old(w).wf(),
        ensures
            final(w).wf(),
            r == (old(w).withdraw_outcome(origin, member_id) == expected_result),
            old(w).withdraw_outcome(origin, member_id) is Ok ==> !has_candidate(
                final(w).council.candidates@,
                member_id,
            ),
            old(w).withdraw_outcome(origin, member_id) is Err ==> *final(w) == *old(w),
            final(w).council.announcement_period_nr == old(w).council.announcement_period_nr,
            final(w).block_number == old(w).block_number,
            final(w).same_settings(*old(w)),
    {
        let result = w.withdraw_candidacy(origin, member_id);
        if !error_results_match(result, expected_result) {
            return false;
        }
        match result {
            Err(_) => true,
            Ok(()) => {
                let idx = w.events.len() - 1;
                match &w.events[idx] {
                    RawEvent::CandidacyWithdraw(m) => *m == member_id,
                    _ => false,
                }
            }
        }
    }

    /// Releases a candidacy stake and checks the outcome and the
    /// notification against the expectation.
    pub fn release_candidacy_stake(
        w: &mut World,
        origin: OriginType,
        member_id: u64,
        expected_result: Result<(), Error>,
    ) -> (r: bool)
        requires
            old(w).wf(),
        ensures
            final(w).wf(),
            r == (old(w).release_outcome(origin, member_id) == expected_result),
            old(w).release_outcome(origin, member_id) is Ok ==> !has_candidate(
                final(w).council.candidates@,
                member_id,
            ),
            old(w).release_outcome(origin, member_id) is Err ==> *final(w) == *old(w),
            final(w).council.announcement_period_nr == old(w).council.announcement_period_nr,
            final(w).block_number == old(w).block_number,
            final(w).same_settings(*old(w)),
    {
        let result = w.release_candidacy_stake(origin, member_id);
        if !error_results_match(result, expected_result) {
            return false;
        }
        match result {
            Err(_) => true,
            Ok(()) => {
                let idx = w.events.len() - 1;
                match &w.events[idx] {
                    RawEvent::CandidacyStakeRelease(m) => *m == member_id,
                    _ => false,
                }
            }
        }
    }

    /// Casts a vote and checks success or failure against the expectation.
    pub fn vote_for_candidate(
        w: &mut World,
        origin: OriginType,
        commitment: Vec<u8>,
        stake: u64,
        expected_result: Result<(), ()>,
    ) -> (r: bool)
        requires
            old(w).wf(),
        ensures
            final(w).wf(),
            r == ((old(w).vote_outcome(origin, stake) is Ok) == (expected_result is Ok)),
            old(w).vote_outcome(origin, stake) is Err ==> *final(w) == *old(w),
            old(w).vote_outcome(origin, stake) is Ok ==> (origin matches OriginType::Signed(a)
                && {
                &&& crate::referendum::has_vote(final(w).referendum.votes@, a)
                &&& crate::referendum::spec_vote(final(w).referendum.votes@, a).commitment@
                    == commitment@
                &&& crate::referendum::spec_vote(final(w).referendum.votes@, a).stake == stake
                &&& crate::referendum::spec_vote(final(w).referendum.votes@, a).cycle_id == old(
                    w,
                ).council.announcement_period_nr
                &&& crate::referendum::spec_vote(final(w).referendum.votes@, a).vote_for is None
                &&& crate::balances::spec_lock(
                    final(w).balances.accounts@,
                    a,
                    crate::balances::LockId::Voting,
                ) == stake
            }),
            final(w).council == old(w).council,
            final(w).referendum.stage == old(w).referendum.stage,
            final(w).council.announcement_period_nr == old(w).council.announcement_period_nr,
            final(w).block_number == old(w).block_number,
            final(w).same_settings(*old(w)),
    {
        let result = w.vote(origin, commitment, stake);
        proof {
            match origin {
                OriginType::Signed(a) => {
                    if old(w).vote_outcome(origin, stake) is Ok {
                        crate::referendum::lemma_vote_idx(
                            w.referendum.votes@,
                            a,
                            old(w).referendum.votes@.len() as int,
                        );
                    }
                }
                OriginType::Root => {}
            }
        }
        match (result, expected_result) {
            (Ok(()), Ok(())) => true,
            (Err(_), Err(_)) => true,
            _ => false,
        }
    }

    /// Reveals a vote and checks success or failure against the expectation.
    pub fn reveal_vote(
        w: &mut World,
        origin: OriginType,
        salt: &Vec<u8>,
        vote_option: u64,
        expected_result: Result<(), ()>,
    ) -> (r: bool)
        requires
            old(w).wf(),
        ensures
            final(w).wf(),
            r == ((old(w).reveal_outcome(origin, salt@, vote_option) is Ok) == (expected_result
                is Ok)),
            old(w).reveal_outcome(origin, salt@, vote_option) is Err ==> *final(w) == *old(w),
            old(w).reveal_outcome(origin, salt@, vote_option) is Ok ==> (origin matches
                OriginType::Signed(a) && {
                &&& spec_candidate(final(w).council.candidates@, vote_option).vote_power
                    == crate::sat_add(
                    spec_candidate(old(w).council.candidates@, vote_option).vote_power,
                    spec_vote_power(
                        a,
                        crate::referendum::spec_vote(old(w).referendum.votes@, a).stake,
                    ),
                )
                &&& crate::referendum::spec_vote(final(w).referendum.votes@, a).vote_for == Some(
                    vote_option,
                )
            }),
            final(w).balances == old(w).balances,
            final(w).council.stage_update == old(w).council.stage_update,
            final(w).council.announcement_period_nr == old(w).council.announcement_period_nr,
            final(w).block_number == old(w).block_number,
            final(w).same_settings(*old(w)),
    {
        let result = w.reveal_vote(origin, salt, vote_option);
        match (result, expected_result) {
            (Ok(()), Ok(())) => true,
            (Err(_), Err(_)) => true,
            _ => false,
        }
    }

    /// Releases a vote's stake and checks success or failure against the
    /// expectation.
    pub fn release_vote_stake(
        w: &mut World,
        origin: OriginType,
        expected_result: Result<(), ()>,
    ) -> (r: bool)
        requires
            old(w).wf(),
        ensures
            final(w).wf(),
            r == ((old(w).release_vote_outcome(origin) is Ok) == (expected_result is Ok)),
            old(w).release_vote_outcome(origin) is Err ==> *final(w) == *old(w),
            old(w).release_vote_outcome(origin) is Ok ==> (origin matches OriginType::Signed(a)
                && {
                &&& !crate::referendum::has_vote(final(w).referendum.votes@, a)
                &&& crate::balances::spec_lock(
                    final(w).balances.accounts@,
                    a,
                    crate::balances::LockId::Voting,
                ) == 0
            }),
            final(w).council == old(w).council,
            final(w).referendum.stage == old(w).referendum.stage,
            final(w).council.announcement_period_nr == old(w).council.announcement_period_nr,
            final(w).block_number == old(w).block_number,
            final(w).same_settings(*old(w)),
    {
        let result = w.release_vote_stake(origin);
        match (result, expected_result) {
            (Ok(()), Ok(())) => true,
            (Err(_), Err(_)) => true,
            _ => false,
        }
    }

    /// Sets the budget and checks the outcome, the stored amount and the
    /// notification against the expectation.
    pub fn set_budget(
        w: &mut World,
        origin: OriginType,
        amount: u64,
        expected_result: Result<(), ()>,
    ) -> (r: bool)
        requires
            old(w).wf(),
        ensures
            final(w).wf(),
            r == ((origin is Root) == (expected_result is Ok)),
            origin is Root ==> final(w).council.budget == amount,
            !(origin is Root) ==> *final(w) == *old(w),
            final(w).council.announcement_period_nr == old(w).council.announcement_period_nr,
            final(w).block_number == old(w).block_number,
            final(w).same_settings(*old(w)),
    {
        let result = w.set_budget(origin, amount);
        let matched = match (result, expected_result) {
            (Ok(()), Ok(())) => true,
            (Err(_), Err(_)) => true,
            _ => false,
        };
        if !matched {
            return false;
        }
        match result {
            Err(_) => true,
            Ok(()) => {
                if w.council.budget != amount {
                    return false;
                }
                let idx = w.events.len() - 1;
                match &w.events[idx] {
                    RawEvent::BudgetBalanceSet(a) => *a == amount,
                    _ => false,
                }
            }
        }
    }

    /// Plans the next refill and checks the outcome, the stored block and
    /// the notification against the expectation.
    pub fn plan_budget_refill(
        w: &mut World,
        origin: OriginType,
        next_refill: u64,
        expected_result: Result<(), ()>,
    ) -> (r: bool)
        requires
            old(w).wf(),
        ensures
            final(w).wf(),
            r == ((origin is Root) == (expected_result is Ok)),
            origin is Root ==> final(w).council.next_budget_refill == next_refill,
            !(origin is Root) ==> *final(w) == *old(w),
            final(w).council.announcement_period_nr == old(w).council.announcement_period_nr,
            final(w).block_number == old(w).block_number,
            final(w).same_settings(*old(w)),
    {
        let result = w.plan_budget_refill(origin, next_refill);
        let matched = match (result, expected_result) {
            (Ok(()), Ok(())) => true,
            (Err(_), Err(_)) => true,
            _ => false,
        };
        if !matched {
            return false;
        }
        match result {
            Err(_) => true,
            Ok(()) => {
                if w.council.next_budget_refill != next_refill {
                    return false;
                }
                let idx = w.events.len() - 1;
                match &w.events[idx] {
                    RawEvent::BudgetRefillPlanned(b) => *b == next_refill,
                    _ => false,
                }
            }
        }
    }

    /// Simulates one full election cycle: candidates announce, the stage
    /// machine hands over to the referendum, the voters commit and reveal,
    /// the results seat the expected council, and the idle period passes.
    /// Returns whether every step behaved as the parameters expect; an
    /// interrupt point stops the cycle early (successfully) to let a test
    /// examine an intermediate state.
    #[verifier::loop_isolation(false)]
    pub fn simulate_council_cycle(w: &mut World, params: &CouncilCycleParams) -> (r: bool)
        requires
            old(w).wf(),
            params.council_settings.wf(),
            old(w).block_number + params.council_settings.cycle_duration + 4 <= u64::MAX,
            old(w).council.announcement_period_nr + params.council_settings.cycle_duration + 4
                < u64::MAX,
            old(w).council.candidates@.len() + params.candidates_announcing@.len() < u64::MAX,
            params.cycle_start_block_number + params.council_settings.cycle_duration <= u64::MAX,
        ensures
            final(w).wf(),
            final(w).same_settings(*old(w)),
            r ==> old(w).council.council_members@ == params.expected_initial_council_members@,
            r ==> old(w).council.stage_update == (CouncilStageUpdate {
                stage: CouncilStage::Announcing(CouncilStageAnnouncing { candidates_count: 0 }),
                changed_at: params.cycle_start_block_number,
            }),
            // A completed, uninterrupted cycle leaves the next cycle's
            // announcing stage in place, the cycle counter advanced, and the
            // expected council seated (its reward bookkeeping keeps moving,
            // its seats do not).
            r && params.interrupt_point is None ==> {
                &&& final(w).council.stage_update == (CouncilStageUpdate {
                    stage: CouncilStage::Announcing(CouncilStageAnnouncing {
                        candidates_count: 0,
                    }),
                    changed_at: (params.cycle_start_block_number
                        + params.council_settings.cycle_duration) as u64,
                })
                &&& final(w).council.announcement_period_nr == old(
                    w,
                ).council.announcement_period_nr + 1
                &&& members_identity_eq(
                    final(w).council.council_members@,
                    params.expected_final_council_members@,
                )
                &&& final(w).block_number == old(w).block_number
                    + params.council_settings.cycle_duration + 4
            },
            // Stopping before any announcement changes nothing, and there
            // the result is exactly the two initial checks.
            params.interrupt_point == Some(CouncilCycleInterrupt::BeforeCandidatesAnnounce)
                ==> *final(w) == *old(w) && r == (old(w).council.council_members@
                == params.expected_initial_council_members@ && old(w).council.stage_update
                == (CouncilStageUpdate {
                stage: CouncilStage::Announcing(CouncilStageAnnouncing { candidates_count: 0 }),
                changed_at: params.cycle_start_block_number,
            })),
    {
        let nr0 = w.council.announcement_period_nr;
        let settings = params.council_settings;
        // The seated members and the fresh announcing stage the cycle
        // starts from.
        if !Self::check_council_members(w, &params.expected_initial_council_members) {
            return false;
        }
        if !Self::check_announcing_period(
            w,
            params.cycle_start_block_number,
            CouncilStageAnnouncing { candidates_count: 0 },
        ) {
            return false;
        }
        match params.interrupt_point {
            Some(CouncilCycleInterrupt::BeforeCandidatesAnnounce) => {
                return true;
            }
            _ => {}
        }
        // Every candidate announces with the minimum stake.
        let n_cand = params.candidates_announcing.len();
        let mut i: usize = 0;
        while i < n_cand
            invariant
                i <= n_cand,
                w.wf(),
                w.council.candidates@.len() <= old(w).council.candidates@.len() + i,
                w.block_number == old(w).block_number,
                w.council.announcement_period_nr == old(w).council.announcement_period_nr,
                w.same_settings(*old(w)),
            decreases n_cand - i,
        {
            let c = &params.candidates_announcing[i];
            if !Self::announce_candidacy(
                w,
                c.origin,
                c.membership_id,
                settings.min_candidate_stake,
                Ok(()),
            ) {
                return false;
            }
            i = i + 1;
        }
        match params.interrupt_point {
            Some(CouncilCycleInterrupt::AfterCandidatesAnnounce) => {
                return true;
            }
            _ => {}
        }
        // Let the announcing period elapse; the election stage must begin.
        InstanceMockUtils::increase_block_number(w, settings.announcing_stage_duration + 1);
        if !Self::check_election_period(
            w,
            params.cycle_start_block_number + settings.announcing_stage_duration,
            CouncilStageElection { candidates_count: params.expected_candidates.len() as u64 },
        ) {
            return false;
        }
        match params.interrupt_point {
            Some(CouncilCycleInterrupt::BeforeVoting) => {
                return true;
            }
            _ => {}
        }
        // Every voter commits.
        let n_vote = params.voters.len();
        let mut i: usize = 0;
        while i < n_vote
            invariant
                i <= n_vote,
                w.wf(),
                w.block_number == old(w).block_number + settings.announcing_stage_duration + 1,
                w.council.announcement_period_nr <= old(w).council.announcement_period_nr
                    + settings.announcing_stage_duration + 1,
                w.same_settings(*old(w)),
            decreases n_vote - i,
        {
            let v = &params.voters[i];
            if !Self::vote_for_candidate(w, v.origin, clone_bytes(&v.commitment), v.stake, Ok(())) {
                return false;
            }
            i = i + 1;
        }
        match params.interrupt_point {
            Some(CouncilCycleInterrupt::AfterVoting) => {
                return true;
            }
            _ => {}
        }
        // Let the voting stage elapse; revealing must begin, with no option
        // revealed yet.
        InstanceMockUtils::increase_block_number(w, settings.voting_stage_duration + 1);
        let no_winners: Vec<OptionResult> = Vec::new();
        let no_results: Vec<(u64, u64)> = Vec::new();
        if !Self::check_referendum_revealing(
            w,
            settings.council_size,
            &no_winners,
            &no_results,
            params.cycle_start_block_number + settings.announcing_stage_duration
                + settings.voting_stage_duration,
        ) {
            return false;
        }
        match params.interrupt_point {
            Some(CouncilCycleInterrupt::BeforeRevealing) => {
                return true;
            }
            _ => {}
        }
        // Every voter reveals.
        let mut i: usize = 0;
        while i < n_vote
            invariant
                i <= n_vote,
                n_vote == params.voters@.len(),
                w.wf(),
                w.block_number == old(w).block_number + settings.announcing_stage_duration
                    + settings.voting_stage_duration + 2,
                w.council.announcement_period_nr <= old(w).council.announcement_period_nr
                    + settings.announcing_stage_duration + settings.voting_stage_duration + 2,
                w.same_settings(*old(w)),
            decreases n_vote - i,
        {
            let v = &params.voters[i];
            if !Self::reveal_vote(w, v.origin, &v.salt, v.vote_for, Ok(())) {
                return false;
            }
            i = i + 1;
        }
        match params.interrupt_point {
            Some(CouncilCycleInterrupt::AfterRevealing) => {
                return true;
            }
            _ => {}
        }
        // Let the revealing stage elapse; the results must seat the
        // expected council and the protocol goes idle.
        InstanceMockUtils::increase_block_number(w, settings.reveal_stage_duration + 1);
        if !Self::check_idle_period(
            w,
            params.cycle_start_block_number + settings.announcing_stage_duration
                + settings.voting_stage_duration + settings.reveal_stage_duration,
        ) {
            return false;
        }
        if !Self::check_council_members(w, &params.expected_final_council_members) {
            return false;
        }
        // Let the idle period elapse, into the next cycle's announcing: the
        // counter has advanced and the seats are unchanged.
        InstanceMockUtils::increase_block_number(w, settings.idle_stage_duration + 1);
        if !Self::check_announcing_period(
            w,
            params.cycle_start_block_number + settings.cycle_duration,
            CouncilStageAnnouncing { candidates_count: 0 },
        ) {
            return false;
        }
        if w.council.announcement_period_nr != nr0 + 1 {
            return false;
        }
        if !member_identities_match(
            &w.council.council_members,
            &params.expected_final_council_members,
        ) {
            return false;
        }
        true
    }

    /// Runs one full council lifecycle with generated candidates and voters:
    /// five candidates announce, ten voters vote four-three-two-one across
    /// the first four, and the three best-voted candidates are seated.
    /// Returns whether the cycle behaved as expected, together with the
    /// parameters it ran with, so a later cycle can build on them.
    #[verifier::loop_isolation(false)]
    pub fn run_full_council_cycle(
        w: &mut World,
        start_block_number: u64,
        expected_initial_council_members: &Vec<CouncilMember>,
        users_offset: u64,
    ) -> (r: (bool, CouncilCycleParams))
        requires
            old(w).wf(),
            old(w).block_number + crate::settings::test_settings().cycle_duration + 4 <= u64::MAX,
            old(w).council.announcement_period_nr + crate::settings::test_settings().cycle_duration
                + 4 < u64::MAX,
            old(w).council.candidates@.len() + 5 < u64::MAX,
            start_block_number + crate::settings::test_settings().cycle_duration <= u64::MAX,
            users_offset + 6000 <= u64::MAX,
        ensures
            final(w).wf(),
            final(w).same_settings(*old(w)),
            // The parameters the cycle ran with, pinned in full.
            r.1.council_settings == crate::settings::test_settings(),
            r.1.cycle_start_block_number == start_block_number,
            r.1.expected_initial_council_members@ == expected_initial_council_members@,
            r.1.interrupt_point is None,
            r.1.candidates_announcing@.len() == 5,
            forall|j: int|
                0 <= j < 5 ==> {
                    let c = #[trigger] r.1.candidates_announcing@[j];
                    &&& c.account_id == CANDIDATE_BASE_ID + users_offset + j
                    &&& c.membership_id == c.account_id
                    &&& c.origin == OriginType::Signed(c.account_id)
                    &&& c.candidate.staking_account_id == c.account_id
                    &&& c.candidate.reward_account_id == c.account_id
                    &&& c.candidate.stake == crate::settings::MIN_CANDIDATE_STAKE
                    &&& c.candidate.vote_power == 0
                },
            r.1.expected_candidates@.len() == 5,
            r.1.voters@.len() == 10,
            forall|j: int|
                0 <= j < 10 ==> {
                    let v = #[trigger] r.1.voters@[j];
                    &&& v.account_id == VOTER_BASE_ID + users_offset + j
                    &&& v.origin == OriginType::Signed(v.account_id)
                    &&& v.stake == MINIMUM_VOTING_STAKE
                    &&& v.vote_for == CANDIDATE_BASE_ID + vote_targets()[j] + users_offset
                },
            // The expected winners: candidates 3, 0 and 1, in vote-power
            // order, paid from the delivery block.
            r.1.expected_final_council_members@.len() == 3,
            forall|j: int|
                0 <= j < 3 ==> #[trigger] r.1.expected_final_council_members@[j]
                    == (CouncilMember {
                    staking_account_id: expected_winner_account(users_offset, j),
                    reward_account_id: expected_winner_account(users_offset, j),
                    membership_id: expected_winner_account(users_offset, j),
                    stake: crate::settings::MIN_CANDIDATE_STAKE,
                    last_payment_block: (start_block_number
                        + crate::settings::test_settings().election_duration) as u64,
                    unpaid_reward: 0u64,
                }),
            // What a completed cycle certifies, lifted from the simulation.
            r.0 ==> old(w).council.council_members@ == expected_initial_council_members@,
            r.0 ==> final(w).council.announcement_period_nr == old(
                w,
            ).council.announcement_period_nr + 1,
            r.0 ==> members_identity_eq(
                final(w).council.council_members@,
                r.1.expected_final_council_members@,
            ),
            r.0 ==> final(w).council.stage_update == (CouncilStageUpdate {
                stage: CouncilStage::Announcing(CouncilStageAnnouncing { candidates_count: 0 }),
                changed_at: (start_block_number
                    + crate::settings::test_settings().cycle_duration) as u64,
            }),
    {
        let council_settings = CouncilSettings::extract_settings();
        let vote_stake = MINIMUM_VOTING_STAKE;
        let ghost nr0 = w.council.announcement_period_nr;
        // Generate one candidate more than the floor the election needs.
        let n_cand = council_settings.min_candidate_count + 1;
        let mut candidates: Vec<CandidateInfo> = Vec::new();
        let mut i: u64 = 0;
        while i < n_cand
            invariant
                i <= n_cand,
                n_cand == 5,
                w.wf(),
                candidates@.len() == i,
                w.block_number == old(w).block_number,
                w.council == old(w).council,
                w.referendum == old(w).referendum,
                w.same_settings(*old(w)),
                forall|j: int|
                    0 <= j < i ==> {
                        let c = #[trigger] candidates@[j];
                        &&& c.account_id == CANDIDATE_BASE_ID + users_offset + j
                        &&& c.membership_id == c.account_id
                        &&& c.origin == OriginType::Signed(c.account_id)
                        &&& c.candidate.staking_account_id == c.account_id
                        &&& c.candidate.reward_account_id == c.account_id
                        &&& c.candidate.stake == crate::settings::MIN_CANDIDATE_STAKE
                        &&& c.candidate.vote_power == 0
                    },
            decreases n_cand - i,
        {
            candidates.push(
                InstanceMockUtils::generate_candidate(
                    w,
                    i + users_offset,
                    council_settings.min_candidate_stake,
                ),
            );
            i = i + 1;
        }
        // The records announcing is expected to create.
        let mut expected_candidates: Vec<Candidate> = Vec::new();
        let mut i: usize = 0;
        while i < candidates.len()
            invariant
                i <= candidates@.len(),
                expected_candidates@.len() == i,
            decreases candidates@.len() - i,
        {
            let c = &candidates[i];
            expected_candidates.push(
                Candidate {
                    staking_account_id: c.account_id,
                    reward_account_id: c.account_id,
                    cycle_id: c.candidate.cycle_id,
                    stake: c.candidate.stake,
                    vote_power: 0,
                    note_hash: None,
                },
            );
            i = i + 1;
        }
        // The council the votes below elect, in vote-power order, paid from
        // the block the results are delivered at.
        let elected_at = start_block_number + council_settings.election_duration;
        let mut expected_final_council_members: Vec<CouncilMember> = Vec::new();
        expected_final_council_members.push(
            Self::expected_member(&candidates, 3, council_settings.min_candidate_stake, elected_at),
        );
        expected_final_council_members.push(
            Self::expected_member(&candidates, 0, council_settings.min_candidate_stake, elected_at),
        );
        expected_final_council_members.push(
            Self::expected_member(&candidates, 1, council_settings.min_candidate_stake, elected_at),
        );
        // Ten voters: four for candidate 3, three for candidate 0, two for
        // candidate 1, one for candidate 2.
        let votes_map: Vec<u64> = vec![3u64, 3, 3, 3, 0, 0, 0, 1, 1, 2];
        proof {
            assert(votes_map@ =~= vote_targets());
        }
        let mut voters: Vec<VoterInfo> = Vec::new();
        let mut i: usize = 0;
        while i < votes_map.len()
            invariant
                i <= votes_map@.len(),
                votes_map@ == vote_targets(),
                votes_map@.len() == 10,
                forall|j: int| 0 <= j < votes_map@.len() ==> #[trigger] votes_map@[j] <= 3,
                w.wf(),
                voters@.len() == i,
                forall|j: int|
                    0 <= j < i ==> {
                        let v = #[trigger] voters@[j];
                        &&& v.account_id == VOTER_BASE_ID + users_offset + j
                        &&& v.origin == OriginType::Signed(v.account_id)
                        &&& v.stake == MINIMUM_VOTING_STAKE
                        &&& v.vote_for == CANDIDATE_BASE_ID + vote_targets()[j] + users_offset
                    },
                w.block_number == old(w).block_number,
                w.council == old(w).council,
                w.referendum == old(w).referendum,
                w.same_settings(*old(w)),
            decreases votes_map@.len() - i,
        {
            voters.push(
                InstanceMockUtils::generate_voter(
                    w,
                    i as u64 + users_offset,
                    vote_stake,
                    CANDIDATE_BASE_ID + votes_map[i] + users_offset,
                    w.council.announcement_period_nr,
                ),
            );
            i = i + 1;
        }
        let mut initial_members: Vec<CouncilMember> = Vec::new();
        let mut i: usize = 0;
        while i < expected_initial_council_members.len()
            invariant
                i <= expected_initial_council_members@.len(),
                initial_members@.len() == i,
                forall|j: int|
                    0 <= j < i ==> initial_members@[j] == expected_initial_council_members@[j],
            decreases expected_initial_council_members@.len() - i,
        {
            initial_members.push(expected_initial_council_members[i]);
            i = i + 1;
        }
        proof {
            assert(initial_members@ =~= expected_initial_council_members@);
        }
        let params = CouncilCycleParams {
            council_settings,
            cycle_start_block_number: start_block_number,
            expected_initial_council_members: initial_members,
            expected_final_council_members,
            candidates_announcing: candidates,
            expected_candidates,
            voters,
            interrupt_point: None,
        };
        let ok = Self::simulate_council_cycle(w, &params);
        (ok, params)
    }

    /// The member candidate number `index` becomes when elected.
    fn expected_member(
        candidates: &Vec<CandidateInfo>,
        index: usize,
        stake: u64,
        elected_at: u64,
    ) -> (r: CouncilMember)
        requires
            index < candidates@.len(),
        ensures
            r == (CouncilMember {
                staking_account_id: candidates@[index as int].account_id,
                reward_account_id: candidates@[index as int].account_id,
                membership_id: candidates@[index as int].account_id,
                stake,
                last_payment_block: elected_at,
                unpaid_reward: 0u64,
            }),
    {
        let acc = candidates[index].account_id;
        CouncilMember {
            staking_account_id: acc,
            reward_account_id: acc,
            membership_id: acc,
            stake,
            last_payment_block: elected_at,
            unpaid_reward: 0,
        }
    }
}

} // verus!
