//! Full election cycles: the staged state machine driven block by block,
//! the commit-reveal referendum, result delivery and stake release.

use council::balances::LockId;
use council::council::{CouncilStage, CouncilStageAnnouncing, CouncilStageElection};
use council::mock::{
    build_test_externalities, default_genesis_config, CouncilCycleInterrupt, CouncilCycleParams,
    InstanceMockUtils, InstanceMocks, CANDIDATE_BASE_ID,
};
use council::settings::{
    CouncilSettings, ANNOUNCING_PERIOD_DURATION, IDLE_PERIOD_DURATION, MINIMUM_VOTING_STAKE,
    MIN_CANDIDATE_STAKE, REVEAL_STAGE_DURATION, VOTE_STAGE_DURATION,
};
use council::world::OriginType;

/// Council size 3, four candidates staking the minimum, ten voters casting
/// votes for candidate indexes 3,3,3,3,0,0,0,1,1,2: the winners are
/// candidates 3, 0 and 1 in that vote-power order; candidate 2 loses and
/// can release its stake once the protocol is idle.
#[test]
fn four_candidates_ten_voters_elect_three() {
    let mut w = build_test_externalities(default_genesis_config());
    let settings = CouncilSettings::extract_settings();

    // Four candidates, each staking exactly the minimum.
    let mut candidates = Vec::new();
    for i in 0..4u64 {
        let c = InstanceMockUtils::generate_candidate(&mut w, i, settings.min_candidate_stake);
        assert!(InstanceMocks::announce_candidacy(
            &mut w,
            c.origin,
            c.membership_id,
            settings.min_candidate_stake,
            Ok(()),
        ));
        candidates.push(c);
    }
    assert!(InstanceMocks::check_announcing_stake(
        &w,
        candidates[0].membership_id,
        settings.min_candidate_stake
    ));

    // The announcing period elapses; the election starts.
    InstanceMockUtils::increase_block_number(&mut w, ANNOUNCING_PERIOD_DURATION);
    assert!(InstanceMocks::check_election_period(
        &w,
        ANNOUNCING_PERIOD_DURATION,
        CouncilStageElection { candidates_count: 4 },
    ));

    // Ten voters commit, then reveal, by candidate index.
    let votes_map: Vec<u64> = vec![3, 3, 3, 3, 0, 0, 0, 1, 1, 2];
    let mut voters = Vec::new();
    let nr = w.council.announcement_period_nr;
    for (i, target) in votes_map.iter().enumerate() {
        let v = InstanceMockUtils::generate_voter(
            &mut w,
            i as u64,
            MINIMUM_VOTING_STAKE,
            CANDIDATE_BASE_ID + *target,
            nr,
        );
        assert!(InstanceMocks::vote_for_candidate(
            &mut w,
            v.origin,
            v.commitment.clone(),
            v.stake,
            Ok(()),
        ));
        voters.push(v);
    }

    InstanceMockUtils::increase_block_number(&mut w, VOTE_STAGE_DURATION);
    assert!(InstanceMocks::check_referendum_revealing(
        &w,
        3,
        &Vec::new(),
        &Vec::new(),
        ANNOUNCING_PERIOD_DURATION + VOTE_STAGE_DURATION,
    ));
    for v in &voters {
        assert!(InstanceMocks::reveal_vote(&mut w, v.origin, &v.salt, v.vote_for, Ok(())));
    }
    // The canonical tally lives on the candidate records.
    let tally: Vec<(u64, u64)> = vec![
        (CANDIDATE_BASE_ID + 3, 4 * MINIMUM_VOTING_STAKE),
        (CANDIDATE_BASE_ID, 3 * MINIMUM_VOTING_STAKE),
        (CANDIDATE_BASE_ID + 1, 2 * MINIMUM_VOTING_STAKE),
        (CANDIDATE_BASE_ID + 2, MINIMUM_VOTING_STAKE),
    ];
    for (option, power) in &tally {
        assert_eq!(council::mock::Runtime::get_option_power(&w, *option), *power);
    }

    // Revealing elapses; the results seat candidates 3, 0, 1 in that order.
    InstanceMockUtils::increase_block_number(&mut w, REVEAL_STAGE_DURATION);
    let elected_at = ANNOUNCING_PERIOD_DURATION + VOTE_STAGE_DURATION + REVEAL_STAGE_DURATION;
    assert!(InstanceMocks::check_idle_period(&w, elected_at));
    assert_eq!(w.council.council_members.len(), 3);
    let seated: Vec<u64> =
        w.council.council_members.iter().map(|m| m.membership_id).collect();
    assert_eq!(
        seated,
        vec![CANDIDATE_BASE_ID + 3, CANDIDATE_BASE_ID, CANDIDATE_BASE_ID + 1]
    );
    for m in &w.council.council_members {
        assert_eq!(m.last_payment_block, elected_at);
        assert_eq!(m.unpaid_reward, 0);
        assert_eq!(m.stake, MIN_CANDIDATE_STAKE);
        // The winner's stake moved from the candidacy to the councilor lock.
        assert_eq!(w.balances.lock_amount(m.staking_account_id, LockId::Candidacy), 0);
        assert_eq!(
            w.balances.lock_amount(m.staking_account_id, LockId::Councilor),
            MIN_CANDIDATE_STAKE
        );
    }

    // The loser's record survived and its stake is releasable.
    let loser = CANDIDATE_BASE_ID + 2;
    assert_eq!(w.balances.lock_amount(loser, LockId::Candidacy), MIN_CANDIDATE_STAKE);
    assert!(InstanceMocks::release_candidacy_stake(
        &mut w,
        OriginType::Signed(loser),
        loser,
        Ok(()),
    ));
    assert_eq!(w.balances.lock_amount(loser, LockId::Candidacy), 0);

    // The idle period elapses; a new cycle's announcing begins.
    InstanceMockUtils::increase_block_number(&mut w, IDLE_PERIOD_DURATION + 1);
    assert!(InstanceMocks::check_announcing_period(
        &w,
        elected_at + IDLE_PERIOD_DURATION,
        CouncilStageAnnouncing { candidates_count: 0 },
    ));
    assert_eq!(w.council.announcement_period_nr, 1);
}

/// The generated full lifecycle: five candidates, ten voters, the three
/// best-voted seated.
#[test]
fn run_full_council_cycle_elects_expected_members() {
    let mut w = build_test_externalities(default_genesis_config());
    let (ok, params) = InstanceMocks::run_full_council_cycle(&mut w, 0, &Vec::new(), 0);
    assert!(ok);
    assert_eq!(params.expected_final_council_members.len(), 3);
    assert_eq!(
        params.expected_final_council_members[0].membership_id,
        CANDIDATE_BASE_ID + 3
    );
    assert_eq!(params.expected_final_council_members[1].membership_id, CANDIDATE_BASE_ID);
    assert_eq!(
        params.expected_final_council_members[2].membership_id,
        CANDIDATE_BASE_ID + 1
    );
    assert_eq!(w.council.announcement_period_nr, 1);
}

/// A second full cycle runs on top of the first, with fresh participants.
#[test]
fn second_cycle_replaces_council() {
    let mut w = build_test_externalities(default_genesis_config());
    let settings = CouncilSettings::extract_settings();
    let (ok, _params) = InstanceMocks::run_full_council_cycle(&mut w, 0, &Vec::new(), 0);
    assert!(ok);
    // Keep the treasury solvent so the seated members' rewards are paid in
    // full and their records are stable between the cycles' checkpoints.
    assert!(InstanceMocks::set_budget(&mut w, OriginType::Root, 1_000_000_000, Ok(())));
    let initial = w.council.council_members.clone();
    let (ok2, params2) = InstanceMocks::run_full_council_cycle(
        &mut w,
        settings.cycle_duration,
        &initial,
        10,
    );
    assert!(ok2);
    let seated: Vec<u64> = w.council.council_members.iter().map(|m| m.membership_id).collect();
    let expected: Vec<u64> = params2
        .expected_final_council_members
        .iter()
        .map(|m| m.membership_id)
        .collect();
    assert_eq!(seated, expected);
    assert_eq!(w.council.announcement_period_nr, 2);
}

/// Announcing extends in place when the period elapses with fewer
/// candidates than the floor, and candidacies are still accepted after the
/// extension.
#[test]
fn announcing_extends_on_too_few_candidates() {
    let mut w = build_test_externalities(default_genesis_config());
    let settings = CouncilSettings::extract_settings();

    // Two candidates: below the floor of four.
    for i in 0..2u64 {
        let c = InstanceMockUtils::generate_candidate(&mut w, i, settings.min_candidate_stake);
        assert!(InstanceMocks::announce_candidacy(
            &mut w,
            c.origin,
            c.membership_id,
            settings.min_candidate_stake,
            Ok(()),
        ));
    }
    InstanceMockUtils::increase_block_number(&mut w, ANNOUNCING_PERIOD_DURATION);
    // Extended: still announcing, same count, restarted at the elapse block.
    assert!(InstanceMocks::check_announcing_period(
        &w,
        ANNOUNCING_PERIOD_DURATION,
        CouncilStageAnnouncing { candidates_count: 2 },
    ));
    assert_eq!(w.council.announcement_period_nr, 0);

    // Candidacies are still accepted; once the floor is met, the next
    // elapse starts the election.
    for i in 2..4u64 {
        let c = InstanceMockUtils::generate_candidate(&mut w, i, settings.min_candidate_stake);
        assert!(InstanceMocks::announce_candidacy(
            &mut w,
            c.origin,
            c.membership_id,
            settings.min_candidate_stake,
            Ok(()),
        ));
    }
    InstanceMockUtils::increase_block_number(&mut w, ANNOUNCING_PERIOD_DURATION);
    assert!(InstanceMocks::check_election_period(
        &w,
        2 * ANNOUNCING_PERIOD_DURATION,
        CouncilStageElection { candidates_count: 4 },
    ));
}

/// The stage only ever steps forward through the cycle: observing the stage
/// at every block of a full cycle sees Announcing, then Election, then
/// Idle, then Announcing again, with no other order.
#[test]
fn stage_never_regresses_over_a_cycle() {
    let mut w = build_test_externalities(default_genesis_config());
    let settings = CouncilSettings::extract_settings();
    for i in 0..4u64 {
        let c = InstanceMockUtils::generate_candidate(&mut w, i, settings.min_candidate_stake);
        assert!(InstanceMocks::announce_candidacy(
            &mut w,
            c.origin,
            c.membership_id,
            settings.min_candidate_stake,
            Ok(()),
        ));
    }
    let mut last_rank = 0u8; // 0 announcing, 1 election, 2 idle
    let mut wrapped = false;
    for _ in 0..(settings.cycle_duration + 2) {
        InstanceMockUtils::increase_block_number(&mut w, 1);
        let rank = match w.council.stage_update.stage {
            CouncilStage::Announcing(_) => 0,
            CouncilStage::Election(_) => 1,
            CouncilStage::Idle => 2,
        };
        if rank != last_rank {
            if last_rank == 2 && rank == 0 {
                wrapped = true;
            } else {
                assert_eq!(rank, last_rank + 1, "stage skipped or regressed");
            }
            last_rank = rank;
        }
    }
    assert!(wrapped, "the cycle should have wrapped back to announcing");
}

/// A cycle driven through the simulation harness stops cleanly at an
/// interrupt point, leaving the intermediate state for inspection.
#[test]
fn simulate_cycle_with_interrupt() {
    let mut w = build_test_externalities(default_genesis_config());
    let settings = CouncilSettings::extract_settings();
    let mut candidates = Vec::new();
    for i in 0..4u64 {
        candidates.push(InstanceMockUtils::generate_candidate(
            &mut w,
            i,
            settings.min_candidate_stake,
        ));
    }
    let expected_candidates: Vec<council::council::Candidate> =
        candidates.iter().map(|c| c.candidate.clone()).collect();
    let params = CouncilCycleParams {
        council_settings: settings,
        cycle_start_block_number: 0,
        expected_initial_council_members: Vec::new(),
        expected_final_council_members: Vec::new(),
        candidates_announcing: candidates,
        expected_candidates,
        voters: Vec::new(),
        interrupt_point: Some(CouncilCycleInterrupt::AfterCandidatesAnnounce),
    };
    assert!(InstanceMocks::simulate_council_cycle(&mut w, &params));
    // Stopped right after announcing: all four candidacies are in, the
    // stage has not advanced.
    assert!(InstanceMocks::check_announcing_period(
        &w,
        0,
        CouncilStageAnnouncing { candidates_count: 4 },
    ));
    assert_eq!(w.council.candidates.len(), 4);
}
