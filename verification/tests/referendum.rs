//! The commit-reveal referendum: vote and reveal validation, vote-power
//! weighting, the council's veto on early stake release, and the feature
//! switches the harness flips.

use council::balances::LockId;
use council::hashing::{blake2b_256, calculate_commitment};
use council::mock::{
    build_test_externalities, default_genesis_config, InstanceMockUtils, InstanceMocks, Runtime,
    CANDIDATE_BASE_ID, POWER_VOTE_STRENGTH, USER_REGULAR_POWER_VOTES, VOTER_BASE_ID,
};
use council::referendum::CastVote;
use council::settings::{
    CouncilSettings, ANNOUNCING_PERIOD_DURATION, MINIMUM_VOTING_STAKE, MIN_CANDIDATE_STAKE,
    VOTE_STAGE_DURATION,
};
use council::world::OriginType;

/// A world in the voting stage with four announced candidates.
fn world_in_voting() -> council::world::World {
    let mut w = build_test_externalities(default_genesis_config());
    let settings = CouncilSettings::extract_settings();
    for i in 0..4u64 {
        let c = InstanceMockUtils::generate_candidate(&mut w, i, settings.min_candidate_stake);
        assert!(InstanceMocks::announce_candidacy(
            &mut w,
            c.origin,
            c.membership_id,
            settings.min_candidate_stake,
            Ok(()),
        ));
    }
    InstanceMockUtils::increase_block_number(&mut w, ANNOUNCING_PERIOD_DURATION);
    w
}

/// Voting outside the voting stage is refused.
#[test]
fn vote_outside_voting_stage() {
    let mut w = build_test_externalities(default_genesis_config());
    let v = InstanceMockUtils::generate_voter(&mut w, 0, MINIMUM_VOTING_STAKE, 1, 0);
    assert!(InstanceMocks::vote_for_candidate(
        &mut w,
        v.origin,
        v.commitment.clone(),
        v.stake,
        Err(()),
    ));
}

/// A vote below the minimum stake, from an empty account, or from an
/// account that already voted, is refused; a valid vote locks its stake.
#[test]
fn vote_validation() {
    let mut w = world_in_voting();
    let nr = w.council.announcement_period_nr;
    let v = InstanceMockUtils::generate_voter(
        &mut w,
        0,
        MINIMUM_VOTING_STAKE,
        CANDIDATE_BASE_ID,
        nr,
    );
    // Too little stake.
    assert!(InstanceMocks::vote_for_candidate(
        &mut w,
        v.origin,
        v.commitment.clone(),
        MINIMUM_VOTING_STAKE - 1,
        Err(()),
    ));
    // An unfunded account.
    assert!(InstanceMocks::vote_for_candidate(
        &mut w,
        OriginType::Signed(VOTER_BASE_ID + 500),
        v.commitment.clone(),
        MINIMUM_VOTING_STAKE,
        Err(()),
    ));
    // A valid vote locks the stake.
    assert!(InstanceMocks::vote_for_candidate(
        &mut w,
        v.origin,
        v.commitment.clone(),
        v.stake,
        Ok(()),
    ));
    assert_eq!(w.balances.lock_amount(v.account_id, LockId::Voting), MINIMUM_VOTING_STAKE);
    // A second vote by the same account.
    assert!(InstanceMocks::vote_for_candidate(
        &mut w,
        v.origin,
        v.commitment.clone(),
        v.stake,
        Err(()),
    ));
}

/// Reveals are validated: the stage, the vote's existence, the salt length,
/// the option's validity and the commitment must all line up, and a vote
/// reveals only once.
#[test]
fn reveal_validation() {
    let mut w = world_in_voting();
    let nr = w.council.announcement_period_nr;
    let v = InstanceMockUtils::generate_voter(
        &mut w,
        0,
        MINIMUM_VOTING_STAKE,
        CANDIDATE_BASE_ID,
        nr,
    );
    assert!(InstanceMocks::vote_for_candidate(
        &mut w,
        v.origin,
        v.commitment.clone(),
        v.stake,
        Ok(()),
    ));
    // Revealing has not begun yet.
    assert!(InstanceMocks::reveal_vote(&mut w, v.origin, &v.salt, v.vote_for, Err(())));
    InstanceMockUtils::increase_block_number(&mut w, VOTE_STAGE_DURATION);
    // No vote exists for this account.
    assert!(InstanceMocks::reveal_vote(
        &mut w,
        OriginType::Signed(VOTER_BASE_ID + 500),
        &v.salt,
        v.vote_for,
        Err(()),
    ));
    // An overlong salt.
    let long_salt = vec![0u8; 33];
    assert!(InstanceMocks::reveal_vote(&mut w, v.origin, &long_salt, v.vote_for, Err(())));
    // An option that is no candidate.
    assert!(InstanceMocks::reveal_vote(&mut w, v.origin, &v.salt, 42, Err(())));
    // The wrong salt does not reproduce the commitment.
    let wrong_salt = vec![1u8; 8];
    assert!(InstanceMocks::reveal_vote(&mut w, v.origin, &wrong_salt, v.vote_for, Err(())));
    // The right salt and option reveal the vote.
    assert!(InstanceMocks::reveal_vote(&mut w, v.origin, &v.salt, v.vote_for, Ok(())));
    assert_eq!(
        Runtime::get_option_power(&w, CANDIDATE_BASE_ID),
        MINIMUM_VOTING_STAKE
    );
    // Only once.
    assert!(InstanceMocks::reveal_vote(&mut w, v.origin, &v.salt, v.vote_for, Err(())));
}

/// With the validity switch off, every option is reported invalid and
/// reveals are refused.
#[test]
fn validity_switch_rejects_options() {
    let mut w = world_in_voting();
    let nr = w.council.announcement_period_nr;
    let v = InstanceMockUtils::generate_voter(
        &mut w,
        0,
        MINIMUM_VOTING_STAKE,
        CANDIDATE_BASE_ID,
        nr,
    );
    assert!(InstanceMocks::vote_for_candidate(
        &mut w,
        v.origin,
        v.commitment.clone(),
        v.stake,
        Ok(()),
    ));
    InstanceMockUtils::increase_block_number(&mut w, VOTE_STAGE_DURATION);
    Runtime::_feature_option_id_valid(&mut w, false);
    assert!(!Runtime::is_valid_option_id(&w, CANDIDATE_BASE_ID));
    assert!(InstanceMocks::reveal_vote(&mut w, v.origin, &v.salt, v.vote_for, Err(())));
    Runtime::_feature_option_id_valid(&mut w, true);
    assert!(Runtime::is_valid_option_id(&w, CANDIDATE_BASE_ID));
    assert!(InstanceMocks::reveal_vote(&mut w, v.origin, &v.salt, v.vote_for, Ok(())));
}

/// The vote of the power-voting account counts tenfold.
#[test]
fn vote_power_weighting() {
    assert_eq!(Runtime::calculate_vote_power(USER_REGULAR_POWER_VOTES, 500), 5000);
    assert_eq!(Runtime::calculate_vote_power(USER_REGULAR_POWER_VOTES, 1), POWER_VOTE_STRENGTH);
    assert_eq!(Runtime::calculate_vote_power(4000, 500), 500);
}

/// The council vetoes a vote-stake release while the vote's cycle is
/// unresolved; once the cycle is idle (or a later one has begun) the stake
/// goes free — and the unstake switch vetoes everything.
#[test]
fn vote_stake_release_veto() {
    let mut w = world_in_voting();
    let nr = w.council.announcement_period_nr;
    let v = InstanceMockUtils::generate_voter(
        &mut w,
        0,
        MINIMUM_VOTING_STAKE,
        CANDIDATE_BASE_ID,
        nr,
    );
    assert!(InstanceMocks::vote_for_candidate(
        &mut w,
        v.origin,
        v.commitment.clone(),
        v.stake,
        Ok(()),
    ));
    // The cycle is unresolved: the release is vetoed.
    let vote = CastVote {
        account_id: v.account_id,
        commitment: v.commitment.clone(),
        stake: v.stake,
        cycle_id: nr,
        vote_for: None,
    };
    assert!(!Runtime::can_unlock_vote_stake(&w, &vote));
    assert!(InstanceMocks::release_vote_stake(&mut w, v.origin, Err(())));
    // Let the cycle resolve (nobody else votes: the referendum delivers an
    // empty winner set and the protocol goes idle).
    InstanceMockUtils::increase_block_number(&mut w, VOTE_STAGE_DURATION);
    assert!(InstanceMocks::reveal_vote(&mut w, v.origin, &v.salt, v.vote_for, Ok(())));
    InstanceMockUtils::increase_block_number(&mut w, 100);
    // The unstake switch vetoes everything.
    w.is_unstake_enabled = false;
    assert!(InstanceMocks::release_vote_stake(&mut w, v.origin, Err(())));
    w.is_unstake_enabled = true;
    assert!(InstanceMocks::release_vote_stake(&mut w, v.origin, Ok(())));
    assert_eq!(w.balances.lock_amount(v.account_id, LockId::Voting), 0);
    // The vote record is gone: a second release finds nothing.
    assert!(InstanceMocks::release_vote_stake(&mut w, v.origin, Err(())));
}

/// The commitment digest is a real hash of its input, not the input handed
/// back: it has a fixed 32-byte length whatever the input length, and the
/// digest of an empty input matches the published 256-bit BLAKE2b value.
#[test]
fn digest_is_blake2b_256() {
    let empty: Vec<u8> = Vec::new();
    let digest = blake2b_256(&empty);
    let expected: Vec<u8> = vec![
        0x0e, 0x57, 0x51, 0xc0, 0x26, 0xe5, 0x43, 0xb2, 0xe8, 0xab, 0x2e, 0xb0, 0x60, 0x99,
        0xda, 0xa1, 0xd1, 0xe5, 0xdf, 0x47, 0x77, 0x8f, 0x77, 0x87, 0xfa, 0xab, 0x45, 0xcd,
        0xf1, 0x2f, 0xe3, 0xa8,
    ];
    assert_eq!(digest, expected);
    // A commitment differs from the raw bytes it is computed over.
    let salt = vec![7u8; 8];
    let commitment = calculate_commitment(1, &salt, 2, 3);
    assert_eq!(commitment.len(), 32);
    let mut raw = Vec::new();
    raw.extend_from_slice(&1u64.to_be_bytes());
    raw.extend_from_slice(&salt);
    raw.extend_from_slice(&2u64.to_be_bytes());
    raw.extend_from_slice(&3u64.to_be_bytes());
    assert_ne!(commitment, raw);
    // Different salts commit differently.
    let other_salt = vec![8u8; 8];
    assert_ne!(commitment, calculate_commitment(1, &other_salt, 2, 3));
}

/// The salt generator returns eight bytes and does not repeat itself.
#[test]
fn salt_generator_is_fresh() {
    let mut salts = Vec::new();
    for _ in 0..8 {
        let s = InstanceMockUtils::generate_salt();
        assert_eq!(s.len(), 8);
        salts.push(s);
    }
    let mut any_different = false;
    for s in &salts[1..] {
        if s != &salts[0] {
            any_different = true;
        }
    }
    assert!(any_different, "eight salts in a row should not all coincide");
}

/// The mocked origin passes through unchanged.
#[test]
fn mock_origin_is_identity() {
    assert_eq!(
        InstanceMockUtils::mock_origin(OriginType::Signed(7)),
        OriginType::Signed(7)
    );
    assert_eq!(InstanceMockUtils::mock_origin(OriginType::Root), OriginType::Root);
}

/// The intermediate winners list is kept sorted by vote power, descending;
/// of two options with equal power, the one that reached it first stays
/// ahead, and an overtaking option moves ahead only with strictly more
/// power.
#[test]
fn intermediate_winners_order_and_tie_break() {
    let mut w = world_in_voting();
    let nr = w.council.announcement_period_nr;
    let c0 = CANDIDATE_BASE_ID;
    let c1 = CANDIDATE_BASE_ID + 1;
    let mut voters = Vec::new();
    for (i, target) in [c1, c0, c0].iter().enumerate() {
        let v = InstanceMockUtils::generate_voter(
            &mut w,
            i as u64,
            MINIMUM_VOTING_STAKE,
            *target,
            nr,
        );
        assert!(InstanceMocks::vote_for_candidate(
            &mut w,
            v.origin,
            v.commitment.clone(),
            v.stake,
            Ok(()),
        ));
        voters.push(v);
    }
    InstanceMockUtils::increase_block_number(&mut w, VOTE_STAGE_DURATION);
    let started = ANNOUNCING_PERIOD_DURATION + VOTE_STAGE_DURATION;

    // First reveal: c1 alone.
    assert!(InstanceMocks::reveal_vote(&mut w, voters[0].origin, &voters[0].salt, c1, Ok(())));
    let expect = vec![council::referendum::OptionResult { option_id: c1, vote_power: MINIMUM_VOTING_STAKE }];
    let tally = vec![(c1, MINIMUM_VOTING_STAKE)];
    assert!(InstanceMocks::check_referendum_revealing(&w, 3, &expect, &tally, started));

    // Equal power: the first to reach it stays ahead.
    assert!(InstanceMocks::reveal_vote(&mut w, voters[1].origin, &voters[1].salt, c0, Ok(())));
    let expect = vec![
        council::referendum::OptionResult { option_id: c1, vote_power: MINIMUM_VOTING_STAKE },
        council::referendum::OptionResult { option_id: c0, vote_power: MINIMUM_VOTING_STAKE },
    ];
    let tally = vec![(c1, MINIMUM_VOTING_STAKE), (c0, MINIMUM_VOTING_STAKE)];
    assert!(InstanceMocks::check_referendum_revealing(&w, 3, &expect, &tally, started));

    // Strictly more power overtakes.
    assert!(InstanceMocks::reveal_vote(&mut w, voters[2].origin, &voters[2].salt, c0, Ok(())));
    let expect = vec![
        council::referendum::OptionResult { option_id: c0, vote_power: 2 * MINIMUM_VOTING_STAKE },
        council::referendum::OptionResult { option_id: c1, vote_power: MINIMUM_VOTING_STAKE },
    ];
    let tally = vec![(c0, 2 * MINIMUM_VOTING_STAKE), (c1, MINIMUM_VOTING_STAKE)];
    assert!(InstanceMocks::check_referendum_revealing(&w, 3, &expect, &tally, started));
}

/// A winner that cannot be resolved to a live candidacy is a cross-module
/// invariant violation: the whole delivery halts with no state change.
#[test]
fn unresolvable_winner_halts_delivery() {
    let mut w = world_in_voting();
    InstanceMockUtils::increase_block_number(&mut w, VOTE_STAGE_DURATION);
    // Revealing is in progress; hand the council a winner that is not a
    // candidate.
    let bogus = vec![council::referendum::OptionResult { option_id: 42, vote_power: 1 }];
    assert!(!Runtime::process_results(&mut w, &bogus));
    // Nothing moved: still revealing, no member seated.
    assert!(InstanceMocks::check_referendum_revealing(
        &w,
        3,
        &Vec::new(),
        &Vec::new(),
        ANNOUNCING_PERIOD_DURATION + VOTE_STAGE_DURATION,
    ));
    assert_eq!(w.council.council_members.len(), 0);
}

/// A vote cast in an earlier cycle cannot be revealed in a later one.
#[test]
fn stale_vote_cannot_be_revealed() {
    let mut w = world_in_voting();
    let nr = w.council.announcement_period_nr;
    let v = InstanceMockUtils::generate_voter(
        &mut w,
        0,
        MINIMUM_VOTING_STAKE,
        CANDIDATE_BASE_ID,
        nr,
    );
    assert!(InstanceMocks::vote_for_candidate(
        &mut w,
        v.origin,
        v.commitment.clone(),
        v.stake,
        Ok(()),
    ));
    // Let the whole cycle resolve and the next cycle reach its own
    // revealing stage.
    InstanceMockUtils::increase_block_number(&mut w, 100);
    let settings = CouncilSettings::extract_settings();
    for i in 10..14u64 {
        let c = InstanceMockUtils::generate_candidate(&mut w, i, settings.min_candidate_stake);
        assert!(InstanceMocks::announce_candidacy(
            &mut w,
            c.origin,
            c.membership_id,
            settings.min_candidate_stake,
            Ok(()),
        ));
    }
    InstanceMockUtils::increase_block_number(
        &mut w,
        settings.announcing_stage_duration + settings.voting_stage_duration + 2,
    );
    // The old, unrevealed vote is refused in the new cycle's revealing.
    assert!(InstanceMocks::reveal_vote(&mut w, v.origin, &v.salt, v.vote_for, Err(())));
}

/// Referendum calls need a signed origin: the privileged origin cannot
/// vote, reveal or release.
#[test]
fn referendum_calls_need_signed_origin() {
    let mut w = world_in_voting();
    let commitment = vec![0u8; 32];
    assert!(InstanceMocks::vote_for_candidate(
        &mut w,
        OriginType::Root,
        commitment,
        MINIMUM_VOTING_STAKE,
        Err(()),
    ));
    let salt = vec![0u8; 8];
    assert!(InstanceMocks::reveal_vote(&mut w, OriginType::Root, &salt, 0, Err(())));
    assert!(InstanceMocks::release_vote_stake(&mut w, OriginType::Root, Err(())));
}
