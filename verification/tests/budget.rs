//! The budget and reward ledger: periodic refills, privileged
//! administration, and the partial-payment backpressure when the treasury
//! runs dry.

use council::council::{CouncilMember, CouncilStage, CouncilStageUpdate};
use council::mock::{
    build_test_externalities, default_genesis_config, GenesisConfig, InstanceMockUtils,
    InstanceMocks,
};
use council::settings::{
    BUDGET_REFILL_AMOUNT, BUDGET_REFILL_PERIOD, ELECTED_MEMBER_REWARD_PER_BLOCK,
    ELECTED_MEMBER_REWARD_PERIOD,
};
use council::world::OriginType;

/// A world whose genesis seats one member owed rewards from block zero,
/// with the first payment round at block one and an empty treasury.
fn world_with_one_member(budget: u64) -> council::world::World {
    let member = CouncilMember {
        staking_account_id: 1,
        reward_account_id: 2,
        membership_id: 1,
        stake: 0,
        last_payment_block: 0,
        unpaid_reward: 0,
    };
    let config = GenesisConfig {
        stage: CouncilStageUpdate { stage: CouncilStage::Idle, changed_at: 0 },
        council_members: vec![member],
        candidates: Vec::new(),
        announcement_period_nr: 0,
        budget,
        next_reward_payments: 1,
        next_budget_refill: BUDGET_REFILL_PERIOD,
    };
    build_test_externalities(config)
}

/// With an empty treasury at a reward round, the member owed 100 is paid
/// nothing, the shortfall of 100 is recorded, and the member is not
/// removed.
#[test]
fn empty_treasury_records_exact_shortfall() {
    let mut w = world_with_one_member(0);
    // The round at block 1 owes one block of reward: 100.
    InstanceMockUtils::increase_block_number(&mut w, 1);
    assert_eq!(w.council.council_members.len(), 1);
    assert_eq!(w.council.council_members[0].unpaid_reward, ELECTED_MEMBER_REWARD_PER_BLOCK);
    assert_eq!(w.council.council_members[0].last_payment_block, 1);
    assert_eq!(w.council.budget, 0);
    assert_eq!(w.balances.free_balance(2), 0);
}

/// Once a later round finds the treasury covering the whole debt, the
/// shortfall is cleared in full and the remainder stays in the treasury.
#[test]
fn shortfall_cleared_once_treasury_covers_it() {
    let mut w = world_with_one_member(0);
    InstanceMockUtils::increase_block_number(&mut w, 1);
    assert_eq!(w.council.council_members[0].unpaid_reward, ELECTED_MEMBER_REWARD_PER_BLOCK);
    assert!(InstanceMocks::set_budget(&mut w, OriginType::Root, 2000, Ok(())));
    // The next round, at block 11, owes the carried 100 plus ten blocks.
    InstanceMockUtils::increase_block_number(&mut w, ELECTED_MEMBER_REWARD_PERIOD);
    let owed = ELECTED_MEMBER_REWARD_PER_BLOCK
        + ELECTED_MEMBER_REWARD_PER_BLOCK * ELECTED_MEMBER_REWARD_PERIOD;
    assert_eq!(w.council.council_members[0].unpaid_reward, 0);
    assert_eq!(w.council.budget, 2000 - owed);
    assert_eq!(w.balances.free_balance(2), owed);
}

/// A treasury that covers part of the debt is drained to exactly zero and
/// the rest carried forward: the budget never goes negative and never
/// blocks.
#[test]
fn partial_payment_drains_treasury_to_zero() {
    let mut w = world_with_one_member(0);
    InstanceMockUtils::increase_block_number(&mut w, 1);
    assert!(InstanceMocks::set_budget(&mut w, OriginType::Root, 300, Ok(())));
    InstanceMockUtils::increase_block_number(&mut w, ELECTED_MEMBER_REWARD_PERIOD);
    let owed = ELECTED_MEMBER_REWARD_PER_BLOCK
        + ELECTED_MEMBER_REWARD_PER_BLOCK * ELECTED_MEMBER_REWARD_PERIOD;
    assert_eq!(w.council.budget, 0);
    assert_eq!(w.balances.free_balance(2), 300);
    assert_eq!(w.council.council_members[0].unpaid_reward, owed - 300);
    assert_eq!(w.council.council_members.len(), 1);
}

/// The treasury refills by the configured amount when the refill block is
/// reached, and the next refill is scheduled a full period later.
#[test]
fn budget_refills_on_schedule() {
    let mut w = build_test_externalities(default_genesis_config());
    assert!(InstanceMocks::check_budget_refill(&w, 0, BUDGET_REFILL_PERIOD));
    InstanceMockUtils::increase_block_number(&mut w, BUDGET_REFILL_PERIOD);
    assert!(InstanceMocks::check_budget_refill(
        &w,
        BUDGET_REFILL_AMOUNT,
        2 * BUDGET_REFILL_PERIOD
    ));
}

/// The privileged origin can set the budget and plan the next refill; a
/// signed origin cannot.
#[test]
fn budget_administration_is_privileged() {
    let mut w = build_test_externalities(default_genesis_config());
    assert!(InstanceMocks::set_budget(&mut w, OriginType::Signed(1), 5, Err(())));
    assert!(InstanceMocks::plan_budget_refill(&mut w, OriginType::Signed(1), 5, Err(())));
    assert!(InstanceMocks::set_budget(&mut w, OriginType::Root, 77, Ok(())));
    assert!(InstanceMocks::plan_budget_refill(&mut w, OriginType::Root, 5, Ok(())));
    assert!(InstanceMocks::check_budget_refill(&w, 77, 5));
    // The planned refill fires as soon as its block is reached.
    InstanceMockUtils::increase_block_number(&mut w, 5);
    assert!(InstanceMocks::check_budget_refill(
        &w,
        77 + BUDGET_REFILL_AMOUNT,
        5 + BUDGET_REFILL_PERIOD
    ));
}
