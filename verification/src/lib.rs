//! A staged council election protocol: a recurring state machine that rotates
//! a fixed-size governing body, funds it from a treasury budget, and pays
//! per-block rewards to elected members.
//!
//! The core is the stage state machine (Announcing -> Election -> Idle),
//! the candidacy registry with staking, the budget and reward ledger, and the
//! commit-reveal referendum it delegates the election stage to.

use vstd::prelude::*;

pub mod balances;
pub mod council;
pub mod hashing;
pub mod laws;
pub mod mock;
pub mod referendum;
pub mod registry;
pub mod settings;
pub mod world;

verus! {

/// Saturating addition on `u64`, used for treasury and vote-power accrual so
/// that accumulation never wraps.
pub open spec fn sat_add(a: u64, b: u64) -> u64 {
    if a + b > u64::MAX {
        u64::MAX
    } else {
        (a + b) as u64
    }
}

/// Saturating multiplication on `u64`.
pub open spec fn sat_mul(a: u64, b: u64) -> u64 {
    if a * b > u64::MAX {
        u64::MAX
    } else {
        (a * b) as u64
    }
}

/// Executable saturating multiplication, pinned to [`sat_mul`].
pub fn saturating_mul_u64(a: u64, b: u64) -> (r: u64)
    ensures
        r == sat_mul(a, b),
{
    match a.checked_mul(b) {
        Some(v) => v,
        None => u64::MAX,
    }
}

} // verus!
