//! The commit-reveal referendum engine the council delegates its election
//! stage to: cast votes, the voting/revealing stage machine, and the running
//! list of intermediate winners ordered by vote power.
//!
//! The winners list is kept sorted by vote power, descending.  When a reveal
//! raises an option's power, the option's entry is reinserted after every
//! entry with at least its new power: of two options with equal power, the
//! one that reached it first stays ahead, which makes the final order
//! deterministic.

use vstd::prelude::*;

verus! {

/// The account whose votes count tenfold, exercising power-weighted voting.
pub const USER_REGULAR_POWER_VOTES: u64 = 0;

/// The vote-power multiplier of that account.
pub const POWER_VOTE_STRENGTH: u64 = 10;

/// A cast vote: the commitment hides the chosen option until it is revealed.
#[derive(Clone, Debug)]
pub struct CastVote {
    pub account_id: u64,
    pub commitment: Vec<u8>,
    pub stake: u64,
    /// The announcement period the vote was cast in; a reveal in a later
    /// cycle is rejected, so a vote cannot be replayed across cycles.
    pub cycle_id: u64,
    /// The revealed option, once the vote has been revealed.
    pub vote_for: Option<u64>,
}

/// An option together with its revealed vote power.
#[derive(Clone, Copy, PartialEq, Eq, Structural, Debug)]
pub struct OptionResult {
    pub option_id: u64,
    pub vote_power: u64,
}

/// The voting stage of the referendum.
#[derive(Clone, Copy, PartialEq, Eq, Structural, Debug)]
pub struct ReferendumStageVoting {
    pub started: u64,
    /// How many winners the caller asked for: the council size.
    pub winning_target_count: u64,
    pub current_cycle_id: u64,
}

/// The revealing stage of the referendum.
#[derive(Clone, Debug)]
pub struct ReferendumStageRevealing {
    pub started: u64,
    pub winning_target_count: u64,
    /// Every option revealed so far, sorted by vote power, descending.
    pub intermediate_winners: Vec<OptionResult>,
    pub current_cycle_id: u64,
}

/// The referendum's phase.
#[derive(Clone, Debug)]
pub enum ReferendumStage {
    /// No election in progress.
    Inactive,
    /// Accepting vote commitments.
    Voting(ReferendumStageVoting),
    /// Accepting reveals of the committed votes.
    Revealing(ReferendumStageRevealing),
}

/// The errors the referendum's user-facing operations surface.
#[derive(Clone, Copy, PartialEq, Eq, Structural, Debug)]
pub enum ReferendumError {
    /// The call needs a signed origin.
    BadOrigin,
    /// Votes are only accepted while the voting stage lasts.
    ReferendumNotRunning,
    /// Reveals are only accepted while the revealing stage lasts.
    RevealingNotInProgress,
    /// The offered stake is below the voting threshold.
    InsufficientStake,
    /// The account cannot cover the offered stake.
    InsufficientBalance,
    /// The account already has an unresolved vote.
    AlreadyVoted,
    /// No vote exists for the account.
    VoteNotExisting,
    /// The vote was already revealed.
    AlreadyRevealed,
    /// The salt exceeds the accepted length.
    SaltTooLong,
    /// The vote names an option that is not a valid candidate, or was cast in
    /// an earlier cycle.
    InvalidVote,
    /// The salt and option do not reproduce the commitment.
    InvalidReveal,
    /// The vote's stake is still tied to an unresolved cycle.
    UnstakingForbidden,
}

/// The referendum's persisted state: its stage and the cast votes.
#[derive(Debug)]
pub struct ReferendumState {
    pub stage: ReferendumStage,
    pub votes: Vec<CastVote>,
}

/// The weight of a vote: stake, amplified for the power-voting account.
pub open spec fn spec_vote_power(account_id: u64, stake: u64) -> u64 {
    if account_id == USER_REGULAR_POWER_VOTES {
        crate::sat_mul(stake, POWER_VOTE_STRENGTH)
    } else {
        stake
    }
}

/// Whether account `a` has a cast vote in `s`.
pub open spec fn has_vote(s: Seq<CastVote>, a: u64) -> bool {
    exists|i: int| 0 <= i < s.len() && s[i].account_id == a
}

/// The index of account `a`'s vote.
pub open spec fn vote_idx(s: Seq<CastVote>, a: u64) -> int {
    choose|i: int| 0 <= i < s.len() && s[i].account_id == a
}

/// Account `a`'s vote.
pub open spec fn spec_vote(s: Seq<CastVote>, a: u64) -> CastVote {
    s[vote_idx(s, a)]
}

/// Each account has at most one cast vote.
pub open spec fn votes_wf(s: Seq<CastVote>) -> bool {
    forall|i: int, j: int| 0 <= i < j < s.len() ==> s[i].account_id != s[j].account_id
}

/// Under unique accounts, any position holding `a` is the position
/// [`vote_idx`] denotes.
pub proof fn lemma_vote_idx(s: Seq<CastVote>, a: u64, i: int)
    requires
        votes_wf(s),
        0 <= i < s.len(),
        s[i].account_id == a,
    ensures
        has_vote(s, a),
        vote_idx(s, a) == i,
{
    assert(has_vote(s, a));
    let j = vote_idx(s, a);
    assert(0 <= j < s.len() && s[j].account_id == a);
    if i < j {
        assert(s[i].account_id != s[j].account_id);
    } else if j < i {
        assert(s[j].account_id != s[i].account_id);
    }
}

/// Sorted by vote power, descending.
pub open spec fn winners_sorted(ws: Seq<OptionResult>) -> bool {
    forall|i: int, j: int| 0 <= i < j < ws.len() ==> ws[i].vote_power >= ws[j].vote_power
}

/// Option identities in the winners list are unique.
pub open spec fn winners_unique(ws: Seq<OptionResult>) -> bool {
    forall|i: int, j: int| 0 <= i < j < ws.len() ==> ws[i].option_id != ws[j].option_id
}

/// Whether option `o` is in the winners list.
pub open spec fn has_winner(ws: Seq<OptionResult>, o: u64) -> bool {
    exists|i: int| 0 <= i < ws.len() && ws[i].option_id == o
}

/// The index of option `o`'s entry.
pub open spec fn winner_idx(ws: Seq<OptionResult>, o: u64) -> int {
    choose|i: int| 0 <= i < ws.len() && ws[i].option_id == o
}

/// The listed vote power of option `o`; zero if absent.
pub open spec fn spec_winner_power(ws: Seq<OptionResult>, o: u64) -> u64 {
    if has_winner(ws, o) {
        ws[winner_idx(ws, o)].vote_power
    } else {
        0
    }
}

/// Under unique options, any position holding `o` is the position
/// [`winner_idx`] denotes.
pub proof fn lemma_winner_idx(ws: Seq<OptionResult>, o: u64, i: int)
    requires
        winners_unique(ws),
        0 <= i < ws.len(),
        ws[i].option_id == o,
    ensures
        has_winner(ws, o),
        winner_idx(ws, o) == i,
{
    assert(has_winner(ws, o));
    let j = winner_idx(ws, o);
    assert(0 <= j < ws.len() && ws[j].option_id == o);
    if i < j {
        assert(ws[i].option_id != ws[j].option_id);
    } else if j < i {
        assert(ws[j].option_id != ws[i].option_id);
    }
}

/// The executable vote weighting, pinned to [`spec_vote_power`].
pub fn calculate_vote_power_of(account_id: u64, stake: u64) -> (r: u64)
    ensures
        r == spec_vote_power(account_id, stake),
{
    if account_id == USER_REGULAR_POWER_VOTES {
        crate::saturating_mul_u64(stake, POWER_VOTE_STRENGTH)
    } else {
        stake
    }
}

/// The position of option `option_id` in the winners list, if present.
fn find_winner(ws: &Vec<OptionResult>, option_id: u64) -> (r: Option<usize>)
    ensures
        match r {
            Some(i) => i < ws@.len() && ws@[i as int].option_id == option_id,
            None => !has_winner(ws@, option_id),
        },
{
    let n = ws.len();
    let mut i: usize = 0;
    while i < n
        invariant
            i <= n,
            n == ws@.len(),
            forall|j: int| 0 <= j < i ==> ws@[j].option_id != option_id,
        decreases n - i,
    {
        if ws[i].option_id == option_id {
            return Some(i);
        }
        i = i + 1;
    }
    assert(!has_winner(ws@, option_id)) by {
        if has_winner(ws@, option_id) {
            let k = winner_idx(ws@, option_id);
            assert(0 <= k < ws@.len() && ws@[k].option_id == option_id);
        }
    }
    None
}

/// Records that option `option_id` now holds `new_power` vote power: its
/// entry is updated (or added) and moved to its place in the descending
/// order, after every entry with at least its new power.
#[verifier::loop_isolation(false)]
#[verifier::rlimit(60)]
pub fn update_winner(ws: &mut Vec<OptionResult>, option_id: u64, new_power: u64)
    requires
        winners_sorted(old(ws)@),
        winners_unique(old(ws)@),
    ensures
        winners_sorted(final(ws)@),
        winners_unique(final(ws)@),
        has_winner(final(ws)@, option_id),
        spec_winner_power(final(ws)@, option_id) == new_power,
        forall|o: u64|
            o != option_id ==> #[trigger] has_winner(final(ws)@, o) == has_winner(old(ws)@, o),
        forall|o: u64|
            o != option_id ==> #[trigger] spec_winner_power(final(ws)@, o) == spec_winner_power(
                old(ws)@,
                o,
            ),
        final(ws)@.len() == old(ws)@.len() + if has_winner(old(ws)@, option_id) {
            0int
        } else {
            1int
        },
{
    let ghost s0 = ws@;
    let ghost had = has_winner(s0, option_id);
    // Drop the option's old entry, if any.
    match find_winner(ws, option_id) {
        Some(i) => {
            proof {
                lemma_winner_idx(s0, option_id, i as int);
            }
            ws.remove(i);
            proof {
                s0.remove_ensures(i as int);
                assert(ws@ == s0.remove(i as int));
            }
        }
        None => {
            assert(ws@ == s0);
        }
    }
    let ghost s1 = ws@;
    proof {
        if had {
            let k = winner_idx(s0, option_id);
            s0.remove_ensures(k);
            assert(winners_sorted(s1)) by {
                assert forall|x: int, y: int| 0 <= x < y < s1.len() implies s1[x].vote_power
                    >= s1[y].vote_power by {
                    let x0: int = if x < k { x } else { x + 1 };
                    let y0: int = if y < k { y } else { y + 1 };
                    assert(s0[x0].vote_power >= s0[y0].vote_power);
                }
            }
            assert(winners_unique(s1)) by {
                assert forall|x: int, y: int| 0 <= x < y < s1.len() implies s1[x].option_id
                    != s1[y].option_id by {
                    let x0: int = if x < k { x } else { x + 1 };
                    let y0: int = if y < k { y } else { y + 1 };
                    assert(s0[x0].option_id != s0[y0].option_id);
                }
            }
            assert(!has_winner(s1, option_id)) by {
                if has_winner(s1, option_id) {
                    let j = winner_idx(s1, option_id);
                    assert(0 <= j < s1.len() && s1[j].option_id == option_id);
                    let j0: int = if j < k { j } else { j + 1 };
                    assert(s0[j0].option_id == option_id);
                    lemma_winner_idx(s0, option_id, j0);
                }
            }
        }
    }
    // Insert the fresh entry after every entry with at least its power.
    let m = ws.len();
    let mut p: usize = 0;
    while p < m && ws[p].vote_power >= new_power
        invariant
            p <= m,
            forall|j: int| 0 <= j < p ==> s1[j].vote_power >= new_power,
        decreases m - p,
    {
        p = p + 1;
    }
    assert(p < m ==> s1[p as int].vote_power < new_power);
    ws.insert(p, OptionResult { option_id, vote_power: new_power });
    proof {
        let s2 = ws@;
        s1.insert_ensures(p as int, OptionResult { option_id, vote_power: new_power });
        assert(s2 == s1.insert(p as int, OptionResult { option_id, vote_power: new_power }));
        let pi = p as int;
        assert(winners_sorted(s2)) by {
            assert forall|x: int, y: int| 0 <= x < y < s2.len() implies s2[x].vote_power
                >= s2[y].vote_power by {
                if x == pi {
                    assert(s2[y] == s1[y - 1]);
                    assert(s1[pi].vote_power < new_power || y - 1 >= pi);
                    if y - 1 > pi {
                        assert(s1[pi].vote_power >= s1[y - 1].vote_power);
                    }
                } else if y == pi {
                    assert(s2[x] == s1[x]);
                    assert(s1[x].vote_power >= new_power);
                } else {
                    let x0: int = if x < pi { x } else { x - 1 };
                    let y0: int = if y < pi { y } else { y - 1 };
                    if x0 < y0 {
                        assert(s1[x0].vote_power >= s1[y0].vote_power);
                    }
                    assert(s2[x] == s1[x0] && s2[y] == s1[y0]);
                }
            }
        }
        assert(winners_unique(s2)) by {
            assert forall|x: int, y: int| 0 <= x < y < s2.len() implies s2[x].option_id
                != s2[y].option_id by {
                if x == pi {
                    assert(s2[y] == s1[y - 1]);
                    assert(s1[y - 1].option_id != option_id) by {
                        if s1[y - 1].option_id == option_id {
                            lemma_winner_idx(s1, option_id, y - 1);
                        }
                    }
                } else if y == pi {
                    assert(s2[x] == s1[x]);
                    assert(s1[x].option_id != option_id) by {
                        if s1[x].option_id == option_id {
                            lemma_winner_idx(s1, option_id, x);
                        }
                    }
                } else {
                    let x0: int = if x < pi { x } else { x - 1 };
                    let y0: int = if y < pi { y } else { y - 1 };
                    if x0 < y0 {
                        assert(s1[x0].option_id != s1[y0].option_id);
                    }
                    assert(s2[x] == s1[x0] && s2[y] == s1[y0]);
                }
            }
        }
        lemma_winner_idx(s2, option_id, pi);
        assert(spec_winner_power(s2, option_id) == new_power);
        assert forall|o: u64| o != option_id implies #[trigger] has_winner(s2, o) == has_winner(
            s0,
            o,
        ) by {
            lemma_winner_others(s0, s1, s2, option_id, o, had, pi);
        }
        assert forall|o: u64| o != option_id implies #[trigger] spec_winner_power(s2, o)
            == spec_winner_power(s0, o) by {
            lemma_winner_others(s0, s1, s2, option_id, o, had, pi);
        }
    }
}

/// After removing option `oid`'s entry (turning `s0` into `s1`, when `had`)
/// and inserting its fresh entry at `pi` (turning `s1` into `s2`), every
/// other option keeps its presence and listed power.
proof fn lemma_winner_others(
    s0: Seq<OptionResult>,
    s1: Seq<OptionResult>,
    s2: Seq<OptionResult>,
    oid: u64,
    o: u64,
    had: bool,
    pi: int,
)
    requires
        winners_unique(s0),
        winners_unique(s2),
        had == has_winner(s0, oid),
        s1 == if had {
            s0.remove(winner_idx(s0, oid))
        } else {
            s0
        },
        0 <= pi <= s1.len(),
        s2 == s1.insert(pi, OptionResult { option_id: oid, vote_power: spec_winner_power(s2, oid) }),
        s2[pi].option_id == oid,
        o != oid,
    ensures
        has_winner(s2, o) == has_winner(s0, o),
        spec_winner_power(s2, o) == spec_winner_power(s0, o),
{
    s1.insert_ensures(pi, OptionResult { option_id: oid, vote_power: spec_winner_power(s2, oid) });
    if has_winner(s0, o) {
        let k = winner_idx(s0, o);
        assert(0 <= k < s0.len() && s0[k].option_id == o);
        let k1: int = if had {
            let r = winner_idx(s0, oid);
            if k < r {
                k
            } else {
                k - 1
            }
        } else {
            k
        };
        assert(s1[k1].option_id == o && s1[k1].vote_power == s0[k].vote_power) by {
            if had {
                let r = winner_idx(s0, oid);
                s0.remove_ensures(r);
                assert(k != r);
            }
        }
        let k2: int = if k1 < pi {
            k1
        } else {
            k1 + 1
        };
        assert(s2[k2].option_id == o && s2[k2].vote_power == s0[k].vote_power);
        lemma_winner_idx(s2, o, k2);
        lemma_winner_idx(s0, o, k);
    } else {
        assert(!has_winner(s2, o)) by {
            if has_winner(s2, o) {
                let k = winner_idx(s2, o);
                assert(0 <= k < s2.len() && s2[k].option_id == o);
                assert(k != pi);
                let k1: int = if k < pi {
                    k
                } else {
                    k - 1
                };
                assert(s1[k1].option_id == o);
                if had {
                    let r = winner_idx(s0, oid);
                    s0.remove_ensures(r);
                    let k0: int = if k1 < r {
                        k1
                    } else {
                        k1 + 1
                    };
                    assert(s0[k0].option_id == o);
                } else {
                    assert(s0[k1].option_id == o);
                }
                assert(has_winner(s0, o));
            }
        }
    }
}

/// Removes the cast vote at position `i`.
pub fn remove_vote_at(votes: &mut Vec<CastVote>, i: usize)
    requires
        votes_wf(old(votes)@),
        i < old(votes)@.len(),
    ensures
        votes_wf(final(votes)@),
        final(votes)@ == old(votes)@.remove(i as int),
        !has_vote(final(votes)@, old(votes)@[i as int].account_id),
        forall|a: u64|
            a != old(votes)@[i as int].account_id ==> #[trigger] has_vote(final(votes)@, a)
                == has_vote(old(votes)@, a),
        forall|a: u64|
            a != old(votes)@[i as int].account_id && has_vote(old(votes)@, a)
                ==> #[trigger] spec_vote(final(votes)@, a) == spec_vote(old(votes)@, a),
{
    let ghost s0 = votes@;
    let ghost aid = s0[i as int].account_id;
    votes.remove(i);
    proof {
        let s1 = votes@;
        s0.remove_ensures(i as int);
        assert(s1 == s0.remove(i as int));
        assert(votes_wf(s1)) by {
            assert forall|x: int, y: int| 0 <= x < y < s1.len() implies s1[x].account_id
                != s1[y].account_id by {
                let x0: int = if x < i {
                    x
                } else {
                    x + 1
                };
                let y0: int = if y < i {
                    y
                } else {
                    y + 1
                };
                assert(s0[x0].account_id != s0[y0].account_id);
            }
        }
        assert(!has_vote(s1, aid)) by {
            if has_vote(s1, aid) {
                let k = vote_idx(s1, aid);
                assert(0 <= k < s1.len() && s1[k].account_id == aid);
                let k0: int = if k < i {
                    k
                } else {
                    k + 1
                };
                assert(s0[k0].account_id == aid);
                lemma_vote_idx(s0, aid, k0);
                lemma_vote_idx(s0, aid, i as int);
            }
        }
        assert forall|a: u64| a != aid implies #[trigger] has_vote(s1, a) == has_vote(s0, a) by {
            if has_vote(s0, a) {
                let k = vote_idx(s0, a);
                assert(0 <= k < s0.len() && s0[k].account_id == a);
                assert(k != i);
                let k1: int = if k < i {
                    k
                } else {
                    k - 1
                };
                assert(s1[k1].account_id == a);
                assert(has_vote(s1, a));
            } else {
                if has_vote(s1, a) {
                    let k = vote_idx(s1, a);
                    assert(0 <= k < s1.len() && s1[k].account_id == a);
                    let k0: int = if k < i {
                        k
                    } else {
                        k + 1
                    };
                    assert(s0[k0].account_id == a);
                }
            }
        }
        assert forall|a: u64| a != aid && has_vote(s0, a) implies #[trigger] spec_vote(s1, a)
            == spec_vote(s0, a) by {
            let k = vote_idx(s0, a);
            assert(0 <= k < s0.len() && s0[k].account_id == a);
            assert(k != i);
            let k1: int = if k < i {
                k
            } else {
                k - 1
            };
            assert(s1[k1].account_id == a);
            lemma_vote_idx(s1, a, k1);
            lemma_vote_idx(s0, a, k);
        }
    }
}

} // verus!
