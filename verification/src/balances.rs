//! A minimal account ledger with named balance locks: the boundary the
//! council core shares with the currency system.  An account has a free
//! balance and a set of locks, one per lock identifier; a lock restricts
//! withdrawal but does not reduce the free balance, and locks under distinct
//! identifiers never conflict.

use vstd::prelude::*;

verus! {

/// The named locks the council protocol places on an account's funds.
#[derive(Clone, Copy, PartialEq, Eq, Structural, Debug)]
pub enum LockId {
    /// Stake locked while a candidacy is live.
    Candidacy,
    /// Stake locked for the duration of an elected member's term.
    Councilor,
    /// Stake locked while a cast vote is unresolved.
    Voting,
}

/// One lock on an account: an identifier and the amount it holds.
#[derive(Clone, Copy, PartialEq, Eq, Structural, Debug)]
pub struct LockEntry {
    pub id: LockId,
    pub amount: u64,
}

/// One account: its free balance and its locks.
#[derive(Debug)]
pub struct AccountRecord {
    pub account_id: u64,
    pub free: u64,
    pub locks: Vec<LockEntry>,
}

/// The ledger: every known account.
#[derive(Debug)]
pub struct Balances {
    pub accounts: Vec<AccountRecord>,
}

/// Whether some account in `s` has the identifier `id`.
pub open spec fn has_account(s: Seq<AccountRecord>, id: u64) -> bool {
    exists|i: int| 0 <= i < s.len() && s[i].account_id == id
}

/// The index of the account with identifier `id` (meaningful under
/// [`has_account`] and uniqueness of identifiers).
pub open spec fn account_idx(s: Seq<AccountRecord>, id: u64) -> int {
    choose|i: int| 0 <= i < s.len() && s[i].account_id == id
}

/// The free balance of account `id`; zero for an unknown account.
pub open spec fn spec_free(s: Seq<AccountRecord>, id: u64) -> u64 {
    if has_account(s, id) {
        s[account_idx(s, id)].free
    } else {
        0
    }
}

/// Whether the lock list `ls` holds a lock under `lid`.
pub open spec fn has_lock(ls: Seq<LockEntry>, lid: LockId) -> bool {
    exists|i: int| 0 <= i < ls.len() && ls[i].id == lid
}

/// The index of the lock under `lid` in `ls`.
pub open spec fn lock_idx(ls: Seq<LockEntry>, lid: LockId) -> int {
    choose|i: int| 0 <= i < ls.len() && ls[i].id == lid
}

/// The amount locked under `lid` in the lock list `ls`; zero if absent.
pub open spec fn spec_lock_in(ls: Seq<LockEntry>, lid: LockId) -> u64 {
    if has_lock(ls, lid) {
        ls[lock_idx(ls, lid)].amount
    } else {
        0
    }
}

/// The amount account `id` has locked under `lid`; zero for an unknown
/// account or an absent lock.
pub open spec fn spec_lock(s: Seq<AccountRecord>, id: u64, lid: LockId) -> u64 {
    if has_account(s, id) {
        spec_lock_in(s[account_idx(s, id)].locks@, lid)
    } else {
        0
    }
}

/// Lock identifiers within one account are unique.
pub open spec fn locks_wf(ls: Seq<LockEntry>) -> bool {
    forall|i: int, j: int| 0 <= i < j < ls.len() ==> ls[i].id != ls[j].id
}

/// Account identifiers are unique and every lock list is well formed.
pub open spec fn accounts_wf(s: Seq<AccountRecord>) -> bool {
    &&& forall|i: int, j: int|
        0 <= i < j < s.len() ==> s[i].account_id != s[j].account_id
    &&& forall|i: int| 0 <= i < s.len() ==> locks_wf(#[trigger] s[i].locks@)
}

/// Under unique identifiers, any position holding `id` is the position
/// [`account_idx`] denotes.
pub proof fn lemma_account_idx(s: Seq<AccountRecord>, id: u64, i: int)
    requires
        accounts_wf(s),
        0 <= i < s.len(),
        s[i].account_id == id,
    ensures
        has_account(s, id),
        account_idx(s, id) == i,
{
    assert(has_account(s, id));
    let j = account_idx(s, id);
    assert(0 <= j < s.len() && s[j].account_id == id);
    if i < j {
        assert(s[i].account_id != s[j].account_id);
    } else if j < i {
        assert(s[j].account_id != s[i].account_id);
    }
}

/// Under unique lock identifiers, any position holding `lid` is the position
/// [`lock_idx`] denotes.
pub proof fn lemma_lock_idx(ls: Seq<LockEntry>, lid: LockId, i: int)
    requires
        locks_wf(ls),
        0 <= i < ls.len(),
        ls[i].id == lid,
    ensures
        has_lock(ls, lid),
        lock_idx(ls, lid) == i,
{
    assert(has_lock(ls, lid));
    let j = lock_idx(ls, lid);
    assert(0 <= j < ls.len() && ls[j].id == lid);
    if i < j {
        assert(ls[i].id != ls[j].id);
    } else if j < i {
        assert(ls[j].id != ls[i].id);
    }
}

/// Two account sequences with the same identifiers in the same positions
/// agree on `has_account`, and where an account exists, on its index.
proof fn lemma_same_ids(s1: Seq<AccountRecord>, s2: Seq<AccountRecord>, id: u64)
    requires
        accounts_wf(s1),
        accounts_wf(s2),
        s1.len() == s2.len(),
        forall|i: int| 0 <= i < s1.len() ==> s1[i].account_id == #[trigger] s2[i].account_id,
    ensures
        has_account(s1, id) == has_account(s2, id),
        has_account(s1, id) ==> account_idx(s1, id) == account_idx(s2, id),
{
    if has_account(s1, id) {
        let i = account_idx(s1, id);
        assert(0 <= i < s1.len() && s1[i].account_id == id);
        lemma_account_idx(s2, id, i);
        lemma_account_idx(s1, id, i);
    } else if has_account(s2, id) {
        let i = account_idx(s2, id);
        assert(0 <= i < s2.len() && s2[i].account_id == id);
        assert(s1[i].account_id == id);
        assert(has_account(s1, id));
    }
}

/// The amount locked under `lid` in `locks`.
fn lock_amount_in(locks: &Vec<LockEntry>, lid: LockId) -> (r: u64)
    requires
        locks_wf(locks@),
    ensures
        r == spec_lock_in(locks@, lid),
{
    let n = locks.len();
    let mut i: usize = 0;
    while i < n
        invariant
            i <= n,
            n == locks@.len(),
            locks_wf(locks@),
            forall|j: int| 0 <= j < i ==> locks@[j].id != lid,
        decreases n - i,
    {
        if locks[i].id == lid {
            proof {
                lemma_lock_idx(locks@, lid, i as int);
            }
            return locks[i].amount;
        }
        i = i + 1;
    }
    assert(!has_lock(locks@, lid)) by {
        if has_lock(locks@, lid) {
            let k = lock_idx(locks@, lid);
            assert(0 <= k < locks@.len() && locks@[k].id == lid);
        }
    }
    0
}

/// Sets the lock under `lid` in `locks` to `amount`, replacing an existing
/// entry or appending a fresh one.
fn set_lock_in(locks: &mut Vec<LockEntry>, lid: LockId, amount: u64)
    requires
        locks_wf(old(locks)@),
    ensures
        locks_wf(final(locks)@),
        spec_lock_in(final(locks)@, lid) == amount,
        forall|l: LockId|
            l != lid ==> #[trigger] spec_lock_in(final(locks)@, l) == spec_lock_in(
                old(locks)@,
                l,
            ),
    {
    let ghost s0 = locks@;
    let n = locks.len();
    let mut i: usize = 0;
    while i < n
        invariant
            i <= n,
            n == locks@.len(),
            locks@ == s0,
            old(locks)@ == s0,
            locks_wf(s0),
            forall|j: int| 0 <= j < i ==> s0[j].id != lid,
        decreases n - i,
    {
        if locks[i].id == lid {
            let entry = &mut locks[i];
            entry.amount = amount;
            proof {
                let s1 = locks@;
                assert(forall|j: int| 0 <= j < s1.len() && j != i ==> s1[j] == s0[j]);
                assert(s1[i as int].id == lid && s1[i as int].amount == amount);
                assert(locks_wf(s1)) by {
                    assert(forall|j: int| 0 <= j < s1.len() ==> s1[j].id == s0[j].id);
                }
                lemma_lock_idx(s0, lid, i as int);
                lemma_lock_idx(s1, lid, i as int);
                assert forall|l: LockId| l != lid implies #[trigger] spec_lock_in(s1, l)
                    == spec_lock_in(s0, l) by {
                    lemma_same_lock_ids(s0, s1, l);
                    if has_lock(s0, l) {
                        let k = lock_idx(s0, l);
                        assert(s1[k].amount == s0[k].amount);
                    }
                }
            }
            return;
        }
        i = i + 1;
    }
    assert(!has_lock(s0, lid)) by {
        if has_lock(s0, lid) {
            let k = lock_idx(s0, lid);
            assert(0 <= k < s0.len() && s0[k].id == lid);
        }
    }
    locks.push(LockEntry { id: lid, amount });
    proof {
        let s1 = locks@;
        let m = s0.len() as int;
        assert(s1[m].id == lid && s1[m].amount == amount);
        assert(forall|j: int| 0 <= j < m ==> s1[j] == s0[j]);
        assert(locks_wf(s1)) by {
            assert forall|x: int, y: int| 0 <= x < y < s1.len() implies s1[x].id != s1[y].id by {
                if y < m {
                } else {
                    assert(s0[x].id != lid);
                }
            }
        }
        lemma_lock_idx(s1, lid, m);
        assert forall|l: LockId| l != lid implies #[trigger] spec_lock_in(s1, l)
            == spec_lock_in(s0, l) by {
            if has_lock(s0, l) {
                let k = lock_idx(s0, l);
                assert(0 <= k < m && s0[k].id == l);
                lemma_lock_idx(s1, l, k);
                lemma_lock_idx(s0, l, k);
            } else {
                assert(!has_lock(s1, l)) by {
                    if has_lock(s1, l) {
                        let k = lock_idx(s1, l);
                        assert(0 <= k < s1.len() && s1[k].id == l);
                        assert(k != m);
                        assert(s0[k].id == l);
                    }
                }
            }
        }
    }
}

/// Removes the lock under `lid` from `locks`, if present.
fn remove_lock_in(locks: &mut Vec<LockEntry>, lid: LockId)
    requires
        locks_wf(old(locks)@),
    ensures
        locks_wf(final(locks)@),
        spec_lock_in(final(locks)@, lid) == 0,
        forall|l: LockId|
            l != lid ==> #[trigger] spec_lock_in(final(locks)@, l) == spec_lock_in(
                old(locks)@,
                l,
            ),
{
    let ghost s0 = locks@;
    let n = locks.len();
    let mut i: usize = 0;
    while i < n
        invariant
            i <= n,
            n == locks@.len(),
            locks@ == s0,
            old(locks)@ == s0,
            locks_wf(s0),
            forall|j: int| 0 <= j < i ==> s0[j].id != lid,
        decreases n - i,
    {
        if locks[i].id == lid {
            locks.remove(i);
            proof {
                let s1 = locks@;
                assert(s1 =~= s0.subrange(0, i as int) + s0.subrange(i as int + 1, s0.len() as int));
                assert(forall|j: int| 0 <= j < i ==> s1[j] == s0[j]);
                assert(forall|j: int| i <= j < s1.len() ==> s1[j] == s0[j + 1]);
                assert(locks_wf(s1)) by {
                    assert forall|x: int, y: int| 0 <= x < y < s1.len() implies s1[x].id
                        != s1[y].id by {
                        let x0: int = if x < i { x } else { x + 1 };
                        let y0: int = if y < i { y } else { y + 1 };
                        assert(s0[x0].id != s0[y0].id);
                    }
                }
                assert(!has_lock(s1, lid)) by {
                    if has_lock(s1, lid) {
                        let k = lock_idx(s1, lid);
                        assert(0 <= k < s1.len() && s1[k].id == lid);
                        let k0: int = if k < i { k } else { k + 1 };
                        assert(s0[k0].id == lid);
                        if k0 < i as int {
                        } else {
                            lemma_lock_idx(s0, lid, i as int);
                            lemma_lock_idx(s0, lid, k0);
                        }
                    }
                }
                assert forall|l: LockId| l != lid implies #[trigger] spec_lock_in(s1, l)
                    == spec_lock_in(s0, l) by {
                    if has_lock(s0, l) {
                        let k = lock_idx(s0, l);
                        assert(0 <= k < s0.len() && s0[k].id == l);
                        assert(k != i);
                        let k1: int = if k < i { k } else { k - 1 };
                        assert(s1[k1].id == l);
                        lemma_lock_idx(s1, l, k1);
                        lemma_lock_idx(s0, l, k);
                    } else {
                        assert(!has_lock(s1, l)) by {
                            if has_lock(s1, l) {
                                let k = lock_idx(s1, l);
                                assert(0 <= k < s1.len() && s1[k].id == l);
                                let k0: int = if k < i { k } else { k + 1 };
                                assert(s0[k0].id == l);
                            }
                        }
                    }
                }
            }
            return;
        }
        i = i + 1;
    }
    assert(!has_lock(s0, lid)) by {
        if has_lock(s0, lid) {
            let k = lock_idx(s0, lid);
            assert(0 <= k < s0.len() && s0[k].id == lid);
        }
    }
}

impl Balances {
    /// The ledger's invariant.
    pub open spec fn wf(self) -> bool {
        accounts_wf(self.accounts@)
    }

    /// An empty ledger.
    pub fn new() -> (r: Balances)
        ensures
            r.wf(),
            r.accounts@.len() == 0,
    {
        Balances { accounts: Vec::new() }
    }

    /// The position of account `id`, if the ledger knows it.
    fn find_account(&self, id: u64) -> (r: Option<usize>)
        ensures
            match r {
                Some(i) => i < self.accounts@.len() && self.accounts@[i as int].account_id == id,
                None => !has_account(self.accounts@, id),
            },
    {
        let n = self.accounts.len();
        let mut i: usize = 0;
        while i < n
            invariant
                i <= n,
                n == self.accounts@.len(),
                forall|j: int| 0 <= j < i ==> self.accounts@[j].account_id != id,
            decreases n - i,
        {
            if self.accounts[i].account_id == id {
                return Some(i);
            }
            i = i + 1;
        }
        assert(!has_account(self.accounts@, id)) by {
            if has_account(self.accounts@, id) {
                let k = account_idx(self.accounts@, id);
                assert(0 <= k < self.accounts@.len() && self.accounts@[k].account_id == id);
            }
        }
        None
    }

    /// The free balance of `id`.
    pub fn free_balance(&self, id: u64) -> (r: u64)
        requires
            self.wf(),
        ensures
            r == spec_free(self.accounts@, id),
    {
        match self.find_account(id) {
            Some(i) => {
                proof {
                    lemma_account_idx(self.accounts@, id, i as int);
                }
                self.accounts[i].free
            }
            None => 0,
        }
    }

    /// The amount `id` has locked under `lid`.
    pub fn lock_amount(&self, id: u64, lid: LockId) -> (r: u64)
        requires
            self.wf(),
        ensures
            r == spec_lock(self.accounts@, id, lid),
    {
        match self.find_account(id) {
            Some(i) => {
                proof {
                    lemma_account_idx(self.accounts@, id, i as int);
                }
                lock_amount_in(&self.accounts[i].locks, lid)
            }
            None => 0,
        }
    }

    /// Adds `amount` to the free balance of `id`, creating the account if it
    /// is unknown; the addition saturates.
    pub fn deposit_creating(&mut self, id: u64, amount: u64)
        requires
            old(self).wf(),
        ensures
            final(self).wf(),
            has_account(final(self).accounts@, id),
            spec_free(final(self).accounts@, id) == crate::sat_add(
                spec_free(old(self).accounts@, id),
                amount,
            ),
            forall|a: u64|
                a != id ==> #[trigger] spec_free(final(self).accounts@, a) == spec_free(
                    old(self).accounts@,
                    a,
                ),
            forall|a: u64, l: LockId|
                #[trigger] spec_lock(final(self).accounts@, a, l) == spec_lock(
                    old(self).accounts@,
                    a,
                    l,
                ),
    {
        let ghost s0 = self.accounts@;
        match self.find_account(id) {
            Some(i) => {
                proof {
                    lemma_account_idx(s0, id, i as int);
                }
                let updated = self.accounts[i].free.saturating_add(amount);
                let acc = &mut self.accounts[i];
                acc.free = updated;
                proof {
                    let s1 = self.accounts@;
                    assert(s1.len() == s0.len());
                    assert(forall|j: int| 0 <= j < s1.len() && j != i ==> s1[j] == s0[j]);
                    assert(s1[i as int].account_id == s0[i as int].account_id);
                    assert(s1[i as int].free == updated);
                    assert(s1[i as int].locks@ == s0[i as int].locks@);
                    assert(accounts_wf(s1)) by {
                        assert(forall|j: int|
                            0 <= j < s1.len() ==> s1[j].account_id == s0[j].account_id);
                        assert(forall|j: int|
                            0 <= j < s1.len() ==> s1[j].locks@ == #[trigger] s0[j].locks@);
                    }
                    lemma_account_idx(s1, id, i as int);
                    assert forall|a: u64| a != id implies #[trigger] spec_free(s1, a)
                        == spec_free(s0, a) by {
                        lemma_same_ids(s0, s1, a);
                        if has_account(s0, a) {
                            let k = account_idx(s0, a);
                            assert(0 <= k < s0.len() && s0[k].account_id == a);
                            assert(k != i);
                        }
                    }
                    assert forall|a: u64, l: LockId| #[trigger] spec_lock(s1, a, l)
                        == spec_lock(s0, a, l) by {
                        lemma_same_ids(s0, s1, a);
                        if has_account(s0, a) {
                            let k = account_idx(s0, a);
                            assert(s1[k].locks@ == s0[k].locks@);
                        }
                    }
                }
            }
            None => {
                self.accounts.push(
                    AccountRecord { account_id: id, free: amount, locks: Vec::new() },
                );
                proof {
                    let s1 = self.accounts@;
                    let m = s0.len() as int;
                    assert(s1[m].account_id == id && s1[m].free == amount);
                    assert(s1[m].locks@.len() == 0);
                    assert(forall|j: int| 0 <= j < m ==> s1[j] == s0[j]);
                    assert(accounts_wf(s1)) by {
                        assert forall|x: int, y: int| 0 <= x < y < s1.len() implies s1[x].account_id
                            != s1[y].account_id by {
                            if y < m {
                            } else {
                                assert(s0[x].account_id != id);
                            }
                        }
                        assert forall|x: int| 0 <= x < s1.len() implies locks_wf(
                            #[trigger] s1[x].locks@,
                        ) by {
                            if x < m {
                                assert(locks_wf(s0[x].locks@));
                            }
                        }
                    }
                    lemma_account_idx(s1, id, m);
                    assert(spec_free(s1, id) == amount);
                    assert(!has_account(s0, id));
                    assert(spec_free(s0, id) == 0);
                    assert forall|a: u64| a != id implies #[trigger] spec_free(s1, a)
                        == spec_free(s0, a) by {
                        if has_account(s0, a) {
                            let k = account_idx(s0, a);
                            assert(0 <= k < m && s0[k].account_id == a);
                            lemma_account_idx(s1, a, k);
                        } else {
                            assert(!has_account(s1, a)) by {
                                if has_account(s1, a) {
                                    let k = account_idx(s1, a);
                                    assert(0 <= k < s1.len() && s1[k].account_id == a);
                                    assert(k != m);
                                    assert(s0[k].account_id == a);
                                }
                            }
                        }
                    }
                    assert forall|a: u64, l: LockId| #[trigger] spec_lock(s1, a, l)
                        == spec_lock(s0, a, l) by {
                        if has_account(s0, a) {
                            let k = account_idx(s0, a);
                            assert(0 <= k < m && s0[k].account_id == a);
                            lemma_account_idx(s1, a, k);
                            lemma_account_idx(s0, a, k);
                            assert(s1[k].locks@ == s0[k].locks@);
                        } else {
                            if a == id {
                                assert(spec_lock_in(s1[m].locks@, l) == 0) by {
                                    if has_lock(s1[m].locks@, l) {
                                        let k = lock_idx(s1[m].locks@, l);
                                        assert(0 <= k < s1[m].locks@.len());
                                    }
                                }
                            } else {
                                assert(!has_account(s1, a)) by {
                                    if has_account(s1, a) {
                                        let k = account_idx(s1, a);
                                        assert(0 <= k < s1.len() && s1[k].account_id == a);
                                        assert(k != m);
                                        assert(s0[k].account_id == a);
                                    }
                                }
                            }
                        }
                    }
                }
            }
        }
    }

    /// Sets the lock of account `id` under `lid` to `amount`, creating the
    /// account (with a zero free balance) if it is unknown.
    pub fn set_lock(&mut self, id: u64, lid: LockId, amount: u64)
        requires
            old(self).wf(),
        ensures
            final(self).wf(),
            spec_lock(final(self).accounts@, id, lid) == amount,
            forall|a: u64, l: LockId|
                !(a == id && l == lid) ==> #[trigger] spec_lock(final(self).accounts@, a, l)
                    == spec_lock(old(self).accounts@, a, l),
            forall|a: u64|
                #[trigger] spec_free(final(self).accounts@, a) == spec_free(
                    old(self).accounts@,
                    a,
                ),
    {
        let ghost s0 = self.accounts@;
        match self.find_account(id) {
            Some(i) => {
                proof {
                    lemma_account_idx(s0, id, i as int);
                }
                let acc = &mut self.accounts[i];
                set_lock_in(&mut acc.locks, lid, amount);
                proof {
                    let s1 = self.accounts@;
                    assert(s1.len() == s0.len());
                    assert(forall|j: int| 0 <= j < s1.len() && j != i ==> s1[j] == s0[j]);
                    assert(s1[i as int].account_id == s0[i as int].account_id);
                    assert(s1[i as int].free == s0[i as int].free);
                    assert(spec_lock_in(s1[i as int].locks@, lid) == amount);
                    assert(accounts_wf(s1)) by {
                        assert(forall|j: int|
                            0 <= j < s1.len() ==> s1[j].account_id == s0[j].account_id);
                        assert forall|j: int| 0 <= j < s1.len() implies locks_wf(
                            #[trigger] s1[j].locks@,
                        ) by {
                            if j != i {
                                assert(s1[j].locks@ == s0[j].locks@);
                                assert(locks_wf(s0[j].locks@));
                            }
                        }
                    }
                    lemma_account_idx(s1, id, i as int);
                    assert forall|a: u64, l: LockId| !(a == id && l == lid) implies #[trigger] spec_lock(s1, a, l) == spec_lock(s0, a, l) by {
                        lemma_same_ids(s0, s1, a);
                        if has_account(s0, a) {
                            let k = account_idx(s0, a);
                            if k == i {
                                assert(a == id);
                                assert(spec_lock_in(s1[k].locks@, l) == spec_lock_in(
                                    s0[k].locks@,
                                    l,
                                ));
                            } else {
                                assert(s1[k].locks@ == s0[k].locks@);
                            }
                        }
                    }
                    assert forall|a: u64| #[trigger] spec_free(s1, a) == spec_free(s0, a) by {
                        lemma_same_ids(s0, s1, a);
                        if has_account(s0, a) {
                            let k = account_idx(s0, a);
                            assert(s1[k].free == s0[k].free);
                        }
                    }
                }
            }
            None => {
                let mut locks: Vec<LockEntry> = Vec::new();
                locks.push(LockEntry { id: lid, amount });
                self.accounts.push(AccountRecord { account_id: id, free: 0, locks });
                proof {
                    let s1 = self.accounts@;
                    let m = s0.len() as int;
                    assert(s1[m].account_id == id && s1[m].free == 0);
                    assert(s1[m].locks@.len() == 1 && s1[m].locks@[0].id == lid
                        && s1[m].locks@[0].amount == amount);
                    assert(forall|j: int| 0 <= j < m ==> s1[j] == s0[j]);
                    assert(accounts_wf(s1)) by {
                        assert forall|x: int, y: int| 0 <= x < y < s1.len() implies s1[x].account_id
                            != s1[y].account_id by {
                            if y < m {
                            } else {
                                assert(s0[x].account_id != id);
                            }
                        }
                        assert forall|x: int| 0 <= x < s1.len() implies locks_wf(
                            #[trigger] s1[x].locks@,
                        ) by {
                            if x < m {
                                assert(locks_wf(s0[x].locks@));
                            }
                        }
                    }
                    lemma_account_idx(s1, id, m);
                    lemma_lock_idx(s1[m].locks@, lid, 0);
                    assert(spec_lock(s1, id, lid) == amount);
                    assert forall|a: u64, l: LockId| !(a == id && l == lid) implies #[trigger] spec_lock(s1, a, l) == spec_lock(s0, a, l) by {
                        if has_account(s0, a) {
                            let k = account_idx(s0, a);
                            assert(0 <= k < m && s0[k].account_id == a);
                            lemma_account_idx(s1, a, k);
                            lemma_account_idx(s0, a, k);
                            assert(s1[k].locks@ == s0[k].locks@);
                        } else if a == id {
                            assert(l != lid);
                            assert(spec_lock(s0, a, l) == 0);
                            assert(spec_lock_in(s1[m].locks@, l) == 0) by {
                                if has_lock(s1[m].locks@, l) {
                                    let k = lock_idx(s1[m].locks@, l);
                                    assert(0 <= k < 1 && s1[m].locks@[k].id == l);
                                }
                            }
                        } else {
                            assert(!has_account(s1, a)) by {
                                if has_account(s1, a) {
                                    let k = account_idx(s1, a);
                                    assert(0 <= k < s1.len() && s1[k].account_id == a);
                                    assert(k != m);
                                    assert(s0[k].account_id == a);
                                }
                            }
                        }
                    }
                    assert forall|a: u64| #[trigger] spec_free(s1, a) == spec_free(s0, a) by {
                        if has_account(s0, a) {
                            let k = account_idx(s0, a);
                            assert(0 <= k < m && s0[k].account_id == a);
                            lemma_account_idx(s1, a, k);
                            lemma_account_idx(s0, a, k);
                        } else if a == id {
                            assert(spec_free(s1, a) == 0);
                        } else {
                            assert(!has_account(s1, a)) by {
                                if has_account(s1, a) {
                                    let k = account_idx(s1, a);
                                    assert(0 <= k < s1.len() && s1[k].account_id == a);
                                    assert(k != m);
                                    assert(s0[k].account_id == a);
                                }
                            }
                        }
                    }
                }
            }
        }
    }

    /// Removes the lock of account `id` under `lid`, if any.
    pub fn remove_lock(&mut self, id: u64, lid: LockId)
        requires
            old(self).wf(),
        ensures
            final(self).wf(),
            spec_lock(final(self).accounts@, id, lid) == 0,
            forall|a: u64, l: LockId|
                !(a == id && l == lid) ==> #[trigger] spec_lock(final(self).accounts@, a, l)
                    == spec_lock(old(self).accounts@, a, l),
            forall|a: u64|
                #[trigger] spec_free(final(self).accounts@, a) == spec_free(
                    old(self).accounts@,
                    a,
                ),
    {
        let ghost s0 = self.accounts@;
        match self.find_account(id) {
            Some(i) => {
                proof {
                    lemma_account_idx(s0, id, i as int);
                }
                let acc = &mut self.accounts[i];
                remove_lock_in(&mut acc.locks, lid);
                proof {
                    let s1 = self.accounts@;
                    assert(s1.len() == s0.len());
                    assert(forall|j: int| 0 <= j < s1.len() && j != i ==> s1[j] == s0[j]);
                    assert(s1[i as int].account_id == s0[i as int].account_id);
                    assert(s1[i as int].free == s0[i as int].free);
                    assert(spec_lock_in(s1[i as int].locks@, lid) == 0);
                    assert(accounts_wf(s1)) by {
                        assert(forall|j: int|
                            0 <= j < s1.len() ==> s1[j].account_id == s0[j].account_id);
                        assert forall|j: int| 0 <= j < s1.len() implies locks_wf(
                            #[trigger] s1[j].locks@,
                        ) by {
                            if j != i {
                                assert(s1[j].locks@ == s0[j].locks@);
                                assert(locks_wf(s0[j].locks@));
                            }
                        }
                    }
                    lemma_account_idx(s1, id, i as int);
                    assert forall|a: u64, l: LockId| !(a == id && l == lid) implies #[trigger] spec_lock(s1, a, l) == spec_lock(s0, a, l) by {
                        lemma_same_ids(s0, s1, a);
                        if has_account(s0, a) {
                            let k = account_idx(s0, a);
                            if k == i {
                                assert(a == id);
                                assert(spec_lock_in(s1[k].locks@, l) == spec_lock_in(
                                    s0[k].locks@,
                                    l,
                                ));
                            } else {
                                assert(s1[k].locks@ == s0[k].locks@);
                            }
                        }
                    }
                    assert forall|a: u64| #[trigger] spec_free(s1, a) == spec_free(s0, a) by {
                        lemma_same_ids(s0, s1, a);
                        if has_account(s0, a) {
                            let k = account_idx(s0, a);
                            assert(s1[k].free == s0[k].free);
                        }
                    }
                }
            }
            None => {
                assert(spec_lock(self.accounts@, id, lid) == 0);
            }
        }
    }
}

/// Two lock lists with the same identifiers in the same positions agree on
/// `has_lock`, and where a lock exists, on its index.
proof fn lemma_same_lock_ids(s1: Seq<LockEntry>, s2: Seq<LockEntry>, lid: LockId)
    requires
        locks_wf(s1),
        locks_wf(s2),
        s1.len() == s2.len(),
        forall|i: int| 0 <= i < s1.len() ==> s1[i].id == #[trigger] s2[i].id,
    ensures
        has_lock(s1, lid) == has_lock(s2, lid),
        has_lock(s1, lid) ==> lock_idx(s1, lid) == lock_idx(s2, lid),
{
    if has_lock(s1, lid) {
        let i = lock_idx(s1, lid);
        assert(0 <= i < s1.len() && s1[i].id == lid);
        lemma_lock_idx(s2, lid, i);
        lemma_lock_idx(s1, lid, i);
    } else if has_lock(s2, lid) {
        let i = lock_idx(s2, lid);
        assert(0 <= i < s2.len() && s2[i].id == lid);
        assert(s1[i].id == lid);
        assert(has_lock(s1, lid));
    }
}

} // verus!
