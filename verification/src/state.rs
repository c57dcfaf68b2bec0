//! The module's persisted state, modeled as in-memory tables.
//!
//! Every durable entry the module keeps lives here: account balances,
//! deposit outcomes, epoch outcomes, the two epoch counters, the epoch-end
//! votes, and the staged actions. The host persists this state through its
//! transactional store; all transitions on it are verified.

use vstd::prelude::*;
use crate::account::AccountBalance;
use crate::action::ActionStaged;
use crate::epoch::EpochEnd;
use crate::epoch::EpochOutcome;
use crate::table::tbl_get;
use crate::table::tbl_wf;
use crate::words::AccountId;
use crate::words::OutPoint;

verus! {

/// Largest epoch id the state machine will count up to; votes past it are
/// ignored so that derived ids (`current + 1`) can never overflow.
pub const EPOCH_ID_CAP: u64 = 0xffff_ffff_ffff_fffb;

/// The whole persisted state of one replica.
pub struct PoolState {
    /// Account balances, keyed by account id.
    pub accounts: Vec<(AccountId, AccountBalance)>,
    /// Which account each successful deposit outpoint credited.
    pub deposits: Vec<(OutPoint, AccountId)>,
    /// Epoch outcomes, keyed by epoch id.
    pub outcomes: Vec<(u64, EpochOutcome)>,
    /// Last epoch that was ended; 0 before any epoch ended.
    pub last_ended: u64,
    /// Last epoch that was settled; 0 before any epoch settled.
    pub last_settled: u64,
    /// The latest valid epoch-end vote of each peer, keyed by peer id.
    pub votes: Vec<(u64, EpochEnd)>,
    /// The staged action of each account, keyed by account id.
    pub staged: Vec<(AccountId, ActionStaged)>,
}

/// Sum of unlocked plus locked msats over a run of accounts.
pub open spec fn sum_total(s: Seq<(AccountId, AccountBalance)>) -> int
    decreases s.len(),
{
    if s.len() == 0 {
        0
    } else {
        sum_total(s.drop_last()) + s.last().1.total_spec()
    }
}

/// Each summand is non-negative, so the sum dominates every prefix.
pub proof fn lemma_sum_total_nonneg(s: Seq<(AccountId, AccountBalance)>)
    ensures
        sum_total(s) >= 0,
    decreases s.len(),
{
    if s.len() > 0 {
        lemma_sum_total_nonneg(s.drop_last());
    }
}

/// Appending one account adds its total to the sum.
pub proof fn lemma_sum_total_push(s: Seq<(AccountId, AccountBalance)>, p: (AccountId, AccountBalance))
    ensures
        sum_total(s.push(p)) == sum_total(s) + p.1.total_spec(),
{
    assert(s.push(p).drop_last() =~= s);
}

/// Replacing one account changes the sum by the difference of its totals.
pub proof fn lemma_sum_total_update(s: Seq<(AccountId, AccountBalance)>, i: int, p: (AccountId, AccountBalance))
    requires
        0 <= i < s.len(),
    ensures
        sum_total(s.update(i, p)) == sum_total(s) - s[i].1.total_spec() + p.1.total_spec(),
    decreases s.len(),
{
    let t = s.update(i, p);
    if i == s.len() - 1 {
        assert(t.drop_last() =~= s.drop_last());
        assert(t.last() == p);
    } else {
        assert(t.drop_last() =~= s.drop_last().update(i, p));
        assert(t.last() == s.last());
        lemma_sum_total_update(s.drop_last(), i, p);
    }
}

/// Taking one more account extends the prefix sum by its total.
pub proof fn lemma_sum_total_take_step(s: Seq<(AccountId, AccountBalance)>, n: int)
    requires
        0 <= n < s.len(),
    ensures
        sum_total(s.take(n + 1)) == sum_total(s.take(n)) + s[n].1.total_spec(),
{
    assert(s.take(n + 1).drop_last() =~= s.take(n));
    assert(s.take(n + 1).last() == s[n]);
}

/// The full take is the sequence itself.
pub proof fn lemma_sum_total_take_all(s: Seq<(AccountId, AccountBalance)>)
    ensures
        sum_total(s.take(s.len() as int)) == sum_total(s),
{
    assert(s.take(s.len() as int) =~= s);
}

impl PoolState {
    /// Structural well-formedness: tables keyed uniquely, counters ordered,
    /// votes belonging to the open epoch, staged actions self-consistent and
    /// belonging to the staging epoch.
    pub open spec fn wf(self) -> bool {
        &&& tbl_wf(self.accounts@)
        &&& tbl_wf(self.deposits@)
        &&& tbl_wf(self.outcomes@)
        &&& tbl_wf(self.votes@)
        &&& tbl_wf(self.staged@)
        &&& self.last_settled <= self.last_ended
        &&& self.last_ended <= EPOCH_ID_CAP
        &&& forall|i: int|
            0 <= i < self.votes@.len() ==> (#[trigger] self.votes@[i]).1.epoch_id
                == self.last_ended + 1
        &&& forall|i: int|
            0 <= i < self.staged@.len() ==> (#[trigger] self.staged@[i]).1.action.account_id
                == self.staged@[i].0 && self.staged@[i].1.action.epoch_id == self.last_ended + 2
    }

    /// Field-for-field equality with `other`.
    pub open spec fn unchanged_from(self, other: PoolState) -> bool {
        &&& self.accounts@ == other.accounts@
        &&& self.deposits@ == other.deposits@
        &&& self.outcomes@ == other.outcomes@
        &&& self.last_ended == other.last_ended
        &&& self.last_settled == other.last_settled
        &&& self.votes@ == other.votes@
        &&& self.staged@ == other.staged@
    }

    /// The open epoch: one past the last ended epoch.
    pub open spec fn current_spec(self) -> int {
        self.last_ended + 1
    }

    /// The epoch actions are accepted for: one past the open epoch.
    pub open spec fn staging_spec(self) -> int {
        self.last_ended + 2
    }

    /// The balance recorded for `account`, or the fresh default.
    pub open spec fn balance_of(self, account: AccountId) -> AccountBalance {
        match tbl_get(self.accounts@, account) {
            Some(b) => b,
            None => AccountBalance { unlocked: 0u64, locked: crate::account::LockedBalance::Vacant },
        }
    }

    /// A state with nothing deposited and no epoch ended.
    pub fn new_empty() -> (r: PoolState)
        ensures
            r.wf(),
            r.accounts@.len() == 0,
            r.deposits@.len() == 0,
            r.outcomes@.len() == 0,
            r.last_ended == 0u64,
            r.last_settled == 0u64,
            r.votes@.len() == 0,
            r.staged@.len() == 0,
    {
        PoolState {
            accounts: Vec::new(),
            deposits: Vec::new(),
            outcomes: Vec::new(),
            last_ended: 0,
            last_settled: 0,
            votes: Vec::new(),
            staged: Vec::new(),
        }
    }

    /// The open epoch id.
    pub fn current_epoch_id(&self) -> (r: u64)
        requires
            self.wf(),
        ensures
            r == self.current_spec(),
    {
        self.last_ended + 1
    }

    /// The staging epoch id.
    pub fn staging_epoch_id(&self) -> (r: u64)
        requires
            self.wf(),
        ensures
            r == self.staging_spec(),
    {
        self.last_ended + 2
    }

    /// The derived epoch-state view served by the read API.
    pub fn epoch_state(&self) -> (r: crate::epoch::EpochState)
        requires
            self.wf(),
        ensures
            r.wf(),
            r.latest_ended == if self.last_ended == 0u64 {
                Option::<u64>::None
            } else {
                Option::<u64>::Some(self.last_ended)
            },
            r.latest_settled == if self.last_settled == 0u64 {
                Option::<u64>::None
            } else {
                Option::<u64>::Some(self.last_settled)
            },
            r.current_spec() == self.current_spec(),
    {
        crate::epoch::EpochState {
            latest_ended: if self.last_ended == 0 {
                None
            } else {
                Some(self.last_ended)
            },
            latest_settled: if self.last_settled == 0 {
                None
            } else {
                Some(self.last_settled)
            },
        }
    }

    /// Total msats across all accounts; `None` exactly on `u64` overflow.
    pub fn audit(&self) -> (r: Option<u64>)
        requires
            self.wf(),
        ensures
            sum_total(self.accounts@) <= u64::MAX ==> r == Some(sum_total(self.accounts@) as u64),
            sum_total(self.accounts@) > u64::MAX ==> r is None,
    {
        let n = self.accounts.len();
        let mut acc: u64 = 0;
        let mut i: usize = 0;
        proof {
            assert(self.accounts@.take(0) =~= Seq::<(AccountId, AccountBalance)>::empty());
        }
        while i < n
            invariant
                self.wf(),
                n == self.accounts@.len(),
                i <= n,
                acc as int == sum_total(self.accounts@.take(i as int)),
            decreases n - i,
        {
            let b = self.accounts[i].1;
            proof {
                lemma_sum_total_take_step(self.accounts@, i as int);
            }
            let t = match b.total_balance() {
                Some(t) => t,
                None => {
                    proof {
                        lemma_sum_prefix_bounds(self.accounts@, i as int + 1);
                    }
                    return None;
                },
            };
            acc = match acc.checked_add(t) {
                Some(a) => a,
                None => {
                    proof {
                        lemma_sum_prefix_bounds(self.accounts@, i as int + 1);
                    }
                    return None;
                },
            };
            i = i + 1;
        }
        proof {
            lemma_sum_total_take_all(self.accounts@);
        }
        Some(acc)
    }
}

/// A prefix sum never exceeds the total sum.
pub proof fn lemma_sum_prefix_bounds(s: Seq<(AccountId, AccountBalance)>, n: int)
    requires
        0 <= n <= s.len(),
    ensures
        sum_total(s.take(n)) <= sum_total(s),
    decreases s.len() - n,
{
    if n < s.len() {
        lemma_sum_total_take_step(s, n);
        lemma_sum_prefix_bounds(s, n + 1);
    } else {
        lemma_sum_total_take_all(s);
    }
}

} // verus!
