//! Epoch state: ids, outcomes, closing votes, settlement and promotion.

use vstd::prelude::*;
use crate::account::AccountBalance;
use crate::account::LockedBalance;
use crate::state::sum_total;
use crate::words::AccountId;
use vstd::multiset::Multiset;

verus! {

/// Fee per epoch in parts per million of locked principal.
#[derive(Clone, Copy, Debug, PartialEq, Eq, Structural, Hash)]
pub struct Feerate {
    pub ppm: u64,
}

impl Feerate {
    /// The rate in parts per million.
    pub fn approx_ppm_feerate(&self) -> (r: u64)
        ensures
            r == self.ppm,
    {
        self.ppm
    }
}

/// What an epoch produced: the matched fee rate and totals, recorded when
/// the epoch opens, and the settled closing price, recorded when enough
/// peers have voted.
#[derive(Clone, Copy, Debug, PartialEq, Eq, Structural, Hash)]
pub struct EpochOutcome {
    pub feerate: Feerate,
    pub seeker_total: u64,
    pub provider_total: u64,
    pub settled_price: Option<u64>,
}

/// A peer's vote for closing an epoch at a price (integer cents).
#[derive(Clone, Copy, Debug, PartialEq, Eq, Structural, Hash)]
pub struct EpochEnd {
    pub epoch_id: u64,
    pub price: u64,
}

/// The epoch ids derived from the persisted singletons: `None` while no
/// epoch has ended (or settled) yet.
#[derive(Clone, Copy, Debug, PartialEq, Eq, Structural, Hash)]
pub struct EpochState {
    pub latest_ended: Option<u64>,
    pub latest_settled: Option<u64>,
}

impl EpochState {
    /// The open epoch: one past the last ended epoch.
    pub fn current_epoch_id(&self) -> (r: u64)
        requires
            self.wf(),
        ensures
            r == self.current_spec(),
    {
        match self.latest_ended {
            Some(e) => e + 1,
            None => 1,
        }
    }

    /// The epoch user actions are currently accepted for: one past the open epoch.
    pub fn staging_epoch_id(&self) -> (r: u64)
        requires
            self.wf(),
        ensures
            r == self.current_spec() + 1,
    {
        self.current_epoch_id() + 1
    }

    /// The last-ended id stays far enough below `u64::MAX` that derived ids fit.
    pub open spec fn wf(self) -> bool {
        match self.latest_ended {
            Some(e) => e <= u64::MAX - 4,
            None => true,
        }
    }

    /// The open epoch id.
    pub open spec fn current_spec(self) -> int {
        match self.latest_ended {
            Some(e) => e + 1,
            None => 1,
        }
    }
}

/// Exponential retry delay for oracle queries, bounded above.
///
/// While the oracle fails, no epoch-end item is proposed; each failure
/// doubles the delay up to a fixed cap.
#[derive(Clone, Copy, Debug, PartialEq, Eq, Structural, Hash)]
pub struct BackOff {
    /// Seconds to wait after the most recent failure.
    pub delay_secs: u64,
    /// Earliest wall-clock second at which the next attempt may run.
    pub not_before: u64,
}

impl BackOff {
    /// First retry delay in seconds.
    pub open spec fn base_secs() -> u64 {
        5u64
    }

    /// Largest retry delay in seconds.
    pub open spec fn cap_secs() -> u64 {
        300u64
    }

    /// Whether an attempt may run at wall-clock second `now`.
    pub fn ready(&self, now: u64) -> (r: bool)
        ensures
            r == (now >= self.not_before),
    {
        now >= self.not_before
    }

    /// Records a failed oracle query at `now`: doubles the delay up to the cap.
    pub fn record_failure(&mut self, now: u64)
        ensures
            final(self).delay_secs == if old(self).delay_secs == 0 {
                BackOff::base_secs()
            } else if old(self).delay_secs * 2 <= BackOff::cap_secs() {
                (old(self).delay_secs * 2) as u64
            } else {
                BackOff::cap_secs()
            },
            final(self).not_before == if now + final(self).delay_secs <= u64::MAX {
                (now + final(self).delay_secs) as u64
            } else {
                u64::MAX
            },
    {
        let next_delay: u64 = if self.delay_secs == 0 {
            5
        } else if self.delay_secs <= 150 {
            self.delay_secs * 2
        } else {
            300
        };
        self.delay_secs = next_delay;
        self.not_before = match now.checked_add(next_delay) {
            Some(t) => t,
            None => u64::MAX,
        };
    }

    /// Records a successful oracle query: the next attempt may run at once.
    pub fn record_success(&mut self)
        ensures
            final(self).delay_secs == 0u64,
            final(self).not_before == 0u64,
    {
        self.delay_secs = 0;
        self.not_before = 0;
    }
}

/// Inserts `x` into a sorted run, before the first larger element.
pub open spec fn insert_sorted(x: u64, s: Seq<u64>) -> Seq<u64>
    decreases s.len(),
{
    if s.len() == 0 {
        seq![x]
    } else if s[0] > x {
        seq![x] + s
    } else {
        seq![s[0]] + insert_sorted(x, s.drop_first())
    }
}

/// The prices sorted ascending by repeated insertion.
pub open spec fn sort_prices(s: Seq<u64>) -> Seq<u64>
    decreases s.len(),
{
    if s.len() == 0 {
        Seq::empty()
    } else {
        insert_sorted(s.last(), sort_prices(s.drop_last()))
    }
}

/// Insertion grows a run by one.
pub proof fn lemma_insert_sorted_len(x: u64, s: Seq<u64>)
    ensures
        insert_sorted(x, s).len() == s.len() + 1,
    decreases s.len(),
{
    if s.len() > 0 && !(s[0] > x) {
        lemma_insert_sorted_len(x, s.drop_first());
    }
}

/// Sorting preserves the length.
pub proof fn lemma_sort_prices_len(s: Seq<u64>)
    ensures
        sort_prices(s).len() == s.len(),
    decreases s.len(),
{
    if s.len() > 0 {
        lemma_sort_prices_len(s.drop_last());
        lemma_insert_sorted_len(s.last(), sort_prices(s.drop_last()));
    }
}

/// The median of the prices: the lower of the two middle values of the
/// sorted run, so that an even count still settles deterministically.
pub open spec fn median_spec(s: Seq<u64>) -> u64
    recommends
        s.len() > 0,
{
    sort_prices(s)[(s.len() - 1) as int / 2]
}

/// Inserting at the position of the first larger element is the same as
/// splitting there.
proof fn lemma_insert_sorted_split(x: u64, s: Seq<u64>, k: int)
    requires
        0 <= k <= s.len(),
        forall|i: int| 0 <= i < k ==> !(s[i] > x),
        k < s.len() ==> s[k] > x,
    ensures
        insert_sorted(x, s) == s.take(k) + seq![x] + s.skip(k),
    decreases s.len(),
{
    if s.len() == 0 {
        assert(insert_sorted(x, s) =~= s.take(0) + seq![x] + s.skip(0));
    } else if k == 0 {
        assert(insert_sorted(x, s) =~= s.take(0) + seq![x] + s.skip(0));
    } else {
        assert(!(s[0] > x));
        lemma_insert_sorted_split(x, s.drop_first(), k - 1);
        assert(s.drop_first().take(k - 1) =~= s.take(k).drop_first());
        assert(s.drop_first().skip(k - 1) =~= s.skip(k));
        assert(seq![s[0]] + (s.drop_first().take(k - 1) + seq![x] + s.drop_first().skip(k - 1))
            =~= s.take(k) + seq![x] + s.skip(k));
    }
}

/// Inserts `x` into an ascending vector, keeping it ascending.
fn insert_price(sorted: &mut Vec<u64>, x: u64)
    ensures
        final(sorted)@ == insert_sorted(x, old(sorted)@),
{
    let n = sorted.len();
    let mut k: usize = 0;
    while k < n && sorted[k] <= x
        invariant
            k <= n,
            n == sorted@.len(),
            sorted@ == old(sorted)@,
            forall|i: int| 0 <= i < k ==> !(sorted@[i] > x),
        decreases n - k,
    {
        k = k + 1;
    }
    proof {
        lemma_insert_sorted_split(x, sorted@, k as int);
    }
    sorted.insert(k, x);
    proof {
        assert(sorted@ =~= old(sorted)@.take(k as int) + seq![x] + old(sorted)@.skip(k as int));
    }
}

/// The median price of a non-empty list of votes.
pub fn median_of(prices: &Vec<u64>) -> (r: u64)
    requires
        prices@.len() > 0,
    ensures
        r == median_spec(prices@),
{
    let n = prices.len();
    let mut sorted: Vec<u64> = Vec::new();
    let mut i: usize = 0;
    proof {
        assert(prices@.take(0) =~= Seq::<u64>::empty());
    }
    while i < n
        invariant
            i <= n,
            n == prices@.len(),
            sorted@ == sort_prices(prices@.take(i as int)),
        decreases n - i,
    {
        proof {
            assert(prices@.take(i as int + 1).drop_last() =~= prices@.take(i as int));
        }
        insert_price(&mut sorted, prices[i]);
        i = i + 1;
    }
    proof {
        assert(prices@.take(n as int) =~= prices@);
        lemma_sort_prices_len(prices@);
    }
    sorted[(n - 1) / 2]
}

/// Total locked msats from index `i` on.
pub open spec fn locked_from(s: Seq<(AccountId, AccountBalance)>, i: int) -> int
    decreases s.len() - i when i <= s.len()
{
    if i < 0 || i >= s.len() {
        0
    } else {
        s[i].1.locked.amount_spec() + locked_from(s, i + 1)
    }
}

/// Total seeker-locked msats from index `i` on.
pub open spec fn seeker_from(s: Seq<(AccountId, AccountBalance)>, i: int) -> int
    decreases s.len() - i when i <= s.len()
{
    if i < 0 || i >= s.len() {
        0
    } else {
        (match s[i].1.locked {
            LockedBalance::Seeker(v) => v as int,
            _ => 0,
        }) + seeker_from(s, i + 1)
    }
}

/// Total provider-locked msats from index `i` on.
pub open spec fn provider_from(s: Seq<(AccountId, AccountBalance)>, i: int) -> int
    decreases s.len() - i when i <= s.len()
{
    if i < 0 || i >= s.len() {
        0
    } else {
        (match s[i].1.locked {
            LockedBalance::Provider(v) => v as int,
            _ => 0,
        }) + provider_from(s, i + 1)
    }
}

/// Suffix sums only depend on the suffix.
pub proof fn lemma_suffix_sums_agree(
    s1: Seq<(AccountId, AccountBalance)>,
    s2: Seq<(AccountId, AccountBalance)>,
    i: int,
)
    requires
        s1.len() == s2.len(),
        0 <= i <= s1.len(),
        forall|j: int| i <= j < s1.len() ==> s1[j] == s2[j],
    ensures
        locked_from(s1, i) == locked_from(s2, i),
        seeker_from(s1, i) == seeker_from(s2, i),
        provider_from(s1, i) == provider_from(s2, i),
    decreases s1.len() - i,
{
    if i < s1.len() {
        lemma_suffix_sums_agree(s1, s2, i + 1);
    }
}

/// The suffix sums are non-negative and bounded by the pot.
pub proof fn lemma_suffix_sums_nonneg(s: Seq<(AccountId, AccountBalance)>, i: int)
    requires
        0 <= i <= s.len(),
    ensures
        locked_from(s, i) >= 0,
        seeker_from(s, i) >= 0,
        provider_from(s, i) >= 0,
        seeker_from(s, i) <= locked_from(s, i),
        provider_from(s, i) <= locked_from(s, i),
    decreases s.len() - i,
{
    if i < s.len() {
        lemma_suffix_sums_nonneg(s, i + 1);
    }
}

/// Sum of whole-account totals from index `i` on.
pub open spec fn sum_from(s: Seq<(AccountId, AccountBalance)>, i: int) -> int
    decreases s.len() - i when i <= s.len()
{
    if i < 0 || i >= s.len() {
        0
    } else {
        s[i].1.total_spec() + sum_from(s, i + 1)
    }
}

/// The forward account-total sum matches the recursive definition of
/// [`sum_total`], offset by the prefix.
pub proof fn lemma_sum_from_bridge(s: Seq<(AccountId, AccountBalance)>, i: int)
    requires
        0 <= i <= s.len(),
    ensures
        sum_from(s, i) == sum_total(s) - sum_total(s.take(i)),
    decreases s.len() - i,
{
    if i == s.len() {
        crate::state::lemma_sum_total_take_all(s);
    } else {
        lemma_sum_from_bridge(s, i + 1);
        crate::state::lemma_sum_total_take_step(s, i);
    }
}

/// The locked suffix sum is bounded by the account-total suffix sum.
pub proof fn lemma_locked_le_sum_from(s: Seq<(AccountId, AccountBalance)>, i: int)
    requires
        0 <= i <= s.len(),
    ensures
        locked_from(s, i) <= sum_from(s, i),
        sum_from(s, i) >= 0,
    decreases s.len() - i,
{
    if i < s.len() {
        lemma_locked_le_sum_from(s, i + 1);
    }
}

/// One account's unlocked msats plus the whole pot fit under the total.
pub proof fn lemma_unlocked_plus_pot(s: Seq<(AccountId, AccountBalance)>, j: int)
    requires
        0 <= j < s.len(),
    ensures
        s[j].1.unlocked + locked_from(s, 0) <= sum_total(s),
{
    lemma_unlocked_plus_pot_from(s, 0, j);
    lemma_sum_from_bridge(s, 0);
    assert(s.take(0) =~= Seq::<(AccountId, AccountBalance)>::empty());
}

/// One account's unlocked msats plus the locked suffix fit under the
/// account-total suffix, for any suffix containing the account.
proof fn lemma_unlocked_plus_pot_from(s: Seq<(AccountId, AccountBalance)>, i: int, j: int)
    requires
        0 <= i <= j < s.len(),
    ensures
        s[j].1.unlocked + locked_from(s, i) <= sum_from(s, i),
    decreases j - i,
{
    if i == j {
        lemma_locked_le_sum_from(s, i + 1);
    } else {
        lemma_unlocked_plus_pot_from(s, i + 1, j);
    }
}

/// An account's own msats are under the whole sum.
pub proof fn lemma_element_le_sum(s: Seq<(AccountId, AccountBalance)>, j: int)
    requires
        0 <= j < s.len(),
    ensures
        s[j].1.total_spec() <= sum_total(s),
{
    lemma_element_le_sum_from(s, 0, j);
    lemma_sum_from_bridge(s, 0);
    assert(s.take(0) =~= Seq::<(AccountId, AccountBalance)>::empty());
}

/// An account's own msats are under the account-total suffix sum.
proof fn lemma_element_le_sum_from(s: Seq<(AccountId, AccountBalance)>, i: int, j: int)
    requires
        0 <= i <= j < s.len(),
    ensures
        s[j].1.total_spec() <= sum_from(s, i),
    decreases j - i,
{
    if i == j {
        lemma_locked_le_sum_from(s, i + 1);
    } else {
        lemma_element_le_sum_from(s, i + 1, j);
    }
}

impl Default for BackOff {
    /// Initially no delay is pending.
    fn default() -> (r: Self)
        ensures
            r.delay_secs == 0u64,
            r.not_before == 0u64,
    {
        BackOff { delay_secs: 0, not_before: 0 }
    }
}

/// What one locked seeker position is paid from the remaining budget: its
/// repriced value plus its fee, capped by the budget. A zero closing price
/// values the repriced position at zero.
pub open spec fn seeker_pay_amt(v: u64, rate: u64, p0: u64, p1: u64, budget: int) -> int {
    let repriced = if p1 == 0 {
        0
    } else {
        (v * p0) / (p1 as int)
    };
    let t = repriced + crate::stability_core::seeker_fee_spec(rate, v);
    if t <= budget {
        t
    } else {
        budget
    }
}

/// First settlement pass: walking up from index `i`, each seeker position
/// is paid [`seeker_pay_amt`] from the remaining budget into its unlocked
/// balance and emptied. Returns the accounts and the leftover budget.
pub open spec fn settle_seekers_spec(
    s: Seq<(AccountId, AccountBalance)>,
    i: int,
    rate: u64,
    p0: u64,
    p1: u64,
    budget: int,
) -> (Seq<(AccountId, AccountBalance)>, int)
    decreases s.len() - i when i <= s.len()
{
    if i < 0 || i >= s.len() {
        (s, budget)
    } else {
        match s[i].1.locked {
            LockedBalance::Seeker(v) => {
                let pay = seeker_pay_amt(v, rate, p0, p1, budget);
                let nb = AccountBalance {
                    unlocked: (s[i].1.unlocked + pay) as u64,
                    locked: LockedBalance::Vacant,
                };
                settle_seekers_spec(s.update(i, (s[i].0, nb)), i + 1, rate, p0, p1, budget - pay)
            },
            _ => settle_seekers_spec(s, i + 1, rate, p0, p1, budget),
        }
    }
}

/// What one provider position is paid: its pro-rata share of the remaining
/// budget over the provider collateral not yet reached, so that the last
/// provider drains the budget exactly.
pub open spec fn provider_pay_amt(v: u64, budget: int, coll: int) -> int {
    if coll <= 0 {
        0
    } else {
        (budget * v) / coll
    }
}

/// Second settlement pass: walking up from index `i`, each provider
/// position is paid [`provider_pay_amt`] into its unlocked balance and
/// emptied; `coll` tracks the provider collateral not yet reached.
pub open spec fn settle_providers_spec(
    s: Seq<(AccountId, AccountBalance)>,
    i: int,
    budget: int,
    coll: int,
) -> (Seq<(AccountId, AccountBalance)>, int)
    decreases s.len() - i when i <= s.len()
{
    if i < 0 || i >= s.len() {
        (s, budget)
    } else {
        match s[i].1.locked {
            LockedBalance::Provider(v) => {
                let pay = provider_pay_amt(v, budget, coll);
                let nb = AccountBalance {
                    unlocked: (s[i].1.unlocked + pay) as u64,
                    locked: LockedBalance::Vacant,
                };
                settle_providers_spec(s.update(i, (s[i].0, nb)), i + 1, budget - pay, coll - v)
            },
            _ => settle_providers_spec(s, i + 1, budget, coll),
        }
    }
}

/// The last account with a locked position, or -1 when nothing is locked.
pub open spec fn last_participant(s: Seq<(AccountId, AccountBalance)>) -> int
    decreases s.len(),
{
    if s.len() == 0 {
        -1
    } else if !(s.last().1.locked is Vacant) {
        s.len() - 1
    } else {
        last_participant(s.drop_last())
    }
}

/// The whole settlement of one epoch: the pot of all locked msats pays the
/// seekers first, what remains pays the providers pro rata, and any residue
/// (possible only when no provider is locked) returns to the last
/// participant rather than leaving the accounts, so that the pool's msats
/// conserve exactly through every settlement. Every locked position is
/// emptied.
pub open spec fn settle_spec(s: Seq<(AccountId, AccountBalance)>, rate: u64, p0: u64, p1: u64) -> Seq<
    (AccountId, AccountBalance),
> {
    let pot = locked_from(s, 0);
    let pass1 = settle_seekers_spec(s, 0, rate, p0, p1, pot);
    let pass2 = settle_providers_spec(pass1.0, 0, pass1.1, provider_from(pass1.0, 0));
    let lp = last_participant(s);
    if pass2.1 > 0 && lp >= 0 {
        let b = pass2.0[lp].1;
        pass2.0.update(
            lp,
            (pass2.0[lp].0, AccountBalance {
                unlocked: (b.unlocked + pass2.1) as u64,
                locked: b.locked,
            }),
        )
    } else {
        pass2.0
    }
}

/// Updating one account shifts the suffix sums by its own difference.
pub proof fn lemma_sums_update(
    s: Seq<(AccountId, AccountBalance)>,
    i: int,
    p: (AccountId, AccountBalance),
    start: int,
)
    requires
        0 <= start <= i < s.len(),
    ensures
        locked_from(s.update(i, p), start) == locked_from(s, start) - s[i].1.locked.amount_spec()
            + p.1.locked.amount_spec(),
        provider_from(s.update(i, p), start) == provider_from(s, start) - (match s[i].1.locked {
            LockedBalance::Provider(v) => v as int,
            _ => 0,
        }) + (match p.1.locked {
            LockedBalance::Provider(v) => v as int,
            _ => 0,
        }),
        seeker_from(s.update(i, p), start) == seeker_from(s, start) - (match s[i].1.locked {
            LockedBalance::Seeker(v) => v as int,
            _ => 0,
        }) + (match p.1.locked {
            LockedBalance::Seeker(v) => v as int,
            _ => 0,
        }),
    decreases i - start,
{
    let t = s.update(i, p);
    if start == i {
        lemma_suffix_sums_agree(t, s, i + 1);
    } else {
        lemma_sums_update(s, i, p, start + 1);
    }
}

/// The pot splits into its seeker side and its provider side.
pub proof fn lemma_locked_sides(s: Seq<(AccountId, AccountBalance)>, i: int)
    requires
        0 <= i <= s.len(),
    ensures
        locked_from(s, i) == seeker_from(s, i) + provider_from(s, i),
    decreases s.len() - i,
{
    if i < s.len() {
        lemma_locked_sides(s, i + 1);
    }
}

/// Division facts for the pro-rata provider share.
pub proof fn lemma_pro_rata(budget: int, v: int, coll: int)
    requires
        budget >= 0,
        0 <= v <= coll,
        coll > 0,
    ensures
        0 <= (budget * v) / coll <= budget,
        v == coll ==> (budget * v) / coll == budget,
{
    assert(0 <= (budget * v) / coll <= budget) by (nonlinear_arith)
        requires
            budget >= 0,
            0 <= v <= coll,
            coll > 0,
    ;
    if v == coll {
        assert((budget * v) / coll == budget) by (nonlinear_arith)
            requires
                coll > 0,
                v == coll,
        ;
    }
}

/// The seeker pay is between zero and the budget.
pub proof fn lemma_seeker_pay_bounds(v: u64, rate: u64, p0: u64, p1: u64, budget: int)
    requires
        budget >= 0,
    ensures
        0 <= seeker_pay_amt(v, rate, p0, p1, budget) <= budget,
{
    if p1 != 0 {
        crate::stability_core::lemma_div_le((v as int) * (p0 as int), p1 as int);
    }
    crate::stability_core::lemma_div_le((rate as int) * (v as int), 1_000_000int);
    crate::stability_core::lemma_u64_mul_fits(v, p0);
    crate::stability_core::lemma_u64_mul_fits(rate, v);
}

/// Structure of the seeker pass: lengths, keys and already-visited entries
/// are preserved, the leftover budget shrinks, the books balance exactly,
/// seekers are emptied and everyone else is untouched.
pub proof fn lemma_settle_seekers_props(
    s: Seq<(AccountId, AccountBalance)>,
    i: int,
    rate: u64,
    p0: u64,
    p1: u64,
    budget: int,
)
    requires
        0 <= i <= s.len(),
        budget >= 0,
        sum_total(s) + budget <= u64::MAX + locked_from(s, 0),
    ensures
        settle_seekers_spec(s, i, rate, p0, p1, budget).0.len() == s.len(),
        forall|j: int|
            0 <= j < s.len() ==> (#[trigger] settle_seekers_spec(s, i, rate, p0, p1, budget).0[j]).0
                == s[j].0,
        forall|j: int|
            0 <= j < i ==> (#[trigger] settle_seekers_spec(s, i, rate, p0, p1, budget).0[j])
                == s[j],
        0 <= settle_seekers_spec(s, i, rate, p0, p1, budget).1 <= budget,
        sum_total(settle_seekers_spec(s, i, rate, p0, p1, budget).0) == sum_total(s) + (budget
            - settle_seekers_spec(s, i, rate, p0, p1, budget).1) - seeker_from(s, i),
        forall|j: int|
            i <= j < s.len() ==> (#[trigger] settle_seekers_spec(s, i, rate, p0, p1, budget).0[j]).1
                == (match s[j].1.locked {
                LockedBalance::Seeker(_) => AccountBalance {
                    unlocked: settle_seekers_spec(s, i, rate, p0, p1, budget).0[j].1.unlocked,
                    locked: LockedBalance::Vacant,
                },
                _ => s[j].1,
            }),
    decreases s.len() - i,
{
    lemma_suffix_sums_nonneg(s, i);
    if i < s.len() {
        match s[i].1.locked {
            LockedBalance::Seeker(v) => {
                let pay = seeker_pay_amt(v, rate, p0, p1, budget);
                lemma_seeker_pay_bounds(v, rate, p0, p1, budget);
                lemma_unlocked_plus_pot(s, i);
                let nb = AccountBalance {
                    unlocked: (s[i].1.unlocked + pay) as u64,
                    locked: LockedBalance::Vacant,
                };
                assert(s[i].1.unlocked + pay <= u64::MAX);
                let t = s.update(i, (s[i].0, nb));
                lemma_suffix_sums_agree(t, s, i + 1);
                lemma_sums_update(s, i, (s[i].0, nb), 0);
                crate::state::lemma_sum_total_update(s, i, (s[i].0, nb));
                lemma_settle_seekers_props(t, i + 1, rate, p0, p1, budget - pay);
            },
            _ => {
                lemma_settle_seekers_props(s, i + 1, rate, p0, p1, budget);
            },
        }
    }
}

/// Structure of the provider pass, including that any provider collateral
/// at all drains the budget to exactly zero.
pub proof fn lemma_settle_providers_props(
    s: Seq<(AccountId, AccountBalance)>,
    i: int,
    budget: int,
    coll: int,
)
    requires
        0 <= i <= s.len(),
        budget >= 0,
        coll == provider_from(s, i),
        sum_total(s) + budget <= u64::MAX + locked_from(s, 0),
    ensures
        settle_providers_spec(s, i, budget, coll).0.len() == s.len(),
        forall|j: int|
            0 <= j < s.len() ==> (#[trigger] settle_providers_spec(s, i, budget, coll).0[j]).0
                == s[j].0,
        forall|j: int|
            0 <= j < i ==> (#[trigger] settle_providers_spec(s, i, budget, coll).0[j]) == s[j],
        0 <= settle_providers_spec(s, i, budget, coll).1 <= budget,
        provider_from(s, i) > 0 ==> settle_providers_spec(s, i, budget, coll).1 == 0,
        sum_total(settle_providers_spec(s, i, budget, coll).0) == sum_total(s) + (budget
            - settle_providers_spec(s, i, budget, coll).1) - provider_from(s, i),
        forall|j: int|
            i <= j < s.len() ==> (#[trigger] settle_providers_spec(s, i, budget, coll).0[j]).1
                == (match s[j].1.locked {
                LockedBalance::Provider(_) => AccountBalance {
                    unlocked: settle_providers_spec(s, i, budget, coll).0[j].1.unlocked,
                    locked: LockedBalance::Vacant,
                },
                _ => s[j].1,
            }),
    decreases s.len() - i,
{
    lemma_suffix_sums_nonneg(s, i);
    if i < s.len() {
        match s[i].1.locked {
            LockedBalance::Provider(v) => {
                lemma_suffix_sums_nonneg(s, i + 1);
                let pay = provider_pay_amt(v, budget, coll);
                if coll > 0 {
                    lemma_pro_rata(budget, v as int, coll);
                } else {
                    assert(pay == 0);
                }
                lemma_unlocked_plus_pot(s, i);
                let nb = AccountBalance {
                    unlocked: (s[i].1.unlocked + pay) as u64,
                    locked: LockedBalance::Vacant,
                };
                assert(s[i].1.unlocked + pay <= u64::MAX);
                let t = s.update(i, (s[i].0, nb));
                lemma_suffix_sums_agree(t, s, i + 1);
                lemma_sums_update(s, i, (s[i].0, nb), 0);
                crate::state::lemma_sum_total_update(s, i, (s[i].0, nb));
                lemma_settle_providers_props(t, i + 1, budget - pay, coll - v);
            },
            _ => {
                lemma_settle_providers_props(s, i + 1, budget, coll);
            },
        }
    }
}

/// A vacant run has no pot; a positive pot has a last participant.
pub proof fn lemma_last_participant(s: Seq<(AccountId, AccountBalance)>)
    ensures
        last_participant(s) >= -1,
        last_participant(s) == -1 ==> locked_from(s, 0) == 0,
        last_participant(s) >= 0 ==> last_participant(s) < s.len() && !(s[last_participant(
            s,
        )].1.locked is Vacant),
    decreases s.len(),
{
    if s.len() > 0 {
        lemma_last_participant(s.drop_last());
        if s.last().1.locked is Vacant {
            lemma_locked_from_drop_last_from(s, 0);
        }
    }
}

/// A forward characterization: the index found by scanning for the last
/// non-vacant entry is `last_participant`.
pub proof fn lemma_last_participant_char(s: Seq<(AccountId, AccountBalance)>, t: int)
    requires
        0 <= t < s.len(),
        !(s[t].1.locked is Vacant),
        forall|j: int| t < j < s.len() ==> (#[trigger] s[j]).1.locked is Vacant,
    ensures
        last_participant(s) == t,
    decreases s.len(),
{
    if t == s.len() - 1 {
    } else {
        assert(forall|j: int|
            t < j < s.len() - 1 ==> (#[trigger] s.drop_last()[j]).1.locked is Vacant);
        lemma_last_participant_char(s.drop_last(), t);
    }
}

/// A fully vacant run has `last_participant` -1.
pub proof fn lemma_last_participant_none(s: Seq<(AccountId, AccountBalance)>)
    requires
        forall|j: int| 0 <= j < s.len() ==> (#[trigger] s[j]).1.locked is Vacant,
    ensures
        last_participant(s) == -1,
    decreases s.len(),
{
    if s.len() > 0 {
        assert(forall|j: int|
            0 <= j < s.len() - 1 ==> (#[trigger] s.drop_last()[j]).1.locked is Vacant);
        lemma_last_participant_none(s.drop_last());
    }
}

/// The pot of a run whose last position is vacant equals the pot without it.
proof fn lemma_locked_from_drop_last_from(s: Seq<(AccountId, AccountBalance)>, i: int)
    requires
        s.len() > 0,
        s.last().1.locked is Vacant,
        0 <= i <= s.len() - 1,
    ensures
        locked_from(s, i) == locked_from(s.drop_last(), i),
    decreases s.len() - i,
{
    if i < s.len() - 1 {
        lemma_locked_from_drop_last_from(s, i + 1);
        assert(s.drop_last()[i] == s[i]);
    } else {
        assert(locked_from(s, i) == s[i].1.locked.amount_spec() + locked_from(s, i + 1));
        assert(locked_from(s, i + 1) == 0);
        assert(locked_from(s.drop_last(), i) == 0);
    }
}

/// After the seeker pass providers are untouched and only provider
/// collateral remains locked.
pub proof fn lemma_after_seekers_sums(
    s: Seq<(AccountId, AccountBalance)>,
    t: Seq<(AccountId, AccountBalance)>,
    i: int,
)
    requires
        t.len() == s.len(),
        0 <= i <= s.len(),
        forall|j: int|
            0 <= j < s.len() ==> (#[trigger] t[j]).1 == (match s[j].1.locked {
                LockedBalance::Seeker(_) => AccountBalance {
                    unlocked: t[j].1.unlocked,
                    locked: LockedBalance::Vacant,
                },
                _ => s[j].1,
            }),
    ensures
        provider_from(t, i) == provider_from(s, i),
        locked_from(t, i) == provider_from(s, i),
    decreases s.len() - i,
{
    if i < s.len() {
        lemma_after_seekers_sums(s, t, i + 1);
    }
}

/// Settlement conserves msats, empties every position and keeps every key.
pub proof fn lemma_settle_conserves(
    s: Seq<(AccountId, AccountBalance)>,
    rate: u64,
    p0: u64,
    p1: u64,
)
    requires
        sum_total(s) <= u64::MAX,
    ensures
        settle_spec(s, rate, p0, p1).len() == s.len(),
        sum_total(settle_spec(s, rate, p0, p1)) == sum_total(s),
        forall|j: int|
            0 <= j < s.len() ==> (#[trigger] settle_spec(s, rate, p0, p1)[j]).0 == s[j].0,
        forall|j: int|
            0 <= j < s.len() ==> (#[trigger] settle_spec(s, rate, p0, p1)[j]).1.locked is Vacant,
{
    let pot = locked_from(s, 0);
    lemma_suffix_sums_nonneg(s, 0);
    lemma_locked_sides(s, 0);
    lemma_settle_seekers_props(s, 0, rate, p0, p1, pot);
    let pass1 = settle_seekers_spec(s, 0, rate, p0, p1, pot);
    lemma_after_seekers_sums(s, pass1.0, 0);
    lemma_settle_providers_props(pass1.0, 0, pass1.1, provider_from(pass1.0, 0));
    let pass2 = settle_providers_spec(pass1.0, 0, pass1.1, provider_from(pass1.0, 0));
    let lp = last_participant(s);
    lemma_last_participant(s);
    if pass2.1 > 0 {
        if lp == -1 {
            assert(pot == 0);
            assert(false);
        }
        assert(0 <= lp < s.len());
        assert(pass1.0.len() == s.len());
        assert(pass2.0.len() == s.len());
        assert(pass1.0[lp].1 == (match s[lp].1.locked {
            LockedBalance::Seeker(_) => AccountBalance {
                unlocked: pass1.0[lp].1.unlocked,
                locked: LockedBalance::Vacant,
            },
            _ => s[lp].1,
        }));
        assert(pass2.0[lp].1 == (match pass1.0[lp].1.locked {
            LockedBalance::Provider(_) => AccountBalance {
                unlocked: pass2.0[lp].1.unlocked,
                locked: LockedBalance::Vacant,
            },
            _ => pass1.0[lp].1,
        }));
        assert(pass2.0[lp].1.locked is Vacant);
        lemma_element_le_sum(pass2.0, lp);
        let nb = AccountBalance {
            unlocked: (pass2.0[lp].1.unlocked + pass2.1) as u64,
            locked: pass2.0[lp].1.locked,
        };
        crate::state::lemma_sum_total_update(pass2.0, lp, (pass2.0[lp].0, nb));
    }
}

/// The total locked msats: the settlement pot.
pub fn locked_total(accounts: &Vec<(AccountId, AccountBalance)>) -> (r: u64)
    requires
        locked_from(accounts@, 0) <= u64::MAX,
    ensures
        r as int == locked_from(accounts@, 0),
{
    let n = accounts.len();
    let mut acc: u64 = 0;
    let mut i: usize = 0;
    while i < n
        invariant
            i <= n,
            n == accounts@.len(),
            locked_from(accounts@, 0) <= u64::MAX,
            acc as int == locked_from(accounts@, 0) - locked_from(accounts@, i as int),
        decreases n - i,
    {
        proof {
            lemma_suffix_sums_nonneg(accounts@, i as int + 1);
        }
        acc = acc + accounts[i].1.locked.amount();
        i = i + 1;
    }
    acc
}

/// The total provider-locked msats.
pub fn provider_locked_total(accounts: &Vec<(AccountId, AccountBalance)>) -> (r: u64)
    requires
        provider_from(accounts@, 0) <= u64::MAX,
    ensures
        r as int == provider_from(accounts@, 0),
{
    let n = accounts.len();
    let mut acc: u64 = 0;
    let mut i: usize = 0;
    while i < n
        invariant
            i <= n,
            n == accounts@.len(),
            provider_from(accounts@, 0) <= u64::MAX,
            acc as int == provider_from(accounts@, 0) - provider_from(accounts@, i as int),
        decreases n - i,
    {
        proof {
            lemma_suffix_sums_nonneg(accounts@, i as int + 1);
        }
        match accounts[i].1.locked {
            LockedBalance::Provider(v) => {
                acc = acc + v;
            },
            _ => (),
        }
        i = i + 1;
    }
    acc
}

/// Runs the seeker pass in place; returns the leftover budget.
fn settle_seekers(
    accounts: &mut Vec<(AccountId, AccountBalance)>,
    rate: u64,
    p0: u64,
    p1: u64,
    budget0: u64,
) -> (rem: u64)
    requires
        sum_total(old(accounts)@) + budget0 <= u64::MAX + locked_from(old(accounts)@, 0),
    ensures
        final(accounts)@ == settle_seekers_spec(
            old(accounts)@,
            0,
            rate,
            p0,
            p1,
            budget0 as int,
        ).0,
        rem as int == settle_seekers_spec(old(accounts)@, 0, rate, p0, p1, budget0 as int).1,
{
    let ghost orig = accounts@;
    let n = accounts.len();
    let mut b: u64 = budget0;
    let mut i: usize = 0;
    while i < n
        invariant
            i <= n,
            n == accounts@.len(),
            settle_seekers_spec(orig, 0, rate, p0, p1, budget0 as int) == settle_seekers_spec(
                accounts@,
                i as int,
                rate,
                p0,
                p1,
                b as int,
            ),
            sum_total(accounts@) + b <= u64::MAX + locked_from(accounts@, 0),
        decreases n - i,
    {
        let bal = accounts[i].1;
        match bal.locked {
            LockedBalance::Seeker(v) => {
                proof {
                    crate::stability_core::lemma_u64_mul_fits(v, p0);
                    crate::stability_core::lemma_u64_mul_fits(rate, v);
                }
                let repriced: u128 = if p1 == 0 {
                    0
                } else {
                    (v as u128) * (p0 as u128) / (p1 as u128)
                };
                let fee: u128 = (rate as u128) * (v as u128) / 1_000_000u128;
                let pay: u64 = match repriced.checked_add(fee) {
                    Some(t) => if t <= (b as u128) {
                        t as u64
                    } else {
                        b
                    },
                    None => b,
                };
                proof {
                    assert(pay as int == seeker_pay_amt(v, rate, p0, p1, b as int));
                    lemma_seeker_pay_bounds(v, rate, p0, p1, b as int);
                    lemma_unlocked_plus_pot(accounts@, i as int);
                    assert(bal.unlocked + pay <= u64::MAX);
                }
                let acct = accounts[i].0;
                let nb = AccountBalance { unlocked: bal.unlocked + pay, locked: LockedBalance::Vacant };
                let ghost pre = accounts@;
                accounts[i] = (acct, nb);
                proof {
                    lemma_sums_update(pre, i as int, (acct, nb), 0);
                    crate::state::lemma_sum_total_update(pre, i as int, (acct, nb));
                }
                b = b - pay;
            },
            _ => (),
        }
        i = i + 1;
    }
    b
}

/// Runs the provider pass in place; returns the leftover budget.
fn settle_providers(accounts: &mut Vec<(AccountId, AccountBalance)>, budget0: u64, coll0: u64) -> (rem:
    u64)
    requires
        coll0 as int == provider_from(old(accounts)@, 0),
        sum_total(old(accounts)@) + budget0 <= u64::MAX + locked_from(old(accounts)@, 0),
    ensures
        final(accounts)@ == settle_providers_spec(
            old(accounts)@,
            0,
            budget0 as int,
            coll0 as int,
        ).0,
        rem as int == settle_providers_spec(old(accounts)@, 0, budget0 as int, coll0 as int).1,
{
    let ghost orig = accounts@;
    let n = accounts.len();
    let mut b: u64 = budget0;
    let mut coll: u64 = coll0;
    let mut i: usize = 0;
    while i < n
        invariant
            i <= n,
            n == accounts@.len(),
            settle_providers_spec(orig, 0, budget0 as int, coll0 as int) == settle_providers_spec(
                accounts@,
                i as int,
                b as int,
                coll as int,
            ),
            coll as int == provider_from(accounts@, i as int),
            sum_total(accounts@) + b <= u64::MAX + locked_from(accounts@, 0),
        decreases n - i,
    {
        let bal = accounts[i].1;
        match bal.locked {
            LockedBalance::Provider(v) => {
                proof {
                    lemma_suffix_sums_nonneg(accounts@, i as int + 1);
                    crate::stability_core::lemma_u64_mul_fits(b, v);
                }
                let pay: u64 = if coll == 0 {
                    0
                } else {
                    ((b as u128) * (v as u128) / (coll as u128)) as u64
                };
                proof {
                    if coll != 0 {
                        lemma_pro_rata(b as int, v as int, coll as int);
                    }
                    assert(pay as int == provider_pay_amt(v, b as int, coll as int));
                    lemma_unlocked_plus_pot(accounts@, i as int);
                    assert(bal.unlocked + pay <= u64::MAX);
                }
                let acct = accounts[i].0;
                let nb = AccountBalance { unlocked: bal.unlocked + pay, locked: LockedBalance::Vacant };
                let ghost pre = accounts@;
                accounts[i] = (acct, nb);
                proof {
                    lemma_sums_update(pre, i as int, (acct, nb), 0);
                    crate::state::lemma_sum_total_update(pre, i as int, (acct, nb));
                    lemma_suffix_sums_agree(accounts@, pre, i as int + 1);
                }
                b = b - pay;
                coll = coll - v;
            },
            _ => (),
        }
        i = i + 1;
    }
    b
}

/// Settles one epoch in place: the pot of locked msats is redistributed by
/// [`settle_spec`], conserving the total and emptying every position.
pub fn settle_accounts(accounts: &mut Vec<(AccountId, AccountBalance)>, rate: u64, p0: u64, p1: u64)
    requires
        sum_total(old(accounts)@) <= u64::MAX,
    ensures
        final(accounts)@ == settle_spec(old(accounts)@, rate, p0, p1),
        final(accounts)@.len() == old(accounts)@.len(),
        sum_total(final(accounts)@) == sum_total(old(accounts)@),
        forall|j: int|
            0 <= j < old(accounts)@.len() ==> (#[trigger] final(accounts)@[j]).0 == old(
                accounts,
            )@[j].0,
        forall|j: int|
            0 <= j < old(accounts)@.len() ==> (#[trigger] final(accounts)@[j]).1.locked is Vacant,
{
    let ghost orig = accounts@;
    proof {
        lemma_locked_le_sum_from(orig, 0);
        lemma_sum_from_bridge(orig, 0);
        assert(orig.take(0) =~= Seq::<(AccountId, AccountBalance)>::empty());
        lemma_suffix_sums_nonneg(orig, 0);
        lemma_locked_sides(orig, 0);
        lemma_settle_conserves(orig, rate, p0, p1);
    }
    // Find the last participant before anything is emptied.
    let n = accounts.len();
    let mut target: Option<usize> = None;
    let mut i: usize = 0;
    while i < n
        invariant
            i <= n,
            n == accounts@.len(),
            accounts@ == orig,
            match target {
                Some(t) => t < i && !(orig[t as int].1.locked is Vacant) && forall|j: int|
                    t < j < i ==> (#[trigger] orig[j]).1.locked is Vacant,
                None => forall|j: int| 0 <= j < i ==> (#[trigger] orig[j]).1.locked is Vacant,
            },
        decreases n - i,
    {
        let vacant = match accounts[i].1.locked {
            LockedBalance::Vacant => true,
            _ => false,
        };
        if !vacant {
            target = Some(i);
        }
        i = i + 1;
    }
    proof {
        match target {
            Some(t) => {
                lemma_last_participant_char(orig, t as int);
            },
            None => {
                lemma_last_participant_none(orig);
            },
        }
    }
    let pot = locked_total(accounts);
    proof {
        lemma_settle_seekers_props(orig, 0, rate, p0, p1, pot as int);
    }
    let rem1 = settle_seekers(accounts, rate, p0, p1, pot);
    let ghost pass1 = settle_seekers_spec(orig, 0, rate, p0, p1, pot as int);
    proof {
        lemma_after_seekers_sums(orig, pass1.0, 0);
        lemma_suffix_sums_nonneg(orig, 0);
    }
    let coll = provider_locked_total(accounts);
    proof {
        lemma_settle_providers_props(pass1.0, 0, rem1 as int, coll as int);
    }
    let rem2 = settle_providers(accounts, rem1, coll);
    let ghost pass2 = settle_providers_spec(pass1.0, 0, rem1 as int, coll as int);
    if rem2 > 0 {
        match target {
            Some(t) => {
                proof {
                    lemma_last_participant(orig);
                    lemma_element_le_sum(pass2.0, t as int);
                }
                let acct = accounts[t].0;
                let bal = accounts[t].1;
                let nb = AccountBalance { unlocked: bal.unlocked + rem2, locked: bal.locked };
                let ghost pre = accounts@;
                accounts[t] = (acct, nb);
                proof {
                    crate::state::lemma_sum_total_update(pre, t as int, (acct, nb));
                    assert(accounts@ =~= settle_spec(orig, rate, p0, p1));
                }
            },
            None => {
                proof {
                    lemma_last_participant(orig);
                    assert(false);
                }
            },
        }
    } else {
        proof {
            assert(accounts@ =~= settle_spec(orig, rate, p0, p1));
        }
    }
}

/// With no seeker position in the suffix, the seeker sum is zero.
pub proof fn lemma_seeker_from_zero(s: Seq<(AccountId, AccountBalance)>, i: int)
    requires
        0 <= i <= s.len(),
        forall|j: int| i <= j < s.len() ==> !((#[trigger] s[j]).1.locked is Seeker),
    ensures
        seeker_from(s, i) == 0,
    decreases s.len() - i,
{
    if i < s.len() {
        lemma_seeker_from_zero(s, i + 1);
    }
}

/// With no provider position in the suffix, the provider sum is zero.
pub proof fn lemma_provider_from_zero(s: Seq<(AccountId, AccountBalance)>, i: int)
    requires
        0 <= i <= s.len(),
        forall|j: int| i <= j < s.len() ==> !((#[trigger] s[j]).1.locked is Provider),
    ensures
        provider_from(s, i) == 0,
    decreases s.len() - i,
{
    if i < s.len() {
        lemma_provider_from_zero(s, i + 1);
    }
}

/// One seeker position is bounded by the seeker suffix sum that covers it.
pub proof fn lemma_seeker_element_le(s: Seq<(AccountId, AccountBalance)>, i: int, j: int)
    requires
        0 <= i <= j < s.len(),
    ensures
        (match s[j].1.locked {
            LockedBalance::Seeker(v) => v as int,
            _ => 0,
        }) <= seeker_from(s, i),
    decreases j - i,
{
    lemma_suffix_sums_nonneg(s, i + 1);
    if i < j {
        lemma_seeker_element_le(s, i + 1, j);
    }
}


/// What a staged seeker lock takes from its account: the requested amount
/// capped by the unlocked balance; nothing for other bodies or unknown
/// accounts.
pub open spec fn lock_take(
    orig: Seq<(AccountId, AccountBalance)>,
    entry: (AccountId, crate::action::ActionStaged),
) -> int {
    match entry.1.action.body {
        crate::action::ActionBody::Seeker(crate::action::SeekerAction::Lock { amount }) => {
            match crate::table::tbl_get(orig, entry.0) {
                Some(bal) => if amount <= bal.unlocked {
                    amount as int
                } else {
                    bal.unlocked as int
                },
                None => 0,
            }
        },
        _ => 0,
    }
}

/// Total msats the staged seeker locks take, from entry `k` on.
pub open spec fn takes_from(
    orig: Seq<(AccountId, AccountBalance)>,
    staged: Seq<(AccountId, crate::action::ActionStaged)>,
    k: int,
) -> int
    decreases staged.len() - k when k <= staged.len()
{
    if k < 0 || k >= staged.len() {
        0
    } else {
        lock_take(orig, staged[k]) + takes_from(orig, staged, k + 1)
    }
}

/// An account's balance right after its seeker lock is applied, before any
/// scale-down.
pub open spec fn pass_a_balance(bal: AccountBalance, amount: u64) -> AccountBalance {
    let take = if amount <= bal.unlocked {
        amount as int
    } else {
        bal.unlocked as int
    };
    AccountBalance {
        unlocked: (bal.unlocked - take) as u64,
        locked: if take > 0 {
            LockedBalance::Seeker(take as u64)
        } else {
            LockedBalance::Vacant
        },
    }
}

/// An account's balance after promotion of its seeker lock: the take,
/// scaled down by accepted supply over demand when the provider supply
/// fell short, moves from unlocked into a seeker position.
pub open spec fn promoted_lock_balance(
    bal: AccountBalance,
    amount: u64,
    supply: int,
    demand: int,
) -> AccountBalance {
    let take = if amount <= bal.unlocked {
        amount as int
    } else {
        bal.unlocked as int
    };
    let locked_amt = if supply >= demand {
        take
    } else {
        (take * supply) / demand
    };
    AccountBalance {
        unlocked: (bal.unlocked - locked_amt) as u64,
        locked: if locked_amt > 0 {
            LockedBalance::Seeker(locked_amt as u64)
        } else {
            LockedBalance::Vacant
        },
    }
}

/// The provider bids collected from the staged actions, in staging order:
/// each provider bid of a known account, its offer capped by the account's
/// unlocked balance.
pub open spec fn bids_spec(
    orig: Seq<(AccountId, AccountBalance)>,
    staged: Seq<(AccountId, crate::action::ActionStaged)>,
) -> Seq<(AccountId, crate::action::ProviderBid)>
    decreases staged.len(),
{
    if staged.len() == 0 {
        Seq::empty()
    } else {
        let rest = bids_spec(orig, staged.drop_last());
        match staged.last().1.action.body {
            crate::action::ActionBody::Provider(bid) => match crate::table::tbl_get(
                orig,
                staged.last().0,
            ) {
                Some(bal) => rest.push(
                    (staged.last().0, crate::action::ProviderBid {
                        max_amount: if bid.max_amount <= bal.unlocked {
                            bid.max_amount
                        } else {
                            bal.unlocked
                        },
                        min_feerate: bid.min_feerate,
                    }),
                ),
                None => rest,
            },
            _ => rest,
        }
    }
}

/// Collecting one more staged entry extends the collected bids.
pub proof fn lemma_bids_spec_take_step(
    orig: Seq<(AccountId, AccountBalance)>,
    staged: Seq<(AccountId, crate::action::ActionStaged)>,
    k: int,
)
    requires
        0 <= k < staged.len(),
    ensures
        bids_spec(orig, staged.take(k + 1)) == (match staged[k].1.action.body {
            crate::action::ActionBody::Provider(bid) => (match crate::table::tbl_get(
                orig,
                staged[k].0,
            ) {
                Some(bal) => bids_spec(orig, staged.take(k)).push(
                    (staged[k].0, crate::action::ProviderBid {
                        max_amount: if bid.max_amount <= bal.unlocked {
                            bid.max_amount
                        } else {
                            bal.unlocked
                        },
                        min_feerate: bid.min_feerate,
                    }),
                ),
                None => bids_spec(orig, staged.take(k)),
            }),
            _ => bids_spec(orig, staged.take(k)),
        }),
{
    assert(staged.take(k + 1).drop_last() =~= staged.take(k));
    assert(staged.take(k + 1).last() == staged[k]);
}

/// The balance of a bidding provider after promotion: `a` msats of its
/// unlocked balance locked as collateral, the rest left unlocked.
pub open spec fn provider_result(bal: AccountBalance, a: u64) -> AccountBalance {
    AccountBalance {
        unlocked: (bal.unlocked - a) as u64,
        locked: if a > 0 {
            LockedBalance::Provider(a)
        } else {
            LockedBalance::Vacant
        },
    }
}

/// Promotes the staged actions into positions for the newly opened epoch.
///
/// Seeker locks move unlocked msats into a seeker position, capped by the
/// unlocked balance; unlocks are no-ops here because settlement has just
/// emptied every position. Provider bids, capped by the unlocked balance,
/// are matched against the total seeker demand; accepted collateral is
/// locked, and when supply falls short every seeker position is scaled
/// down proportionally, the residue returning to its unlocked balance.
/// Actions of unknown accounts have no effect. All staged actions are
/// consumed. Returns the clearing fee rate (capped by `max_feerate_ppm`),
/// the total seeker-locked and the total provider-locked msats.
#[verifier::rlimit(100)]
#[verifier::spinoff_prover]
pub fn promote_staged(
    accounts: &mut Vec<(AccountId, AccountBalance)>,
    staged: &mut Vec<(AccountId, crate::action::ActionStaged)>,
    cr: crate::stability_core::CollateralRatio,
    max_feerate_ppm: u64,
) -> (r: (u64, u64, u64))
    requires
        crate::table::tbl_wf(old(accounts)@),
        crate::table::tbl_wf(old(staged)@),
        forall|k: int|
            0 <= k < old(staged)@.len() ==> (#[trigger] old(staged)@[k]).1.action.account_id
                == old(staged)@[k].0,
        forall|j: int|
            0 <= j < old(accounts)@.len() ==> (#[trigger] old(accounts)@[j]).1.locked is Vacant,
        sum_total(old(accounts)@) <= u64::MAX,
        cr.numer > 0,
        cr.denom > 0,
    ensures
        crate::table::tbl_wf(final(accounts)@),
        final(staged)@.len() == 0,
        final(accounts)@.len() == old(accounts)@.len(),
        forall|j: int|
            0 <= j < old(accounts)@.len() ==> (#[trigger] final(accounts)@[j]).0 == old(
                accounts,
            )@[j].0,
        forall|j: int|
            0 <= j < old(accounts)@.len() ==> (#[trigger] final(accounts)@[j]).1.total_spec()
                == old(accounts)@[j].1.total_spec(),
        sum_total(final(accounts)@) == sum_total(old(accounts)@),
        forall|j: int|
            0 <= j < old(accounts)@.len() && !crate::table::tbl_has(
                old(staged)@,
                old(accounts)@[j].0,
            ) ==> (#[trigger] final(accounts)@[j]) == old(accounts)@[j],
        r.0 <= max_feerate_ppm,
        r.1 as int == seeker_from(final(accounts)@, 0),
        r.2 as int == provider_from(final(accounts)@, 0),
        forall|k: int|
            0 <= k < old(staged)@.len() ==> (match (#[trigger] old(staged)@[k]).1.action.body {
                crate::action::ActionBody::Seeker(
                    crate::action::SeekerAction::Lock { amount },
                ) => (match crate::table::tbl_get(old(accounts)@, old(staged)@[k].0) {
                    Some(bal) => crate::table::tbl_get(final(accounts)@, old(staged)@[k].0)
                        == Some(
                        promoted_lock_balance(
                            bal,
                            amount,
                            r.2 as int,
                            takes_from(old(accounts)@, old(staged)@, 0) * cr.denom / (
                            cr.numer as int),
                        ),
                    ),
                    None => true,
                }),
                _ => true,
            }),
        forall|k: int|
            0 <= k < old(staged)@.len() ==> (match (#[trigger] old(staged)@[k]).1.action.body {
                crate::action::ActionBody::Provider(bid) => (match crate::table::tbl_get(
                    old(accounts)@,
                    old(staged)@[k].0,
                ) {
                    Some(bal) => (match crate::table::tbl_get(
                        final(accounts)@,
                        old(staged)@[k].0,
                    ) {
                        Some(b2) => exists|a: u64|
                            a <= bid.max_amount && a <= bal.unlocked && b2 == provider_result(
                                bal,
                                a,
                            ),
                        None => false,
                    }),
                    None => true,
                }),
                _ => true,
            }),
        ({
            let bids = bids_spec(old(accounts)@, old(staged)@);
            let demand = takes_from(old(accounts)@, old(staged)@, 0) * cr.denom / (
            cr.numer as int);
            &&& r.2 as int == (if crate::stability_core::total_supply(bids) <= demand {
                crate::stability_core::total_supply(bids)
            } else {
                demand
            })
            &&& (demand == 0 ==> r.0 == 0u64)
            &&& (demand > 0 && crate::stability_core::total_supply(bids) < demand ==> r.0 == (
            if crate::stability_core::max_rate(bids) <= max_feerate_ppm {
                crate::stability_core::max_rate(bids)
            } else {
                max_feerate_ppm
            }))
            &&& (demand > 0 && crate::stability_core::total_supply(bids) >= demand ==> (exists|
                c: u64,
            |
                {
                    &&& exists|j: int|
                        0 <= j < bids.len() && (#[trigger] bids[j]).1.min_feerate == c
                    &&& crate::stability_core::supply_at(bids, c) >= demand
                    &&& forall|j: int|
                        0 <= j < bids.len() && (#[trigger] bids[j]).1.min_feerate < c
                            ==> crate::stability_core::supply_at(bids, bids[j].1.min_feerate)
                            < demand
                    &&& r.0 == (if c <= max_feerate_ppm {
                        c
                    } else {
                        max_feerate_ppm
                    })
                    &&& forall|j: int|
                        0 <= j < bids.len() && (#[trigger] bids[j]).1.min_feerate < c ==> (
                        match crate::table::tbl_get(old(accounts)@, bids[j].0) {
                            Some(bal) => crate::table::tbl_get(final(accounts)@, bids[j].0)
                                == Some(provider_result(bal, bids[j].1.max_amount)),
                            None => true,
                        })
                    &&& forall|j: int|
                        0 <= j < bids.len() && (#[trigger] bids[j]).1.min_feerate > c ==> (
                        match crate::table::tbl_get(old(accounts)@, bids[j].0) {
                            Some(bal) => crate::table::tbl_get(final(accounts)@, bids[j].0)
                                == Some(provider_result(bal, 0u64)),
                            None => true,
                        })
                }))
        }),
{
    let ghost orig = accounts@;
    let ghost staged0 = staged@;
    let ns = staged.len();
    // Collect the provider bids first, capped by each unlocked balance.
    let mut bids: Vec<(AccountId, crate::action::ProviderBid)> = Vec::new();
    let mut k: usize = 0;
    while k < ns
        invariant
            k <= ns,
            ns == staged@.len(),
            staged@ == staged0,
            accounts@ == orig,
            crate::table::tbl_wf(accounts@),
            crate::table::tbl_wf(staged0),
            forall|m: int|
                0 <= m < bids@.len() ==> crate::table::tbl_has(orig, (#[trigger] bids@[m]).0)
                    && crate::table::tbl_has(staged0, bids@[m].0) && crate::table::tbl_idx(
                    staged0,
                    bids@[m].0,
                ) < k && (match crate::table::tbl_get(staged0, bids@[m].0) {
                    Some(st) => st.action.body is Provider,
                    None => false,
                }),
            forall|m: int|
                0 <= m < bids@.len() ==> (#[trigger] bids@[m]).1.max_amount as int <= (match crate::table::tbl_get(
                    orig,
                    bids@[m].0,
                ) {
                    Some(b) => b.unlocked as int,
                    None => 0,
                }),
            crate::table::tbl_wf(bids@),
            forall|m1: int, m2: int|
                0 <= m1 < m2 < bids@.len() ==> (#[trigger] bids@[m1]).0 != (#[trigger] bids@[
                m2]).0,
            forall|k2: int|
                0 <= k2 < k ==> (match (#[trigger] staged0[k2]).1.action.body {
                    crate::action::ActionBody::Provider(bid) => (match crate::table::tbl_get(
                        orig,
                        staged0[k2].0,
                    ) {
                        Some(bal) => crate::table::tbl_get(bids@, staged0[k2].0) == Some(
                            crate::action::ProviderBid {
                                max_amount: if bid.max_amount <= bal.unlocked {
                                    bid.max_amount
                                } else {
                                    bal.unlocked
                                },
                                min_feerate: bid.min_feerate,
                            },
                        ),
                        None => true,
                    }),
                    _ => true,
                }),
            bids@ == bids_spec(orig, staged0.take(k as int)),
        decreases ns - k,
    {
        proof {
            lemma_bids_spec_take_step(orig, staged0, k as int);
        }
        let entry_account = staged[k].0;
        let body = staged[k].1.action.body;
        match body {
            crate::action::ActionBody::Provider(bid) => {
                match crate::table::tbl_find(accounts, &entry_account) {
                    Some(bal) => {
                        let eff = if bid.max_amount <= bal.unlocked {
                            bid.max_amount
                        } else {
                            bal.unlocked
                        };
                        let ghost pre_bids = bids@;
                        let ghost newbid = (entry_account, crate::action::ProviderBid {
                            max_amount: if bid.max_amount <= bal.unlocked {
                                bid.max_amount
                            } else {
                                bal.unlocked
                            },
                            min_feerate: bid.min_feerate,
                        });
                        proof {
                            crate::table::lemma_tbl_at(staged0, k as int);
                            if crate::table::tbl_has(pre_bids, entry_account) {
                                let mm = crate::table::tbl_idx(pre_bids, entry_account);
                                crate::table::lemma_tbl_at(pre_bids, mm);
                                assert(crate::table::tbl_idx(staged0, entry_account) < k);
                                assert(false);
                            }
                            crate::table::lemma_tbl_set_push(
                                pre_bids,
                                pre_bids.push(newbid),
                                newbid.0,
                                newbid.1,
                            );
                        }
                        bids.push(
                            (entry_account, crate::action::ProviderBid {
                                max_amount: eff,
                                min_feerate: bid.min_feerate,
                            }),
                        );
                    },
                    None => (),
                }
            },
            _ => (),
        }
        k = k + 1;
    }

    proof {
        assert(staged0.take(ns as int) =~= staged0);
    }
    // Apply the seeker locks.
    let ghost bids0 = bids@;
    proof {
        lemma_seeker_from_zero(orig, 0);
        lemma_provider_from_zero(orig, 0);
    }
    let mut s_tot: u64 = 0;
    let mut k: usize = 0;
    while k < ns
        invariant
            k <= ns,
            ns == staged@.len(),
            staged@ == staged0,
            crate::table::tbl_wf(staged0),
            crate::table::tbl_wf(accounts@),
            crate::table::tbl_wf(bids@),
            bids@ == bids0,
            accounts@.len() == orig.len(),
            forall|j: int| 0 <= j < orig.len() ==> (#[trigger] accounts@[j]).0 == orig[j].0,
            forall|j: int|
                0 <= j < orig.len() ==> (#[trigger] accounts@[j]).1.total_spec()
                    == orig[j].1.total_spec(),
            sum_total(accounts@) == sum_total(orig),
            sum_total(orig) <= u64::MAX,
            s_tot as int == seeker_from(accounts@, 0),
            s_tot as int == takes_from(orig, staged0, 0) - takes_from(orig, staged0, k as int),
            forall|j: int| 0 <= j < orig.len() ==> (#[trigger] orig[j]).1.locked is Vacant,
            forall|m: int|
                0 <= m < k ==> (match (#[trigger] staged0[m]).1.action.body {
                    crate::action::ActionBody::Seeker(
                        crate::action::SeekerAction::Lock { amount },
                    ) => (match crate::table::tbl_get(orig, staged0[m].0) {
                        Some(bal) => crate::table::tbl_get(accounts@, staged0[m].0) == Some(
                            pass_a_balance(bal, amount),
                        ),
                        None => true,
                    }),
                    _ => true,
                }),
            forall|m: int|
                k <= m < ns ==> crate::table::tbl_get(accounts@, (#[trigger] staged0[m]).0)
                    == crate::table::tbl_get(orig, staged0[m].0),
            forall|j: int|
                0 <= j < orig.len() ==> !((#[trigger] accounts@[j]).1.locked is Provider),
            forall|m: int|
                0 <= m < bids@.len() ==> crate::table::tbl_get(
                    accounts@,
                    (#[trigger] bids@[m]).0,
                ) == crate::table::tbl_get(orig, bids@[m].0),
            forall|m: int|
                0 <= m < bids@.len() ==> crate::table::tbl_has(orig, (#[trigger] bids@[m]).0)
                    && (match crate::table::tbl_get(staged0, bids@[m].0) {
                    Some(st) => st.action.body is Provider,
                    None => false,
                }),
            forall|j: int|
                0 <= j < orig.len() && !crate::table::tbl_has(staged0, orig[j].0) ==> (
                #[trigger] accounts@[j]) == orig[j],
        decreases ns - k,
    {
        let entry_account = staged[k].0;
        let body = staged[k].1.action.body;
        match body {
            crate::action::ActionBody::Seeker(crate::action::SeekerAction::Lock { amount }) => {
                let found = match crate::table::tbl_find(accounts, &entry_account) {
                    Some(b) => Some(*b),
                    None => None,
                };
                match found {
                    Some(bal) => {
                        match bal.locked {
                            LockedBalance::Vacant => {
                                let take = if amount <= bal.unlocked {
                                    amount
                                } else {
                                    bal.unlocked
                                };
                                if take > 0 {
                                    let nb = AccountBalance {
                                        unlocked: bal.unlocked - take,
                                        locked: LockedBalance::Seeker(take),
                                    };
                                    let ghost pre = accounts@;
                                    proof {
                                        let i = crate::table::tbl_idx(pre, entry_account);
                                        crate::table::lemma_tbl_at(pre, i);
                                        lemma_sums_update(pre, i, (entry_account, nb), 0);
                                        crate::state::lemma_sum_total_update(
                                            pre,
                                            i,
                                            (entry_account, nb),
                                        );
                                        lemma_suffix_sums_nonneg(pre, 0);
                                        lemma_locked_le_sum_from(pre, 0);
                                        lemma_sum_from_bridge(pre, 0);
                                        assert(pre.take(0) =~= Seq::<
                                            (AccountId, AccountBalance),
                                        >::empty());
                                        lemma_locked_sides(pre, 0);
                                    }
                                    crate::table::tbl_set(accounts, entry_account, nb);
                                    proof {
                                        crate::table::lemma_tbl_at(staged0, k as int);
                                        assert forall|m2: int|
                                            0 <= m2 < bids0.len() implies crate::table::tbl_get(
                                            accounts@,
                                            (#[trigger] bids0[m2]).0,
                                        ) == crate::table::tbl_get(orig, bids0[m2].0) by {
                                            assert(bids0[m2].0 != entry_account);
                                        }
                                        assert forall|m2: int|
                                            0 <= m2 < ns && m2 != k as int implies (
                                        #[trigger] staged0[m2]).0 != entry_account by {
                                            if m2 < k as int {
                                                assert(staged0[m2].0 != staged0[k as int].0);
                                            } else {
                                                assert(staged0[k as int].0 != staged0[m2].0);
                                            }
                                        }
                                        assert(crate::table::tbl_get(accounts@, entry_account)
                                            == Some(nb));
                                        assert(nb == pass_a_balance(bal, amount));
                                        lemma_suffix_sums_nonneg(accounts@, 0);
                                        lemma_locked_sides(accounts@, 0);
                                        lemma_locked_le_sum_from(accounts@, 0);
                                        lemma_sum_from_bridge(accounts@, 0);
                                        assert(accounts@.take(0) =~= Seq::<
                                            (AccountId, AccountBalance),
                                        >::empty());
                                    }
                                    s_tot = s_tot + take;
                                }
                            },
                            _ => (),
                        }
                    },
                    None => (),
                }
            },
            _ => (),
        }
        k = k + 1;
    }
    // Match the collateral demand against the bids.
    proof {
        crate::stability_core::lemma_u64_mul_fits(s_tot, cr.denom);
    }
    let demand: u128 = (s_tot as u128) * (cr.denom as u128) / (cr.numer as u128);
    let outcome = crate::stability_core::match_bids(demand, &bids, max_feerate_ppm);
    let ghost after_locks = accounts@;
    proof {
        lemma_provider_from_zero(after_locks, 0);
    }
    // Lock the accepted provider collateral.
    let nb_count = bids.len();
    let mut p_tot: u64 = 0;
    let mut m: usize = 0;
    while m < nb_count
        invariant
            m <= nb_count,
            nb_count == bids@.len(),
            bids@ == bids0,
            outcome.alloc@.len() == bids@.len(),
            forall|j: int|
                0 <= j < bids@.len() ==> (#[trigger] outcome.alloc@[j]) <= bids@[j].1.max_amount,
            crate::table::tbl_wf(accounts@),
            crate::table::tbl_wf(bids@),
            accounts@.len() == orig.len(),
            forall|j: int| 0 <= j < orig.len() ==> (#[trigger] accounts@[j]).0 == orig[j].0,
            forall|j: int|
                0 <= j < orig.len() ==> (#[trigger] accounts@[j]).1.total_spec()
                    == orig[j].1.total_spec(),
            sum_total(accounts@) == sum_total(orig),
            sum_total(orig) <= u64::MAX,
            s_tot as int == seeker_from(accounts@, 0),
            p_tot as int == provider_from(accounts@, 0),
            forall|m2: int|
                m <= m2 < bids@.len() ==> crate::table::tbl_get(
                    accounts@,
                    (#[trigger] bids@[m2]).0,
                ) == crate::table::tbl_get(orig, bids@[m2].0),
            forall|m2: int|
                0 <= m2 < bids@.len() ==> crate::table::tbl_has(orig, (#[trigger] bids@[m2]).0)
                    && crate::table::tbl_has(staged0, bids@[m2].0) && (match crate::table::tbl_get(
                    staged0,
                    bids@[m2].0,
                ) {
                    Some(st) => st.action.body is Provider,
                    None => false,
                }),
            forall|j: int| 0 <= j < orig.len() ==> (#[trigger] orig[j]).1.locked is Vacant,
            forall|m2: int|
                0 <= m2 < m ==> (match crate::table::tbl_get(orig, (#[trigger] bids@[m2]).0) {
                    Some(bal) => crate::table::tbl_get(accounts@, bids@[m2].0) == Some(
                        provider_result(bal, outcome.alloc@[m2]),
                    ),
                    None => true,
                }),
            p_tot as int == crate::stability_core::alloc_sum(outcome.alloc@.take(m as int)),
            forall|m2: int|
                0 <= m2 < bids@.len() ==> (#[trigger] bids@[m2]).1.max_amount as int
                    <= (match crate::table::tbl_get(orig, bids@[m2].0) {
                    Some(b) => b.unlocked as int,
                    None => 0,
                }),
            forall|j: int|
                0 <= j < orig.len() && !crate::table::tbl_has(staged0, orig[j].0) ==> (
                #[trigger] accounts@[j]) == orig[j],
            ns == staged0.len(),
            crate::table::tbl_wf(staged0),
            forall|m2: int|
                0 <= m2 < ns ==> (match (#[trigger] staged0[m2]).1.action.body {
                    crate::action::ActionBody::Seeker(
                        crate::action::SeekerAction::Lock { amount },
                    ) => (match crate::table::tbl_get(orig, staged0[m2].0) {
                        Some(bal) => crate::table::tbl_get(accounts@, staged0[m2].0) == Some(
                            pass_a_balance(bal, amount),
                        ),
                        None => true,
                    }),
                    _ => true,
                }),
        decreases nb_count - m,
    {
        proof {
            crate::stability_core::lemma_alloc_sum_take_step(outcome.alloc@, m as int);
        }
        let give = outcome.alloc[m];
        if give > 0 {
            let bid_account = bids[m].0;
            let found = match crate::table::tbl_find(accounts, &bid_account) {
                Some(b) => Some(*b),
                None => None,
            };
            match found {
                Some(bal) => {
                    let nb = AccountBalance {
                        unlocked: bal.unlocked - give,
                        locked: LockedBalance::Provider(give),
                    };
                    let ghost pre = accounts@;
                    proof {
                        let i = crate::table::tbl_idx(pre, bid_account);
                        crate::table::lemma_tbl_at(pre, i);
                        assert(pre[i].1 == bal);
                        assert(nb.total_spec() == bal.total_spec());
                        lemma_sums_update(pre, i, (bid_account, nb), 0);
                        crate::state::lemma_sum_total_update(pre, i, (bid_account, nb));
                        lemma_suffix_sums_nonneg(pre, 0);
                        lemma_locked_le_sum_from(pre, 0);
                        lemma_sum_from_bridge(pre, 0);
                        assert(pre.take(0) =~= Seq::<(AccountId, AccountBalance)>::empty());
                        lemma_locked_sides(pre, 0);
                    }
                    crate::table::tbl_set(accounts, bid_account, nb);
                    proof {
                        assert forall|m2: int|
                            m + 1 <= m2 < bids0.len() implies crate::table::tbl_get(
                            accounts@,
                            (#[trigger] bids0[m2]).0,
                        ) == crate::table::tbl_get(orig, bids0[m2].0) by {
                            assert(bids0[m2].0 != bids0[m as int].0);
                        }
                        assert forall|m2: int|
                            0 <= m2 < ns && (#[trigger] staged0[m2]).1.action.body matches
                                crate::action::ActionBody::Seeker(
                                crate::action::SeekerAction::Lock { .. },
                            ) implies staged0[m2].0 != bid_account by {
                            if staged0[m2].0 == bid_account {
                                crate::table::lemma_tbl_at(staged0, m2);
                            }
                        }
                        assert(crate::table::tbl_get(accounts@, bid_account) == Some(
                            provider_result(bal, give),
                        ));
                        assert forall|m2: int|
                            0 <= m2 < m implies crate::table::tbl_get(
                            accounts@,
                            (#[trigger] bids0[m2]).0,
                        ) == crate::table::tbl_get(pre, bids0[m2].0) by {
                            assert(bids0[m2].0 != bids0[m as int].0);
                        }
                        lemma_suffix_sums_nonneg(accounts@, 0);
                        lemma_locked_sides(accounts@, 0);
                        lemma_locked_le_sum_from(accounts@, 0);
                        lemma_sum_from_bridge(accounts@, 0);
                        assert(accounts@.take(0) =~= Seq::<(AccountId, AccountBalance)>::empty());
                    }
                    p_tot = p_tot + give;
                },
                None => {
                    proof {
                        assert(false);
                    }
                },
            }
        }
        m = m + 1;
    }
    proof {
        assert(outcome.alloc@.take(nb_count as int) =~= outcome.alloc@);
    }
    // Scale the seeker positions down when supply fell short of demand.
    if (p_tot as u128) < demand {
        let mut k2: usize = 0;
        while k2 < ns
            invariant
                k2 <= ns,
                ns == staged@.len(),
                staged@ == staged0,
                crate::table::tbl_wf(staged0),
                crate::table::tbl_wf(accounts@),
                demand > 0,
                (p_tot as u128) < demand,
                accounts@.len() == orig.len(),
                forall|j: int| 0 <= j < orig.len() ==> (#[trigger] accounts@[j]).0 == orig[j].0,
                forall|j: int|
                    0 <= j < orig.len() ==> (#[trigger] accounts@[j]).1.total_spec()
                        == orig[j].1.total_spec(),
                sum_total(accounts@) == sum_total(orig),
                sum_total(orig) <= u64::MAX,
                s_tot as int == seeker_from(accounts@, 0),
                p_tot as int == provider_from(accounts@, 0),
                forall|j: int|
                    0 <= j < orig.len() && !crate::table::tbl_has(staged0, orig[j].0) ==> (
                    #[trigger] accounts@[j]) == orig[j],
                forall|j: int| 0 <= j < orig.len() ==> (#[trigger] orig[j]).1.locked is Vacant,
                demand as int == takes_from(orig, staged0, 0) * cr.denom / (cr.numer as int),
                outcome.alloc@.len() == bids0.len(),
                forall|m2: int|
                    0 <= m2 < bids0.len() ==> (match crate::table::tbl_get(
                        orig,
                        (#[trigger] bids0[m2]).0,
                    ) {
                        Some(bal) => crate::table::tbl_get(accounts@, bids0[m2].0) == Some(
                            provider_result(bal, outcome.alloc@[m2]),
                        ),
                        None => true,
                    }),
                forall|m2: int|
                    0 <= m2 < bids0.len() ==> (match crate::table::tbl_get(
                        staged0,
                        (#[trigger] bids0[m2]).0,
                    ) {
                        Some(st) => st.action.body is Provider,
                        None => false,
                    }),
                forall|m2: int|
                    0 <= m2 < ns ==> (match (#[trigger] staged0[m2]).1.action.body {
                        crate::action::ActionBody::Seeker(
                            crate::action::SeekerAction::Lock { amount },
                        ) => (match crate::table::tbl_get(orig, staged0[m2].0) {
                            Some(bal) => crate::table::tbl_get(accounts@, staged0[m2].0) == Some(
                                if m2 < k2 {
                                    promoted_lock_balance(
                                        bal,
                                        amount,
                                        p_tot as int,
                                        demand as int,
                                    )
                                } else {
                                    pass_a_balance(bal, amount)
                                },
                            ),
                            None => true,
                        }),
                        _ => true,
                    }),
            decreases ns - k2,
        {
            let entry_account = staged[k2].0;
            let body = staged[k2].1.action.body;
            match body {
                crate::action::ActionBody::Seeker(crate::action::SeekerAction::Lock { .. }) => {
                    let found = match crate::table::tbl_find(accounts, &entry_account) {
                        Some(b) => Some(*b),
                        None => None,
                    };
                    match found {
                        Some(bal) => {
                            match bal.locked {
                                LockedBalance::Seeker(v) => {
                                    let ghost pre = accounts@;
                                    proof {
                                        crate::stability_core::lemma_u64_mul_fits(v, p_tot);
                                        lemma_pro_rata(v as int, p_tot as int, demand as int);
                                        let i = crate::table::tbl_idx(pre, entry_account);
                                        crate::table::lemma_tbl_at(pre, i);
                                        lemma_element_le_sum(pre, i);
                                        lemma_seeker_element_le(pre, 0, i);
                                    }
                                    let scaled: u64 = ((v as u128) * (p_tot as u128)
                                        / demand) as u64;
                                    let back = v - scaled;
                                    let nb = AccountBalance {
                                        unlocked: bal.unlocked + back,
                                        locked: if scaled > 0 {
                                            LockedBalance::Seeker(scaled)
                                        } else {
                                            LockedBalance::Vacant
                                        },
                                    };
                                    proof {
                                        let i = crate::table::tbl_idx(pre, entry_account);
                                        lemma_sums_update(pre, i, (entry_account, nb), 0);
                                        crate::state::lemma_sum_total_update(
                                            pre,
                                            i,
                                            (entry_account, nb),
                                        );
                                    }
                                    crate::table::tbl_set(accounts, entry_account, nb);
                                    proof {
                                        crate::table::lemma_tbl_at(staged0, k2 as int);
                                        assert forall|m2: int|
                                            0 <= m2 < ns && m2 != k2 as int implies (
                                        #[trigger] staged0[m2]).0 != entry_account by {
                                            if m2 < k2 as int {
                                                assert(staged0[m2].0 != staged0[k2 as int].0);
                                            } else {
                                                assert(staged0[k2 as int].0 != staged0[m2].0);
                                            }
                                        }
                                        assert(crate::table::tbl_get(accounts@, entry_account)
                                            == Some(nb));
                                        assert forall|m2: int|
                                            0 <= m2 < bids0.len() implies (#[trigger] bids0[
                                        m2]).0 != entry_account by {
                                            if bids0[m2].0 == entry_account {
                                                let kk = crate::table::tbl_idx(
                                                    staged0,
                                                    entry_account,
                                                );
                                                assert(kk == k2 as int);
                                            }
                                        }
                                        assert forall|m2: int|
                                            0 <= m2 < ns implies (match (#[trigger] staged0[
                                        m2]).1.action.body {
                                            crate::action::ActionBody::Seeker(
                                                crate::action::SeekerAction::Lock { amount },
                                            ) => (match crate::table::tbl_get(
                                                orig,
                                                staged0[m2].0,
                                            ) {
                                                Some(bal0) => crate::table::tbl_get(
                                                    accounts@,
                                                    staged0[m2].0,
                                                ) == Some(
                                                    if m2 < k2 as int + 1 {
                                                        promoted_lock_balance(
                                                            bal0,
                                                            amount,
                                                            p_tot as int,
                                                            demand as int,
                                                        )
                                                    } else {
                                                        pass_a_balance(bal0, amount)
                                                    },
                                                ),
                                                None => true,
                                            }),
                                            _ => true,
                                        }) by {
                                            if m2 == k2 as int {
                                                match staged0[m2].1.action.body {
                                                    crate::action::ActionBody::Seeker(
                                                        crate::action::SeekerAction::Lock {
                                                            amount,
                                                        },
                                                    ) => {
                                                        match crate::table::tbl_get(
                                                            orig,
                                                            staged0[m2].0,
                                                        ) {
                                                            Some(bal0) => {
                                                                assert(bal == pass_a_balance(
                                                                    bal0,
                                                                    amount,
                                                                ));
                                                                assert(nb
                                                                    == promoted_lock_balance(
                                                                    bal0,
                                                                    amount,
                                                                    p_tot as int,
                                                                    demand as int,
                                                                ));
                                                            },
                                                            None => {},
                                                        }
                                                    },
                                                    _ => {},
                                                }
                                            } else {
                                                assert(crate::table::tbl_get(
                                                    accounts@,
                                                    staged0[m2].0,
                                                ) == crate::table::tbl_get(pre, staged0[m2].0));
                                            }
                                        }
                                    }
                                    s_tot = s_tot - back;
                                },
                                _ => {
                                    proof {
                                        // A lock that took nothing scales to nothing.
                                        crate::stability_core::lemma_div_le(0int, demand as int);
                                        crate::table::lemma_tbl_at(staged0, k2 as int);
                                        match staged0[k2 as int].1.action.body {
                                            crate::action::ActionBody::Seeker(
                                                crate::action::SeekerAction::Lock { amount },
                                            ) => {
                                                match crate::table::tbl_get(
                                                    orig,
                                                    staged0[k2 as int].0,
                                                ) {
                                                    Some(bal0) => {
                                                        assert(bal == pass_a_balance(
                                                            bal0,
                                                            amount,
                                                        ));
                                                        assert(bal.locked is Vacant);
                                                        let take_g: int = if amount
                                                            <= bal0.unlocked {
                                                            amount as int
                                                        } else {
                                                            bal0.unlocked as int
                                                        };
                                                        assert(take_g == 0);
                                                        assert(take_g * (p_tot as int) == 0);
                                                        assert((take_g * (p_tot as int)) / (
                                                        demand as int) == 0);
                                                        assert(pass_a_balance(bal0, amount)
                                                            == promoted_lock_balance(
                                                            bal0,
                                                            amount,
                                                            p_tot as int,
                                                            demand as int,
                                                        ));
                                                    },
                                                    None => {},
                                                }
                                            },
                                            _ => {},
                                        }
                                    }
                                },
                            }
                        },
                        None => (),
                    }
                },
                _ => (),
            }
            k2 = k2 + 1;
        }
    }
    proof {
        if !((p_tot as u128) < demand) {
            assert forall|k3: int|
                0 <= k3 < staged0.len() implies (match (#[trigger] staged0[k3]).1.action.body {
                crate::action::ActionBody::Seeker(
                    crate::action::SeekerAction::Lock { amount },
                ) => (match crate::table::tbl_get(orig, staged0[k3].0) {
                    Some(bal) => crate::table::tbl_get(accounts@, staged0[k3].0) == Some(
                        promoted_lock_balance(bal, amount, p_tot as int, demand as int),
                    ),
                    None => true,
                }),
                _ => true,
            }) by {
                match staged0[k3].1.action.body {
                    crate::action::ActionBody::Seeker(
                        crate::action::SeekerAction::Lock { amount },
                    ) => {
                        match crate::table::tbl_get(orig, staged0[k3].0) {
                            Some(bal) => {
                                assert(pass_a_balance(bal, amount) == promoted_lock_balance(
                                    bal,
                                    amount,
                                    p_tot as int,
                                    demand as int,
                                ));
                            },
                            None => {},
                        }
                    },
                    _ => {},
                }
            }
        }
    }
    proof {
        assert forall|k3: int|
            0 <= k3 < staged0.len() implies (match (#[trigger] staged0[k3]).1.action.body {
            crate::action::ActionBody::Provider(bid) => (match crate::table::tbl_get(
                orig,
                staged0[k3].0,
            ) {
                Some(bal) => (match crate::table::tbl_get(accounts@, staged0[k3].0) {
                    Some(b2) => exists|a: u64|
                        a <= bid.max_amount && a <= bal.unlocked && b2 == provider_result(bal, a),
                    None => false,
                }),
                None => true,
            }),
            _ => true,
        }) by {
            match staged0[k3].1.action.body {
                crate::action::ActionBody::Provider(bid) => {
                    match crate::table::tbl_get(orig, staged0[k3].0) {
                        Some(bal) => {
                            let key = staged0[k3].0;
                            let effbid = crate::action::ProviderBid {
                                max_amount: if bid.max_amount <= bal.unlocked {
                                    bid.max_amount
                                } else {
                                    bal.unlocked
                                },
                                min_feerate: bid.min_feerate,
                            };
                            assert(crate::table::tbl_get(bids0, key) == Some(effbid));
                            let m = crate::table::tbl_idx(bids0, key);
                            crate::table::lemma_tbl_at(bids0, m);
                            let a = outcome.alloc@[m];
                            assert(crate::table::tbl_get(accounts@, key) == Some(
                                provider_result(bal, a),
                            ));
                            assert(a <= bids0[m].1.max_amount);
                            assert(a <= bid.max_amount && a <= bal.unlocked && provider_result(
                                bal,
                                a,
                            ) == provider_result(bal, a));
                        },
                        None => {},
                    }
                },
                _ => {},
            }
        }
    }
    proof {
        let demand_i = takes_from(orig, staged0, 0) * cr.denom / (cr.numer as int);
        if demand_i > 0 && crate::stability_core::total_supply(bids0) >= demand_i {
            let c = outcome.clearing_rate;
            assert forall|j: int|
                0 <= j < bids0.len() && (#[trigger] bids0[j]).1.min_feerate != c implies (
            match crate::table::tbl_get(orig, bids0[j].0) {
                Some(bal) => crate::table::tbl_get(accounts@, bids0[j].0) == Some(
                    provider_result(
                        bal,
                        if bids0[j].1.min_feerate < c {
                            bids0[j].1.max_amount
                        } else {
                            0u64
                        },
                    ),
                ),
                None => true,
            }) by {
                match crate::table::tbl_get(orig, bids0[j].0) {
                    Some(bal) => {
                        assert(crate::table::tbl_get(accounts@, bids0[j].0) == Some(
                            provider_result(bal, outcome.alloc@[j]),
                        ));
                        if bids0[j].1.min_feerate < c {
                            assert(outcome.alloc@[j] == bids0[j].1.max_amount);
                        } else {
                            assert(outcome.alloc@[j] == 0u64);
                        }
                    },
                    None => {},
                }
            }
            assert({
                &&& exists|j: int|
                    0 <= j < bids0.len() && (#[trigger] bids0[j]).1.min_feerate == c
                &&& crate::stability_core::supply_at(bids0, c) >= demand_i
                &&& forall|j: int|
                    0 <= j < bids0.len() && (#[trigger] bids0[j]).1.min_feerate < c
                        ==> crate::stability_core::supply_at(bids0, bids0[j].1.min_feerate)
                        < demand_i
                &&& outcome.feerate_ppm == (if c <= max_feerate_ppm {
                    c
                } else {
                    max_feerate_ppm
                })
                &&& forall|j: int|
                    0 <= j < bids0.len() && (#[trigger] bids0[j]).1.min_feerate < c ==> (
                    match crate::table::tbl_get(orig, bids0[j].0) {
                        Some(bal) => crate::table::tbl_get(accounts@, bids0[j].0) == Some(
                            provider_result(bal, bids0[j].1.max_amount),
                        ),
                        None => true,
                    })
                &&& forall|j: int|
                    0 <= j < bids0.len() && (#[trigger] bids0[j]).1.min_feerate > c ==> (
                    match crate::table::tbl_get(orig, bids0[j].0) {
                        Some(bal) => crate::table::tbl_get(accounts@, bids0[j].0) == Some(
                            provider_result(bal, 0u64),
                        ),
                        None => true,
                    })
            });
        }
    }
    staged.clear();
    (outcome.feerate_ppm, s_tot, p_tot)
}

/// The price of each recorded vote, in table order.
pub open spec fn vote_prices(votes: Seq<(u64, EpochEnd)>) -> Seq<u64> {
    Seq::new(votes.len(), |i: int| votes[i].1.price)
}

/// The outcome entry recorded for the open epoch, or defaults when the
/// epoch opened at genesis with nothing matched.
pub open spec fn closing_outcome_spec(s: crate::state::PoolState) -> EpochOutcome {
    match crate::table::tbl_get(s.outcomes@, (s.last_ended + 1) as u64) {
        Some(o) => o,
        None => EpochOutcome {
            feerate: Feerate { ppm: 0u64 },
            seeker_total: 0u64,
            provider_total: 0u64,
            settled_price: None,
        },
    }
}

/// The opening price of the closing epoch: the settled price of the epoch
/// before it, or the closing price itself when no prior settlement exists.
pub open spec fn opening_price_spec(s: crate::state::PoolState, closing_price: u64) -> u64 {
    match crate::table::tbl_get(s.outcomes@, s.last_ended) {
        Some(o) => match o.settled_price {
            Some(p) => p,
            None => closing_price,
        },
        None => closing_price,
    }
}

/// The accounts after the closing epoch settles at `median`: the whole
/// settlement pipeline of [`settle_spec`] applied at the recorded fee rate
/// between the opening price and the median.
pub open spec fn settled_accounts_spec(s: crate::state::PoolState, median: u64) -> Seq<
    (AccountId, AccountBalance),
> {
    settle_spec(
        s.accounts@,
        closing_outcome_spec(s).feerate.ppm,
        opening_price_spec(s, median),
        median,
    )
}

/// How one epoch-end vote is classified at consensus time.
pub open spec fn epoch_end_outcome_spec(
    s: crate::state::PoolState,
    peer_id: u64,
    item: EpochEnd,
) -> crate::ConsensusItemOutcome {
    if s.last_ended >= crate::state::EPOCH_ID_CAP {
        crate::ConsensusItemOutcome::Ignored(crate::IgnoreReason::CounterExhausted)
    } else if (item.epoch_id as int) < s.current_spec() {
        crate::ConsensusItemOutcome::Ignored(crate::IgnoreReason::StaleEpoch)
    } else if (item.epoch_id as int) > s.current_spec() {
        crate::ConsensusItemOutcome::Banned(crate::BanReason::VoteFromFuture)
    } else if crate::table::tbl_has(s.votes@, peer_id) {
        crate::ConsensusItemOutcome::Banned(crate::BanReason::DoubleVote)
    } else {
        crate::ConsensusItemOutcome::Applied
    }
}

/// Applies one epoch-end vote at consensus time.
///
/// A vote for an already-ended epoch is ignored; a vote for an epoch that
/// has not opened yet, or a second vote from the same peer for the open
/// epoch, is a protocol violation. An applied vote is recorded, and once
/// the votes reach the configured threshold the epoch is closed: the
/// median vote settles the epoch, every position is paid out, the staged
/// actions are promoted and matched into positions for the next epoch, and
/// the epoch counters advance.
pub fn process_epoch_end(
    state: &mut crate::state::PoolState,
    cfg: &crate::config::EpochConfig,
    peer_id: u64,
    item: EpochEnd,
) -> (r: crate::ConsensusItemOutcome)
    requires
        old(state).wf(),
        sum_total(old(state).accounts@) <= u64::MAX,
        cfg.collateral_ratio.numer > 0,
        cfg.collateral_ratio.denom > 0,
    ensures
        final(state).wf(),
        r == epoch_end_outcome_spec(*old(state), peer_id, item),
        sum_total(final(state).accounts@) == sum_total(old(state).accounts@),
        final(state).deposits@ == old(state).deposits@,
        !(r is Applied) ==> final(state).unchanged_from(*old(state)),
        r is Applied && old(state).votes@.len() + 1 < cfg.price_threshold ==> {
            &&& final(state).votes@ == old(state).votes@.push((peer_id, item))
            &&& final(state).accounts@ == old(state).accounts@
            &&& final(state).outcomes@ == old(state).outcomes@
            &&& final(state).staged@ == old(state).staged@
            &&& final(state).last_ended == old(state).last_ended
            &&& final(state).last_settled == old(state).last_settled
        },
        r is Applied && old(state).votes@.len() + 1 >= cfg.price_threshold ==> ({
            let median = median_spec(vote_prices(old(state).votes@).push(item.price));
            let settled = settled_accounts_spec(*old(state), median);
            let demand = takes_from(settled, old(state).staged@, 0) * cfg.collateral_ratio.denom
                / (cfg.collateral_ratio.numer as int);
            let supply = provider_from(final(state).accounts@, 0);
            let bids = bids_spec(settled, old(state).staged@);
            &&& final(state).last_ended as int == old(state).current_spec()
            &&& final(state).last_settled == final(state).last_ended
            &&& final(state).votes@.len() == 0
            &&& final(state).staged@.len() == 0
            &&& final(state).accounts@.len() == old(state).accounts@.len()
            &&& forall|j: int|
                0 <= j < old(state).accounts@.len() ==> (#[trigger] final(state).accounts@[j]).0
                    == old(state).accounts@[j].0
            &&& forall|j: int|
                0 <= j < old(state).accounts@.len() ==> (#[trigger] final(state).accounts@[
                j]).1.total_spec() == settled[j].1.total_spec()
            &&& forall|j: int|
                0 <= j < old(state).accounts@.len() && !crate::table::tbl_has(
                    old(state).staged@,
                    old(state).accounts@[j].0,
                ) ==> (#[trigger] final(state).accounts@[j]) == settled[j]
            &&& forall|k: int|
                0 <= k < old(state).staged@.len() ==> (match (#[trigger] old(state).staged@[
                k]).1.action.body {
                    crate::action::ActionBody::Seeker(
                        crate::action::SeekerAction::Lock { amount },
                    ) => (match crate::table::tbl_get(settled, old(state).staged@[k].0) {
                        Some(sb) => crate::table::tbl_get(
                            final(state).accounts@,
                            old(state).staged@[k].0,
                        ) == Some(promoted_lock_balance(sb, amount, supply, demand)),
                        None => true,
                    }),
                    _ => true,
                })
            &&& forall|k: int|
                0 <= k < old(state).staged@.len() ==> (match (#[trigger] old(state).staged@[
                k]).1.action.body {
                    crate::action::ActionBody::Provider(bid) => (match crate::table::tbl_get(
                        settled,
                        old(state).staged@[k].0,
                    ) {
                        Some(sb) => (match crate::table::tbl_get(
                            final(state).accounts@,
                            old(state).staged@[k].0,
                        ) {
                            Some(b2) => exists|a: u64|
                                a <= bid.max_amount && a <= sb.unlocked && b2 == provider_result(
                                    sb,
                                    a,
                                ),
                            None => false,
                        }),
                        None => true,
                    }),
                    _ => true,
                })
            &&& supply == (if crate::stability_core::total_supply(bids) <= demand {
                crate::stability_core::total_supply(bids)
            } else {
                demand
            })
            &&& (match crate::table::tbl_get(
                final(state).outcomes@,
                (old(state).last_ended + 2) as u64,
            ) {
                Some(o2) => {
                    &&& o2.seeker_total as int == seeker_from(final(state).accounts@, 0)
                    &&& o2.provider_total as int == provider_from(final(state).accounts@, 0)
                    &&& o2.settled_price is None
                    &&& o2.feerate.ppm <= cfg.max_feerate_ppm
                    &&& (demand == 0 ==> o2.feerate.ppm == 0u64)
                    &&& (demand > 0 && crate::stability_core::total_supply(bids) < demand
                        ==> o2.feerate.ppm == (if crate::stability_core::max_rate(bids)
                            <= cfg.max_feerate_ppm {
                        crate::stability_core::max_rate(bids)
                    } else {
                        cfg.max_feerate_ppm
                    }))
                    &&& (demand > 0 && crate::stability_core::total_supply(bids) >= demand ==> (
                    exists|c: u64|
                        {
                            &&& exists|j: int|
                                0 <= j < bids.len() && (#[trigger] bids[j]).1.min_feerate == c
                            &&& crate::stability_core::supply_at(bids, c) >= demand
                            &&& forall|j: int|
                                0 <= j < bids.len() && (#[trigger] bids[j]).1.min_feerate < c
                                    ==> crate::stability_core::supply_at(
                                    bids,
                                    bids[j].1.min_feerate,
                                ) < demand
                            &&& o2.feerate.ppm == (if c <= cfg.max_feerate_ppm {
                                c
                            } else {
                                cfg.max_feerate_ppm
                            })
                            &&& forall|j: int|
                                0 <= j < bids.len() && (#[trigger] bids[j]).1.min_feerate < c
                                    ==> (match crate::table::tbl_get(settled, bids[j].0) {
                                    Some(sb) => crate::table::tbl_get(
                                        final(state).accounts@,
                                        bids[j].0,
                                    ) == Some(provider_result(sb, bids[j].1.max_amount)),
                                    None => true,
                                })
                            &&& forall|j: int|
                                0 <= j < bids.len() && (#[trigger] bids[j]).1.min_feerate > c
                                    ==> (match crate::table::tbl_get(settled, bids[j].0) {
                                    Some(sb) => crate::table::tbl_get(
                                        final(state).accounts@,
                                        bids[j].0,
                                    ) == Some(provider_result(sb, 0u64)),
                                    None => true,
                                })
                        }))
                },
                None => false,
            })
            &&& (match crate::table::tbl_get(
                final(state).outcomes@,
                (old(state).last_ended + 1) as u64,
            ) {
                Some(o) => o == (match crate::table::tbl_get(
                    old(state).outcomes@,
                    (old(state).last_ended + 1) as u64,
                ) {
                    Some(open_outcome) => EpochOutcome {
                        feerate: open_outcome.feerate,
                        seeker_total: open_outcome.seeker_total,
                        provider_total: open_outcome.provider_total,
                        settled_price: Some(
                            median_spec(vote_prices(old(state).votes@).push(item.price)),
                        ),
                    },
                    None => EpochOutcome {
                        feerate: Feerate { ppm: 0u64 },
                        seeker_total: 0u64,
                        provider_total: 0u64,
                        settled_price: Some(
                            median_spec(vote_prices(old(state).votes@).push(item.price)),
                        ),
                    },
                }),
                None => false,
            })
            &&& crate::table::tbl_has(
                final(state).outcomes@,
                (old(state).last_ended + 2) as u64,
            )
        }),
{
    if state.last_ended >= crate::state::EPOCH_ID_CAP {
        return crate::ConsensusItemOutcome::Ignored(crate::IgnoreReason::CounterExhausted);
    }
    let current = state.last_ended + 1;
    if item.epoch_id < current {
        return crate::ConsensusItemOutcome::Ignored(crate::IgnoreReason::StaleEpoch);
    }
    if item.epoch_id > current {
        return crate::ConsensusItemOutcome::Banned(crate::BanReason::VoteFromFuture);
    }
    if crate::table::tbl_contains(&state.votes, &peer_id) {
        return crate::ConsensusItemOutcome::Banned(crate::BanReason::DoubleVote);
    }
    let ghost votes0 = state.votes@;
    crate::table::tbl_set(&mut state.votes, peer_id, item);
    proof {
        assert(state.votes@ == votes0.push((peer_id, item)));
        assert forall|i: int| 0 <= i < state.votes@.len() implies (#[trigger] state.votes@[
        i]).1.epoch_id == state.last_ended + 1 by {
            if i < votes0.len() {
                assert(state.votes@[i] == votes0[i]);
            }
        }
    }
    let cnt = state.votes.len();
    let th = cfg.price_threshold as usize;
    if th > cnt {
        return crate::ConsensusItemOutcome::Applied;
    }
    // Threshold reached: settle the open epoch at the median voted price.
    let nv = state.votes.len();
    let mut prices: Vec<u64> = Vec::new();
    let mut i: usize = 0;
    while i < nv
        invariant
            i <= nv,
            nv == state.votes@.len(),
            prices@.len() == i,
            forall|j: int| 0 <= j < i ==> (#[trigger] prices@[j]) == state.votes@[j].1.price,
        decreases nv - i,
    {
        prices.push(state.votes[i].1.price);
        i = i + 1;
    }
    proof {
        assert(prices@ =~= vote_prices(state.votes@));
        assert(vote_prices(state.votes@) =~= vote_prices(votes0).push(item.price));
    }
    let price = median_of(&prices);
    let p0 = match crate::table::tbl_find(&state.outcomes, &state.last_ended) {
        Some(o) => match o.settled_price {
            Some(p) => p,
            None => price,
        },
        None => price,
    };
    let closing = match crate::table::tbl_find(&state.outcomes, &current) {
        Some(o) => *o,
        None => EpochOutcome {
            feerate: Feerate { ppm: 0 },
            seeker_total: 0,
            provider_total: 0,
            settled_price: None,
        },
    };
    settle_accounts(&mut state.accounts, closing.feerate.ppm, p0, price);
    crate::table::tbl_set(
        &mut state.outcomes,
        current,
        EpochOutcome {
            feerate: closing.feerate,
            seeker_total: closing.seeker_total,
            provider_total: closing.provider_total,
            settled_price: Some(price),
        },
    );
    proof {
        assert(crate::table::tbl_wf(state.accounts@)) by {
            assert forall|a: int, b: int|
                0 <= a < b < state.accounts@.len() implies (#[trigger] state.accounts@[a]).0 != (
                #[trigger] state.accounts@[b]).0 by {
                assert(state.accounts@[a].0 == old(state).accounts@[a].0);
                assert(state.accounts@[b].0 == old(state).accounts@[b].0);
            }
        }
    }
    let matched = promote_staged(
        &mut state.accounts,
        &mut state.staged,
        cfg.collateral_ratio,
        cfg.max_feerate_ppm,
    );
    crate::table::tbl_set(
        &mut state.outcomes,
        current + 1,
        EpochOutcome {
            feerate: Feerate { ppm: matched.0 },
            seeker_total: matched.1,
            provider_total: matched.2,
            settled_price: None,
        },
    );
    state.last_ended = current;
    state.last_settled = current;
    state.votes.clear();
    crate::ConsensusItemOutcome::Applied
}

/// Whether the open epoch's time window has passed at wall-clock `now`.
pub open spec fn epoch_due_spec(cfg: crate::config::EpochConfig, s: crate::state::PoolState, now: u64) -> bool {
    cfg.epoch_id_for_time_spec(now) > s.current_spec()
}

/// Whether this peer should propose closing the open epoch at `now`: its
/// window has passed and the oracle backoff allows an attempt.
pub fn can_propose(
    state: &crate::state::PoolState,
    backoff: &BackOff,
    cfg: &crate::config::EpochConfig,
    now: u64,
) -> (r: bool)
    requires
        state.wf(),
        cfg.epoch_length > 0,
    ensures
        r == (epoch_due_spec(*cfg, *state, now) && now >= backoff.not_before),
{
    let due_epoch = cfg.epoch_id_for_time(now);
    let current = state.current_epoch_id();
    due_epoch > current && backoff.ready(now)
}

/// The epoch-end item this peer contributes once its window has passed and
/// the oracle has returned a price; `None` otherwise.
pub fn build_proposal(
    state: &crate::state::PoolState,
    backoff: &BackOff,
    cfg: &crate::config::EpochConfig,
    now: u64,
    price: Option<u64>,
) -> (r: Option<EpochEnd>)
    requires
        state.wf(),
        cfg.epoch_length > 0,
    ensures
        r == if epoch_due_spec(*cfg, *state, now) && now >= backoff.not_before && price is Some {
            Some(EpochEnd { epoch_id: (state.last_ended + 1) as u64, price: price->0 })
        } else {
            Option::<EpochEnd>::None
        },
{
    if can_propose(state, backoff, cfg, now) {
        match price {
            Some(p) => Some(EpochEnd { epoch_id: state.current_epoch_id(), price: p }),
            None => None,
        }
    } else {
        None
    }
}

/// Ascending order of a run of prices.
pub open spec fn sorted_run(s: Seq<u64>) -> bool {
    forall|i: int, j: int| 0 <= i < j < s.len() ==> s[i] <= s[j]
}

/// The empty run has the empty multiset of prices.
proof fn lemma_empty_to_multiset()
    ensures
        Seq::<u64>::empty().to_multiset() == Multiset::<u64>::empty(),
{
    assert forall|a: u64| Seq::<u64>::empty().to_multiset().count(a) == 0 by {
        vstd::seq_lib::to_multiset_contains(Seq::<u64>::empty(), a);
    }
    assert(Seq::<u64>::empty().to_multiset() =~= Multiset::<u64>::empty());
}

/// Every price of an insertion result respects a lower bound respected by
/// the inserted price and the run.
proof fn lemma_insert_sorted_lower_bound(x: u64, s: Seq<u64>, b: u64)
    requires
        x >= b,
        forall|i: int| 0 <= i < s.len() ==> s[i] >= b,
    ensures
        forall|i: int|
            0 <= i < insert_sorted(x, s).len() ==> #[trigger] insert_sorted(x, s)[i] >= b,
    decreases s.len(),
{
    lemma_insert_sorted_len(x, s);
    let r = insert_sorted(x, s);
    if s.len() == 0 {
        assert(r == seq![x]);
        assert(forall|i: int| 0 <= i < r.len() ==> #[trigger] r[i] == x);
    } else if s[0] > x {
        assert(r == seq![x] + s);
        assert forall|i: int| 0 <= i < r.len() implies #[trigger] r[i] >= b by {
            if i > 0 {
                assert(r[i] == s[i - 1]);
            }
        }
    } else {
        let d = s.drop_first();
        assert(forall|i: int| 0 <= i < d.len() ==> #[trigger] d[i] == s[i + 1]);
        lemma_insert_sorted_lower_bound(x, d, b);
        let inner = insert_sorted(x, d);
        assert(r == seq![s[0]] + inner);
        assert forall|i: int| 0 <= i < r.len() implies #[trigger] r[i] >= b by {
            if i > 0 {
                assert(r[i] == inner[i - 1]);
            }
        }
    }
}

/// Insertion keeps a run sorted and adds exactly the inserted price.
pub proof fn lemma_insert_sorted_props(x: u64, s: Seq<u64>)
    requires
        sorted_run(s),
    ensures
        sorted_run(insert_sorted(x, s)),
        insert_sorted(x, s).to_multiset() == s.to_multiset().insert(x),
    decreases s.len(),
{
    lemma_insert_sorted_len(x, s);
    lemma_empty_to_multiset();
    if s.len() == 0 {
        assert(insert_sorted(x, s) =~= Seq::<u64>::empty().push(x));
        vstd::seq_lib::to_multiset_build(Seq::<u64>::empty(), x);
        assert(s =~= Seq::<u64>::empty());
        assert(insert_sorted(x, s).to_multiset() =~= s.to_multiset().insert(x));
    } else if s[0] > x {
        let r = seq![x] + s;
        assert(insert_sorted(x, s) == r);
        assert forall|i: int, j: int| 0 <= i < j < r.len() implies r[i] <= r[j] by {
            if i > 0 {
                assert(s[i - 1] <= s[j - 1]);
            } else {
                assert(r[j] == s[j - 1]);
                assert(s[0] <= s[j - 1]);
            }
        }
        vstd::seq_lib::lemma_multiset_commutative(seq![x], s);
        assert(seq![x] =~= Seq::<u64>::empty().push(x));
        vstd::seq_lib::to_multiset_build(Seq::<u64>::empty(), x);
        assert(seq![x].to_multiset() == Multiset::<u64>::empty().insert(x));
        assert(r.to_multiset() =~= s.to_multiset().insert(x));
    } else {
        let d = s.drop_first();
        assert(forall|i: int| 0 <= i < d.len() ==> #[trigger] d[i] == s[i + 1]);
        assert(sorted_run(d));
        lemma_insert_sorted_props(x, d);
        let inner = insert_sorted(x, d);
        lemma_insert_sorted_len(x, d);
        assert(forall|i: int| 0 <= i < d.len() ==> #[trigger] d[i] >= s[0]);
        lemma_insert_sorted_lower_bound(x, d, s[0]);
        let r = seq![s[0]] + inner;
        assert(insert_sorted(x, s) == r);
        assert forall|i: int, j: int| 0 <= i < j < r.len() implies r[i] <= r[j] by {
            if i > 0 {
                assert(r[i] == inner[i - 1]);
                assert(r[j] == inner[j - 1]);
                assert(inner[i - 1] <= inner[j - 1]);
            } else {
                assert(r[j] == inner[j - 1]);
                assert(inner[j - 1] >= s[0]);
            }
        }
        vstd::seq_lib::lemma_multiset_commutative(seq![s[0]], inner);
        vstd::seq_lib::lemma_multiset_commutative(seq![s[0]], d);
        assert(s =~= seq![s[0]] + d);
        assert(seq![s[0]] =~= Seq::<u64>::empty().push(s[0]));
        vstd::seq_lib::to_multiset_build(Seq::<u64>::empty(), s[0]);
        assert(r.to_multiset() =~= s.to_multiset().insert(x));
    }
}

/// Sorting yields an ascending run of exactly the voted prices.
pub proof fn lemma_sort_prices_props(s: Seq<u64>)
    ensures
        sorted_run(sort_prices(s)),
        sort_prices(s).to_multiset() == s.to_multiset(),
    decreases s.len(),
{
    if s.len() > 0 {
        lemma_sort_prices_props(s.drop_last());
        lemma_insert_sorted_props(s.last(), sort_prices(s.drop_last()));
        assert(s =~= s.drop_last().push(s.last()));
        vstd::seq_lib::to_multiset_build(s.drop_last(), s.last());
        assert(sort_prices(s).to_multiset() == sort_prices(s.drop_last()).to_multiset().insert(
            s.last(),
        ));
        assert(s.drop_last().push(s.last()).to_multiset() == s.drop_last().to_multiset().insert(
            s.last(),
        ));
        assert(sort_prices(s).to_multiset() == s.to_multiset());
    } else {
        assert(s =~= Seq::<u64>::empty());
        assert(sort_prices(s) == Seq::<u64>::empty());
    }
}

/// The settled price is always one of the voted prices.
pub proof fn lemma_median_is_voted(s: Seq<u64>)
    requires
        s.len() > 0,
    ensures
        s.contains(median_spec(s)),
{
    lemma_sort_prices_props(s);
    lemma_sort_prices_len(s);
    let sp = sort_prices(s);
    let m = median_spec(s);
    assert(sp.contains(m));
    vstd::seq_lib::to_multiset_contains(sp, m);
    vstd::seq_lib::to_multiset_contains(s, m);
}

} // verus!
