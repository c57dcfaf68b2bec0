//! Pure arithmetic of the stability pool: fee formulas, payout formulas,
//! and the matching of seeker demand against provider bids.
//!
//! Everything here is deterministic fixed-width integer arithmetic; rounding
//! is always toward zero.

use vstd::prelude::*;
use crate::action::ProviderBid;
use crate::words::AccountId;
use crate::words::bytes32_word_le;

verus! {

/// Denominator of fee rates: rates are parts per million per epoch.
pub const FEERATE_DENOM: u64 = 1_000_000;

/// How much provider collateral backs each unit of seeker position:
/// `denom` msats of collateral for every `numer` msats of seeker value.
#[derive(Clone, Copy, Debug, PartialEq, Eq, Structural, Hash)]
pub struct CollateralRatio {
    pub numer: u64,
    pub denom: u64,
}

impl Default for CollateralRatio {
    /// One msat of collateral per msat of seeker position.
    fn default() -> (r: Self)
        ensures
            r.numer == 1u64,
            r.denom == 1u64,
    {
        CollateralRatio { numer: 1, denom: 1 }
    }
}

/// Fee owed by a seeker locking `value` msats for one epoch at `rate` ppm.
pub open spec fn seeker_fee_spec(rate: u64, value: u64) -> int {
    (rate * value) / (FEERATE_DENOM as int)
}

/// Fee earned by a provider locking `value` msats of collateral for one
/// epoch at `rate` ppm under ratio `cr`.
pub open spec fn provider_fee_spec(rate: u64, value: u64, cr: CollateralRatio) -> int {
    (rate * value * cr.denom) / (cr.numer as int) / (FEERATE_DENOM as int)
}

/// The product of two `u64`s fits in a `u128`.
pub proof fn lemma_u64_mul_fits(a: u64, b: u64)
    ensures
        a * b <= u64::MAX * u64::MAX,
        a * b <= u128::MAX,
{
    assert(a * b <= u64::MAX * u64::MAX) by (nonlinear_arith)
        requires
            a <= u64::MAX,
            b <= u64::MAX,
    ;
}

/// The product of two `u128`s bounded by `u64::MAX` fits in a `u128`.
pub proof fn lemma_small_u128_mul_fits(a: u128, b: u128)
    requires
        a <= u64::MAX,
        b <= u64::MAX,
    ensures
        a * b <= u64::MAX * u64::MAX,
        a * b <= u128::MAX,
{
    assert(a * b <= u64::MAX * u64::MAX) by (nonlinear_arith)
        requires
            a <= u64::MAX,
            b <= u64::MAX,
    ;
}

/// Integer division by a positive divisor does not increase a value.
pub proof fn lemma_div_le(a: int, b: int)
    requires
        a >= 0,
        b >= 1,
    ensures
        a / b <= a,
        a / b >= 0,
{
    assert(a / b <= a && a / b >= 0) by (nonlinear_arith)
        requires
            a >= 0,
            b >= 1,
    ;
}

/// Seeker fee: `rate * value / 1_000_000`, rounded toward zero.
pub fn seeker_fee(rate: u64, value: u64) -> (r: u64)
    requires
        seeker_fee_spec(rate, value) <= u64::MAX,
    ensures
        r == seeker_fee_spec(rate, value),
{
    proof {
        lemma_u64_mul_fits(rate, value);
    }
    let wide: u128 = (rate as u128) * (value as u128) / (FEERATE_DENOM as u128);
    wide as u64
}

/// Provider fee: `rate * value * cr.denom / cr.numer / 1_000_000`, rounded
/// toward zero at each division.
pub fn provider_fee(rate: u64, value: u64, cr: CollateralRatio) -> (r: u64)
    requires
        cr.numer > 0,
        rate * value * cr.denom <= u128::MAX,
        provider_fee_spec(rate, value, cr) <= u64::MAX,
    ensures
        r == provider_fee_spec(rate, value, cr),
{
    proof {
        lemma_u64_mul_fits(rate, value);
    }
    let prod: u128 = (rate as u128) * (value as u128);
    let wide: u128 = prod * (cr.denom as u128) / (cr.numer as u128) / (FEERATE_DENOM as u128);
    wide as u64
}

/// What a locked seeker position is owed at epoch close, before pot capping:
/// its value repriced from the opening price `p0` to the closing price `p1`,
/// plus the seeker fee it prepaid.
///
/// This values a single position, for clients displaying an open epoch.
/// Settlement itself pays seekers this target capped by a running budget
/// and hands providers what remains of the pot pro rata, so that the
/// pool's msats conserve exactly; paying both sides their own fee-adjusted
/// formula would create or destroy msats on rounding and on fees.
pub open spec fn seeker_target_spec(value: u64, rate: u64, p0: u64, p1: u64) -> int {
    (value * p0) / (p1 as int) + seeker_fee_spec(rate, value)
}

/// Seeker payout before pot capping, saturated into `u64`.
pub fn seeker_payout(value: u64, rate: u64, p0: u64, p1: u64, _cr: CollateralRatio) -> (r: u64)
    requires
        p1 > 0,
    ensures
        seeker_target_spec(value, rate, p0, p1) <= u64::MAX ==> r == seeker_target_spec(
            value,
            rate,
            p0,
            p1,
        ),
        seeker_target_spec(value, rate, p0, p1) > u64::MAX ==> r == u64::MAX,
{
    proof {
        lemma_u64_mul_fits(value, p0);
        lemma_u64_mul_fits(rate, value);
    }
    let repriced: u128 = (value as u128) * (p0 as u128) / (p1 as u128);
    let fee: u128 = (rate as u128) * (value as u128) / (FEERATE_DENOM as u128);
    let total: u128 = match repriced.checked_add(fee) {
        Some(t) => t,
        None => {
            return u64::MAX;
        },
    };
    if total > 0xffff_ffff_ffff_ffff {
        u64::MAX
    } else {
        total as u64
    }
}

/// The seeker value backed by `value` msats of provider collateral.
pub open spec fn backed_seeker_value_spec(value: u64, cr: CollateralRatio) -> int {
    (value * cr.numer) / (cr.denom as int)
}

/// What a locked provider position is worth at price `p1`, before pot
/// capping: its collateral, plus the provider fee, plus what the backed
/// seeker value lost by repricing (or minus what it gained), floored at 0.
///
/// Like the seeker formula, this values a single position for display;
/// at settlement providers receive the pot left after the seekers are
/// paid, split pro rata over their collateral, which conserves the pool's
/// msats exactly.
pub open spec fn provider_target_spec(value: u64, rate: u64, p0: u64, p1: u64, cr: CollateralRatio) -> int {
    let backed = backed_seeker_value_spec(value, cr);
    let repriced = (backed * p0) / (p1 as int);
    let gross = value + provider_fee_spec(rate, value, cr) + backed - repriced;
    if gross < 0 {
        0
    } else {
        gross
    }
}

/// Provider payout before pot capping, saturated into `u64`.
pub fn provider_payout(value: u64, rate: u64, p0: u64, p1: u64, cr: CollateralRatio) -> (r: u64)
    requires
        p1 > 0,
        cr.numer > 0,
        cr.denom > 0,
        rate * value * cr.denom <= u128::MAX,
        provider_fee_spec(rate, value, cr) <= u64::MAX,
        backed_seeker_value_spec(value, cr) <= u64::MAX,
    ensures
        provider_target_spec(value, rate, p0, p1, cr) <= u64::MAX ==> r == provider_target_spec(
            value,
            rate,
            p0,
            p1,
            cr,
        ),
        provider_target_spec(value, rate, p0, p1, cr) > u64::MAX ==> r == u64::MAX,
{
    let fee: u64 = provider_fee(rate, value, cr);
    proof {
        lemma_u64_mul_fits(value, cr.numer);
    }
    let backed: u128 = (value as u128) * (cr.numer as u128) / (cr.denom as u128);
    proof {
        lemma_small_u128_mul_fits(backed, p0 as u128);
    }
    let repriced: u128 = backed * (p0 as u128) / (p1 as u128);
    let credit: u128 = (value as u128) + (fee as u128) + backed;
    if credit < repriced {
        0
    } else {
        let gross: u128 = credit - repriced;
        if gross > 0xffff_ffff_ffff_ffff {
            u64::MAX
        } else {
            gross as u64
        }
    }
}

/// Total collateral offered by the bids with `min_feerate <= rate`.
pub open spec fn supply_at(bids: Seq<(AccountId, ProviderBid)>, rate: u64) -> int
    decreases bids.len(),
{
    if bids.len() == 0 {
        0
    } else {
        supply_at(bids.drop_last(), rate) + if bids.last().1.min_feerate <= rate {
            bids.last().1.max_amount as int
        } else {
            0
        }
    }
}

/// Total collateral offered by the bids with `min_feerate < rate`.
pub open spec fn supply_below(bids: Seq<(AccountId, ProviderBid)>, rate: u64) -> int
    decreases bids.len(),
{
    if bids.len() == 0 {
        0
    } else {
        supply_below(bids.drop_last(), rate) + if bids.last().1.min_feerate < rate {
            bids.last().1.max_amount as int
        } else {
            0
        }
    }
}

/// Total collateral offered by all bids.
pub open spec fn total_supply(bids: Seq<(AccountId, ProviderBid)>) -> int
    decreases bids.len(),
{
    if bids.len() == 0 {
        0
    } else {
        total_supply(bids.drop_last()) + bids.last().1.max_amount as int
    }
}

/// The largest `min_feerate` among the bids; 0 when there are none.
pub open spec fn max_rate(bids: Seq<(AccountId, ProviderBid)>) -> u64
    decreases bids.len(),
{
    if bids.len() == 0 {
        0u64
    } else if bids.last().1.min_feerate >= max_rate(bids.drop_last()) {
        bids.last().1.min_feerate
    } else {
        max_rate(bids.drop_last())
    }
}

/// Every bid's rate is at most `max_rate`, and supplies are monotone bounds.
pub proof fn lemma_supply_bounds(bids: Seq<(AccountId, ProviderBid)>, rate: u64)
    ensures
        0 <= supply_below(bids, rate),
        supply_below(bids, rate) <= supply_at(bids, rate),
        supply_at(bids, rate) <= total_supply(bids),
        rate >= max_rate(bids) ==> supply_at(bids, rate) == total_supply(bids),
    decreases bids.len(),
{
    if bids.len() > 0 {
        lemma_supply_bounds(bids.drop_last(), rate);
        lemma_max_rate_bound(bids);
    }
}

/// No bid's rate exceeds `max_rate`.
pub proof fn lemma_max_rate_bound(bids: Seq<(AccountId, ProviderBid)>)
    ensures
        forall|j: int|
            0 <= j < bids.len() ==> (#[trigger] bids[j]).1.min_feerate <= max_rate(bids),
    decreases bids.len(),
{
    if bids.len() > 0 {
        lemma_max_rate_bound(bids.drop_last());
        assert(forall|j: int|
            0 <= j < bids.len() - 1 ==> (#[trigger] bids[j]).1.min_feerate == bids.drop_last()[
        j].1.min_feerate);
    }
}

/// A product of a value up to `u64::MAX` with `u64::MAX` fits in a `u128`.
pub proof fn lemma_mul_bound(i: int)
    requires
        0 <= i <= u64::MAX,
    ensures
        i * u64::MAX <= u128::MAX,
{
    assert(i * u64::MAX <= u64::MAX * u64::MAX) by (nonlinear_arith)
        requires
            0 <= i <= u64::MAX,
    ;
}

/// An allocation bounded per bid sums to at most the total supply.
pub proof fn lemma_alloc_sum_le_total(alloc: Seq<u64>, bids: Seq<(AccountId, ProviderBid)>)
    requires
        alloc.len() == bids.len(),
        forall|j: int| 0 <= j < alloc.len() ==> #[trigger] alloc[j] <= bids[j].1.max_amount,
    ensures
        alloc_sum(alloc) <= total_supply(bids),
    decreases alloc.len(),
{
    if alloc.len() > 0 {
        assert(forall|j: int|
            0 <= j < alloc.len() - 1 ==> #[trigger] alloc.drop_last()[j] <= bids.drop_last()[
        j].1.max_amount);
        lemma_alloc_sum_le_total(alloc.drop_last(), bids.drop_last());
    }
}

/// With no bid rate below `rate`, the strict supply below `rate` is zero.
pub proof fn lemma_supply_below_zero(bids: Seq<(AccountId, ProviderBid)>, rate: u64)
    requires
        forall|j: int| 0 <= j < bids.len() ==> (#[trigger] bids[j]).1.min_feerate >= rate,
    ensures
        supply_below(bids, rate) == 0,
    decreases bids.len(),
{
    if bids.len() > 0 {
        assert(forall|j: int|
            0 <= j < bids.drop_last().len() ==> (#[trigger] bids.drop_last()[j]).1.min_feerate
                >= rate);
        lemma_supply_below_zero(bids.drop_last(), rate);
    }
}

/// When `cap` is the largest bid rate below `rate`, the strict supply below
/// `rate` equals the cumulative supply at `cap`.
pub proof fn lemma_supply_below_eq_at(bids: Seq<(AccountId, ProviderBid)>, rate: u64, cap: u64)
    requires
        cap < rate,
        forall|k: int|
            0 <= k < bids.len() && (#[trigger] bids[k]).1.min_feerate < rate
                ==> bids[k].1.min_feerate <= cap,
    ensures
        supply_below(bids, rate) == supply_at(bids, cap),
    decreases bids.len(),
{
    if bids.len() > 0 {
        assert(forall|k: int|
            0 <= k < bids.drop_last().len() && (#[trigger] bids.drop_last()[k]).1.min_feerate
                < rate ==> bids.drop_last()[k].1.min_feerate <= cap);
        lemma_supply_below_eq_at(bids.drop_last(), rate, cap);
    }
}

/// Sum of an allocation vector.
pub open spec fn alloc_sum(s: Seq<u64>) -> int
    decreases s.len(),
{
    if s.len() == 0 {
        0
    } else {
        alloc_sum(s.drop_last()) + s.last() as int
    }
}

/// Taking one more element extends the allocation sum.
pub proof fn lemma_alloc_sum_take_step(s: Seq<u64>, n: int)
    requires
        0 <= n < s.len(),
    ensures
        alloc_sum(s.take(n + 1)) == alloc_sum(s.take(n)) + s[n] as int,
{
    assert(s.take(n + 1).drop_last() =~= s.take(n));
}

/// Replacing one element changes the allocation sum by the difference.
pub proof fn lemma_alloc_sum_update(s: Seq<u64>, i: int, v: u64)
    requires
        0 <= i < s.len(),
    ensures
        alloc_sum(s.update(i, v)) == alloc_sum(s) - s[i] as int + v as int,
    decreases s.len(),
{
    let t = s.update(i, v);
    if i == s.len() - 1 {
        assert(t.drop_last() =~= s.drop_last());
    } else {
        assert(t.drop_last() =~= s.drop_last().update(i, v));
        assert(t.last() == s.last());
        lemma_alloc_sum_update(s.drop_last(), i, v);
    }
}

/// An allocation that grants exactly the bids with rate at most `rate`
/// sums to the cumulative supply at `rate`.
pub proof fn lemma_alloc_sum_matches_supply_at(
    alloc: Seq<u64>,
    bids: Seq<(AccountId, ProviderBid)>,
    rate: u64,
)
    requires
        alloc.len() == bids.len(),
        forall|j: int|
            0 <= j < alloc.len() ==> #[trigger] alloc[j] as int == if bids[j].1.min_feerate
                <= rate {
                bids[j].1.max_amount as int
            } else {
                0
            },
    ensures
        alloc_sum(alloc) == supply_at(bids, rate),
    decreases alloc.len(),
{
    if alloc.len() > 0 {
        assert(forall|j: int|
            0 <= j < alloc.drop_last().len() ==> #[trigger] alloc.drop_last()[j] as int == if bids.drop_last()[j].1.min_feerate
                <= rate {
                bids.drop_last()[j].1.max_amount as int
            } else {
                0
            });
        lemma_alloc_sum_matches_supply_at(alloc.drop_last(), bids.drop_last(), rate);
        assert(alloc.last() as int == if bids.last().1.min_feerate <= rate {
            bids.last().1.max_amount as int
        } else {
            0
        });
    }
}

/// How many bids at exactly `rate` are not processed yet.
pub open spec fn undone_ties(done: Seq<bool>, bids: Seq<(AccountId, ProviderBid)>, rate: u64) -> int
    decreases done.len(),
{
    if done.len() == 0 {
        0
    } else {
        undone_ties(done.drop_last(), bids.drop_last(), rate) + if !done.last()
            && bids.last().1.min_feerate == rate {
            1int
        } else {
            0int
        }
    }
}

/// Marking one tie as processed lowers the undone count by one.
pub proof fn lemma_undone_ties_update(
    done: Seq<bool>,
    bids: Seq<(AccountId, ProviderBid)>,
    rate: u64,
    i: int,
)
    requires
        done.len() == bids.len(),
        0 <= i < done.len(),
        !done[i],
        bids[i].1.min_feerate == rate,
    ensures
        undone_ties(done.update(i, true), bids, rate) == undone_ties(done, bids, rate) - 1,
        undone_ties(done, bids, rate) >= 1,
    decreases done.len(),
{
    let t = done.update(i, true);
    lemma_undone_ties_nonneg(done.drop_last(), bids.drop_last(), rate);
    if i == done.len() - 1 {
        assert(t.drop_last() =~= done.drop_last());
    } else {
        assert(t.drop_last() =~= done.drop_last().update(i, true));
        assert(t.last() == done.last());
        lemma_undone_ties_update(done.drop_last(), bids.drop_last(), rate, i);
    }
}

/// The undone count is never negative.
pub proof fn lemma_undone_ties_nonneg(done: Seq<bool>, bids: Seq<(AccountId, ProviderBid)>, rate: u64)
    ensures
        undone_ties(done, bids, rate) >= 0,
    decreases done.len(),
{
    if done.len() > 0 {
        lemma_undone_ties_nonneg(done.drop_last(), bids.drop_last(), rate);
    }
}

/// An unprocessed tie witnesses a positive undone count.
pub proof fn lemma_undone_ties_pos(
    done: Seq<bool>,
    bids: Seq<(AccountId, ProviderBid)>,
    rate: u64,
    i: int,
)
    requires
        done.len() == bids.len(),
        0 <= i < done.len(),
        !done[i],
        bids[i].1.min_feerate == rate,
    ensures
        undone_ties(done, bids, rate) >= 1,
    decreases done.len(),
{
    lemma_undone_ties_nonneg(done.drop_last(), bids.drop_last(), rate);
    if i < done.len() - 1 {
        lemma_undone_ties_pos(done.drop_last(), bids.drop_last(), rate, i);
    }
}

/// The deterministic precedence among bids at the clearing rate: smaller
/// `max_amount` first, then smaller account id.
pub open spec fn tie_before(a: (AccountId, ProviderBid), b: (AccountId, ProviderBid)) -> bool {
    ||| a.1.max_amount < b.1.max_amount
    ||| (a.1.max_amount == b.1.max_amount && bytes32_word_le(a.0, b.0) && a.0 != b.0)
}

/// Executable form of [`tie_before`].
fn bid_tie_before(a: &(AccountId, ProviderBid), b: &(AccountId, ProviderBid)) -> (r: bool)
    ensures
        r == tie_before(*a, *b),
{
    if a.1.max_amount != b.1.max_amount {
        a.1.max_amount < b.1.max_amount
    } else {
        a.0.le(&b.0) && !(a.0 == b.0)
    }
}

/// The result of matching seeker demand against provider bids.
pub struct MatchOutcome {
    /// The `min_feerate` of the marginal bid, before capping.
    pub clearing_rate: u64,
    /// The fee rate charged: the clearing rate capped by configuration.
    pub feerate_ppm: u64,
    /// Collateral accepted from each bid, aligned with the input bids.
    pub alloc: Vec<u64>,
}

/// Matches `demand` msats of required collateral against provider bids.
///
/// Bids cheaper than the clearing rate are fully accepted; bids at the
/// clearing rate are accepted greedily in [`tie_before`] order until the
/// demand is covered; dearer bids get nothing. When all bids together
/// cannot cover the demand, everything is accepted and the clearing rate is
/// the dearest bid's rate. The rate actually charged is capped by
/// `max_feerate_ppm`.
pub fn match_bids(demand: u128, bids: &Vec<(AccountId, ProviderBid)>, max_feerate_ppm: u64) -> (r:
    MatchOutcome)
    ensures
        r.alloc@.len() == bids@.len(),
        forall|j: int| 0 <= j < bids@.len() ==> #[trigger] r.alloc@[j] <= bids@[j].1.max_amount,
        alloc_sum(r.alloc@) == if total_supply(bids@) <= demand {
            total_supply(bids@)
        } else {
            demand as int
        },
        r.feerate_ppm == if r.clearing_rate <= max_feerate_ppm {
            r.clearing_rate
        } else {
            max_feerate_ppm
        },
        demand == 0 ==> r.clearing_rate == 0 && forall|j: int|
            0 <= j < bids@.len() ==> #[trigger] r.alloc@[j] == 0,
        demand > 0 && total_supply(bids@) < demand ==> r.clearing_rate == max_rate(bids@)
            && forall|j: int|
            0 <= j < bids@.len() ==> #[trigger] r.alloc@[j] == bids@[j].1.max_amount,
        demand > 0 && total_supply(bids@) >= demand ==> {
            &&& exists|j: int|
                0 <= j < bids@.len() && (#[trigger] bids@[j]).1.min_feerate == r.clearing_rate
            &&& supply_at(bids@, r.clearing_rate) >= demand
            &&& forall|j: int|
                0 <= j < bids@.len() && (#[trigger] bids@[j]).1.min_feerate < r.clearing_rate
                    ==> supply_at(bids@, bids@[j].1.min_feerate) < demand
        },
        demand > 0 ==> forall|j: int|
            0 <= j < bids@.len() && (#[trigger] bids@[j]).1.min_feerate < r.clearing_rate
                ==> r.alloc@[j] == bids@[j].1.max_amount,
        forall|j: int|
            0 <= j < bids@.len() && (#[trigger] bids@[j]).1.min_feerate > r.clearing_rate
                ==> r.alloc@[j] == 0,
        forall|j: int, k: int|
            0 <= j < bids@.len() && 0 <= k < bids@.len() && (#[trigger] bids@[j]).1.min_feerate
                == r.clearing_rate && (#[trigger] bids@[k]).1.min_feerate == r.clearing_rate
                && tie_before(bids@[j], bids@[k]) && r.alloc@[k] > 0 ==> r.alloc@[j]
                == bids@[j].1.max_amount,
{
    let n = bids.len();
    if demand == 0 {
        let mut alloc: Vec<u64> = Vec::new();
        let mut i: usize = 0;
        while i < n
            invariant
                i <= n,
                alloc@.len() == i,
                forall|j: int| 0 <= j < i ==> #[trigger] alloc@[j] == 0,
                alloc_sum(alloc@) == 0,
            decreases n - i,
        {
            proof {
                lemma_alloc_sum_take_step(alloc@.push(0u64), i as int);
                assert(alloc@.push(0u64).take(i as int) =~= alloc@);
                assert(alloc@.push(0u64).take(i as int + 1) =~= alloc@.push(0u64));
            }
            alloc.push(0);
            i = i + 1;
        }
        proof {
            lemma_supply_bounds(bids@, 0u64);
        }
        return MatchOutcome {
            clearing_rate: 0,
            feerate_ppm: 0,
            alloc,
        };
    }
    // Total supply and the dearest bid rate.
    let mut supply: u128 = 0;
    let mut maxr: u64 = 0;
    let mut i: usize = 0;
    proof {
        assert(bids@.take(0) =~= Seq::<(AccountId, ProviderBid)>::empty());
    }
    while i < n
        invariant
            i <= n,
            n == bids@.len(),
            supply as int == total_supply(bids@.take(i as int)),
            supply as int <= (i as int) * (u64::MAX as int),
            maxr == max_rate(bids@.take(i as int)),
            i == 0 ==> maxr == 0u64,
            i > 0 ==> (exists|j: int|
                0 <= j < i && (#[trigger] bids@[j]).1.min_feerate == maxr) || maxr == 0u64,
        decreases n - i,
    {
        proof {
            lemma_total_supply_take_step(bids@, i as int);
            assert((i as int + 1) * (u64::MAX as int) == (i as int) * (u64::MAX as int) + (
            u64::MAX as int));
            lemma_mul_bound(i as int + 1);
            assert(bids@.take(i as int + 1).drop_last() =~= bids@.take(i as int));
        }
        supply = supply + (bids[i].1.max_amount as u128);
        if bids[i].1.min_feerate >= maxr {
            maxr = bids[i].1.min_feerate;
        }
        i = i + 1;
    }
    proof {
        assert(bids@.take(n as int) =~= bids@);
    }
    // The clearing rate.
    let clearing: u64;
    if supply < demand {
        clearing = maxr;
    } else {
        let mut best: Option<u64> = None;
        let mut j: usize = 0;
        while j < n
            invariant
                j <= n,
                n == bids@.len(),
                supply as int == total_supply(bids@),
                supply >= demand,
                demand > 0,
                match best {
                    Some(b) => (exists|k: int|
                        0 <= k < n && (#[trigger] bids@[k]).1.min_feerate == b) && supply_at(
                        bids@,
                        b,
                    ) >= demand && forall|k: int|
                        0 <= k < j && (#[trigger] bids@[k]).1.min_feerate < b ==> supply_at(
                            bids@,
                            bids@[k].1.min_feerate,
                        ) < demand,
                    None => forall|k: int|
                        0 <= k < j ==> supply_at(bids@, (#[trigger] bids@[k]).1.min_feerate)
                            < demand,
                },
            decreases n - j,
        {
            let rho = bids[j].1.min_feerate;
            let consider = match best {
                Some(b) => rho < b,
                None => true,
            };
            if consider {
                let sat = supply_at_exec(bids, rho);
                if sat >= demand {
                    best = Some(rho);
                }
            }
            j = j + 1;
        }
        match best {
            Some(b) => {
                clearing = b;
            },
            None => {
                // The dearest bid qualifies, so a qualifying rate was found.
                proof {
                    lemma_supply_bounds(bids@, maxr);
                    assert(supply_at(bids@, maxr) >= demand);
                    if n > 0 {
                        assert(total_supply(bids@) > 0);
                        assert(exists|k: int|
                            0 <= k < n && (#[trigger] bids@[k]).1.min_feerate == maxr || maxr
                                == 0u64);
                        if maxr == 0u64 {
                            assert(supply_at(bids@, bids@[0].1.min_feerate) < demand);
                            lemma_supply_bounds(bids@, bids@[0].1.min_feerate);
                            assert(bids@[0].1.min_feerate >= max_rate(bids@));
                            assert(false);
                        } else {
                            assert(false);
                        }
                    } else {
                        assert(total_supply(bids@) == 0);
                        assert(false);
                    }
                }
                clearing = 0;
            },
        }
    }
    let feerate_ppm: u64 = if clearing <= max_feerate_ppm {
        clearing
    } else {
        max_feerate_ppm
    };
    // Full allocations below the clearing rate.
    let mut alloc: Vec<u64> = Vec::new();
    let mut below: u128 = 0;
    let mut rho_below: Option<u64> = None;
    let mut j: usize = 0;
    proof {
        assert(bids@.take(0) =~= Seq::<(AccountId, ProviderBid)>::empty());
        assert(alloc@.take(0) =~= Seq::<u64>::empty());
    }
    while j < n
        invariant
            j <= n,
            n == bids@.len(),
            alloc@.len() == j,
            below as int == supply_below(bids@.take(j as int), clearing),
            below as int <= (j as int) * (u64::MAX as int),
            alloc_sum(alloc@) == below as int,
            forall|k: int|
                0 <= k < j ==> #[trigger] alloc@[k] == if bids@[k].1.min_feerate < clearing {
                    bids@[k].1.max_amount
                } else {
                    0u64
                },
            match rho_below {
                Some(rho) => rho < clearing && (exists|k: int|
                    0 <= k < j && (#[trigger] bids@[k]).1.min_feerate == rho) && forall|k: int|
                    0 <= k < j && (#[trigger] bids@[k]).1.min_feerate < clearing
                        ==> bids@[k].1.min_feerate <= rho,
                None => forall|k: int|
                    0 <= k < j ==> !((#[trigger] bids@[k]).1.min_feerate < clearing),
            },
        decreases n - j,
    {
        proof {
            lemma_supply_below_take_step(bids@, j as int, clearing);
            assert((j as int + 1) * (u64::MAX as int) == (j as int) * (u64::MAX as int) + (
            u64::MAX as int));
            lemma_mul_bound(j as int + 1);
        }
        let rate_j = bids[j].1.min_feerate;
        if rate_j < clearing {
            let give = bids[j].1.max_amount;
            proof {
                lemma_alloc_sum_take_step(alloc@.push(give), j as int);
                assert(alloc@.push(give).take(j as int) =~= alloc@);
                assert(alloc@.push(give).take(j as int + 1) =~= alloc@.push(give));
            }
            alloc.push(give);
            below = below + (give as u128);
            let update_rho = match rho_below {
                Some(rho) => rate_j > rho,
                None => true,
            };
            if update_rho {
                rho_below = Some(rate_j);
            }
        } else {
            proof {
                lemma_alloc_sum_take_step(alloc@.push(0u64), j as int);
                assert(alloc@.push(0u64).take(j as int) =~= alloc@);
                assert(alloc@.push(0u64).take(j as int + 1) =~= alloc@.push(0u64));
            }
            alloc.push(0);
        }
        j = j + 1;
    }
    proof {
        assert(bids@.take(n as int) =~= bids@);
    }
    // The strict supply below the clearing rate is under the demand.
    proof {
        if supply < demand {
            lemma_supply_bounds(bids@, clearing);
        } else {
            match rho_below {
                Some(rho) => {
                    lemma_supply_below_eq_at(bids@, clearing, rho);
                },
                None => {
                    lemma_supply_below_zero(bids@, clearing);
                },
            }
        }
    }
    assert(below < demand);
    let mut remaining: u128 = demand - below;
    let ghost r0 = remaining;
    // Greedy acceptance of bids at the clearing rate, cheapest-to-order first.
    let mut done: Vec<bool> = Vec::new();
    let mut t: usize = 0;
    while t < n
        invariant
            t <= n,
            done@.len() == t,
            forall|k: int| 0 <= k < t ==> !(#[trigger] done@[k]),
        decreases n - t,
    {
        done.push(false);
        t = t + 1;
    }
    loop
        invariant
            n == bids@.len(),
            alloc@.len() == n,
            done@.len() == n,
            remaining <= r0,
            r0 == demand - supply_below(bids@, clearing),
            alloc_sum(alloc@) == demand - remaining,
            forall|k: int|
                0 <= k < n && (#[trigger] bids@[k]).1.min_feerate < clearing ==> alloc@[k]
                    == bids@[k].1.max_amount,
            forall|k: int|
                0 <= k < n && (#[trigger] bids@[k]).1.min_feerate > clearing ==> alloc@[k] == 0u64
                    && !done@[k],
            forall|k: int|
                0 <= k < n && (#[trigger] bids@[k]).1.min_feerate == clearing ==> (done@[k]
                    ==> alloc@[k] <= bids@[k].1.max_amount) && (!done@[k] ==> alloc@[k] == 0u64),
            remaining > 0 ==> forall|k: int|
                0 <= k < n && (#[trigger] bids@[k]).1.min_feerate == clearing && done@[k]
                    ==> alloc@[k] == bids@[k].1.max_amount,
            forall|a: int, b: int|
                0 <= a < n && 0 <= b < n && (#[trigger] done@[a]) && !(#[trigger] done@[b])
                    && bids@[a].1.min_feerate == clearing && bids@[b].1.min_feerate == clearing
                    ==> !tie_before(bids@[b], bids@[a]),
            forall|a: int, b: int|
                0 <= a < n && 0 <= b < n && (#[trigger] bids@[a]).1.min_feerate == clearing && (
                #[trigger] bids@[b]).1.min_feerate == clearing && tie_before(bids@[a], bids@[b])
                    && alloc@[b] > 0 ==> alloc@[a] == bids@[a].1.max_amount,
        ensures
            forall|k: int|
                0 <= k < n && (#[trigger] bids@[k]).1.min_feerate == clearing ==> done@[k],
        decreases undone_ties(done@, bids@, clearing),
    {
        let mut pick: Option<usize> = None;
        let mut s: usize = 0;
        while s < n
            invariant
                s <= n,
                n == bids@.len(),
                done@.len() == n,
                match pick {
                    Some(m) => m < n && !done@[m as int] && bids@[m as int].1.min_feerate
                        == clearing && forall|k: int|
                        0 <= k < s && !(#[trigger] done@[k]) && bids@[k].1.min_feerate == clearing
                            ==> !tie_before(bids@[k], bids@[m as int]),
                    None => forall|k: int|
                        0 <= k < s ==> (#[trigger] done@[k]) || bids@[k].1.min_feerate != clearing,
                },
            decreases n - s,
        {
            if !done[s] && bids[s].1.min_feerate == clearing {
                let better = match pick {
                    Some(m) => bid_tie_before(&bids[s], &bids[m]),
                    None => true,
                };
                if better {
                    pick = Some(s);
                }
            }
            s = s + 1;
        }
        let m = match pick {
            Some(m) => m,
            None => {
                break ;
            },
        };
        let cap = bids[m].1.max_amount;
        let give: u64 = if (cap as u128) <= remaining {
            cap
        } else {
            remaining as u64
        };
        let ghost pre_alloc = alloc@;
        let ghost pre_done = done@;
        proof {
            lemma_alloc_sum_update(alloc@, m as int, give);
        }
        alloc[m] = give;
        done[m] = true;
        remaining = remaining - (give as u128);
        proof {
            lemma_undone_ties_update(pre_done, bids@, clearing, m as int);
        }
    }
    // All ties are processed; account for the final sum.
    proof {
        lemma_supply_bounds(bids@, clearing);
        lemma_max_rate_bound(bids@);
        assert(forall|k: int| 0 <= k < n ==> #[trigger] alloc@[k] <= bids@[k].1.max_amount);
        lemma_alloc_sum_le_total(alloc@, bids@);
        if remaining > 0 {
            assert(forall|k: int|
                0 <= k < n ==> #[trigger] alloc@[k] as int == if bids@[k].1.min_feerate
                    <= clearing {
                    bids@[k].1.max_amount as int
                } else {
                    0
                });
            lemma_alloc_sum_matches_supply_at(alloc@, bids@, clearing);
            if supply >= demand {
                assert(supply_at(bids@, clearing) >= demand);
                assert(false);
            }
            assert(clearing == maxr);
            assert(supply_at(bids@, clearing) == total_supply(bids@));
            assert(forall|k: int|
                0 <= k < n ==> #[trigger] alloc@[k] == bids@[k].1.max_amount) by {
                assert(forall|k: int|
                    0 <= k < n ==> (#[trigger] bids@[k]).1.min_feerate <= max_rate(bids@));
            }
        } else {
            assert(alloc_sum(alloc@) == demand as int);
            if supply < demand {
                assert(alloc_sum(alloc@) <= total_supply(bids@));
                assert(false);
            }
        }
    }
    MatchOutcome { clearing_rate: clearing, feerate_ppm, alloc }
}

/// The cumulative supply at `rate`, computed by one pass.
fn supply_at_exec(bids: &Vec<(AccountId, ProviderBid)>, rate: u64) -> (r: u128)
    ensures
        r as int == supply_at(bids@, rate),
{
    let n = bids.len();
    let mut acc: u128 = 0;
    let mut i: usize = 0;
    proof {
        assert(bids@.take(0) =~= Seq::<(AccountId, ProviderBid)>::empty());
    }
    while i < n
        invariant
            i <= n,
            n == bids@.len(),
            acc as int == supply_at(bids@.take(i as int), rate),
            acc as int <= (i as int) * (u64::MAX as int),
        decreases n - i,
    {
        proof {
            lemma_supply_at_take_step(bids@, i as int, rate);
            assert((i as int + 1) * (u64::MAX as int) == (i as int) * (u64::MAX as int) + (
            u64::MAX as int));
            lemma_mul_bound(i as int + 1);
        }
        if bids[i].1.min_feerate <= rate {
            acc = acc + (bids[i].1.max_amount as u128);
        }
        i = i + 1;
    }
    proof {
        assert(bids@.take(n as int) =~= bids@);
    }
    acc
}

/// Taking one more bid extends the cumulative supply.
pub proof fn lemma_supply_at_take_step(bids: Seq<(AccountId, ProviderBid)>, n: int, rate: u64)
    requires
        0 <= n < bids.len(),
    ensures
        supply_at(bids.take(n + 1), rate) == supply_at(bids.take(n), rate) + if bids[n].1.min_feerate
            <= rate {
            bids[n].1.max_amount as int
        } else {
            0
        },
{
    assert(bids.take(n + 1).drop_last() =~= bids.take(n));
}

/// Taking one more bid extends the strict supply.
pub proof fn lemma_supply_below_take_step(bids: Seq<(AccountId, ProviderBid)>, n: int, rate: u64)
    requires
        0 <= n < bids.len(),
    ensures
        supply_below(bids.take(n + 1), rate) == supply_below(bids.take(n), rate) + if bids[n].1.min_feerate
            < rate {
            bids[n].1.max_amount as int
        } else {
            0
        },
{
    assert(bids.take(n + 1).drop_last() =~= bids.take(n));
}

/// Taking one more bid extends the total supply.
pub proof fn lemma_total_supply_take_step(bids: Seq<(AccountId, ProviderBid)>, n: int)
    requires
        0 <= n < bids.len(),
    ensures
        total_supply(bids.take(n + 1)) == total_supply(bids.take(n)) + bids[n].1.max_amount as int,
{
    assert(bids.take(n + 1).drop_last() =~= bids.take(n));
}

} // verus!
