//! A replicated stability-pool ledger: deterministic per-account balances in
//! msats, epoch-based matching of stability seekers against collateral
//! providers, and a price-threshold epoch finalization protocol.
//!
//! Everything that decides or computes is verified; federation transport,
//! storage and oracle I/O are external collaborators reached from the
//! surrounding (unverified) host code.

use vstd::prelude::*;

pub mod account;
pub mod action;
pub mod api;
pub mod common;
pub mod config;
pub mod crypto;
pub mod db;
pub mod epoch;
pub mod ledger;
pub mod stability_core;
pub mod state;
pub mod table;
pub mod words;

pub use crate::account::{AccountBalance, AccountDeposit, AccountWithdrawal, LockedBalance};
pub use crate::words::{AccountId, Bytes32, OutPoint};

verus! {

/// A withdrawal spends from an account's unlocked balance.
pub type PoolInput = crate::account::AccountWithdrawal;

/// A deposit credits an account's unlocked balance.
pub type PoolOutput = crate::account::AccountDeposit;

/// The outcome of a successful deposit: which account it credited.
#[derive(Clone, Copy, Debug, PartialEq, Eq, Structural, Hash)]
pub struct PoolOutputOutcome(pub AccountId);

/// The items this module contributes to each consensus round.
#[derive(Clone, Debug)]
pub enum PoolConsensusItem {
    /// A signed user action relayed for staging.
    ActionProposed(crate::action::ActionProposed),
    /// A peer's vote for closing the open epoch at a price.
    EpochEnd(crate::epoch::EpochEnd),
}

/// Why a consensus item was ignored: a benign mismatch, no state change.
#[derive(Clone, Copy, Debug, PartialEq, Eq, Structural, Hash)]
pub enum IgnoreReason {
    /// An epoch-end vote for an epoch that already ended.
    StaleEpoch,
    /// An action for an epoch that is not the staging epoch.
    WrongEpoch,
    /// An action whose sequence number does not beat the staged one.
    Superseded,
    /// The epoch counter has reached its cap; no further epochs end.
    CounterExhausted,
}

/// Why a peer is reported for banning: a protocol violation, no state change.
#[derive(Clone, Copy, Debug, PartialEq, Eq, Structural, Hash)]
pub enum BanReason {
    /// The action's signature does not verify.
    BadSignature,
    /// An epoch-end vote for an epoch that has not opened yet.
    VoteFromFuture,
    /// A second epoch-end vote from the same peer for the open epoch.
    DoubleVote,
}

/// What applying one consensus item did.
#[derive(Clone, Copy, Debug, PartialEq, Eq, Structural, Hash)]
pub enum ConsensusItemOutcome {
    /// State was changed.
    Applied,
    /// Benign mismatch; nothing changed and the peer is not penalized.
    Ignored(IgnoreReason),
    /// Protocol violation; nothing changed and the peer is reported.
    Banned(BanReason),
}

/// Errors of deposit validation.
#[derive(Clone, Copy, Debug, PartialEq, Eq, Structural, Hash)]
pub enum StabilityPoolError {
    SomethingDummyWentWrong,
    /// Adding the deposit would overflow the account's msat total.
    DepositTooLarge,
}

/// Errors of withdrawal validation.
#[derive(Clone, Copy, Debug, PartialEq, Eq, Structural, Hash)]
pub enum WithdrawalError {
    /// The account's unlocked balance does not cover the request.
    UnavailableFunds { amount: u64, available: u64 },
}

/// Marker for the module's verification cache; input verification needs no
/// precomputation here.
#[derive(Clone, Copy, Debug, PartialEq, Eq, Structural, Hash)]
pub struct PoolVerificationCache;

/// One peer's module instance: its configuration, the oracle retry state,
/// and the volatile pool of user actions awaiting consensus.
pub struct StabilityPool {
    pub cfg: crate::config::PoolConfig,
    pub backoff: crate::epoch::BackOff,
    pub proposed_db: crate::action::ActionProposedDb,
}

impl StabilityPool {
    /// Creates a module instance from its configuration, with no pending
    /// proposals and no oracle backoff.
    pub fn new(cfg: crate::config::PoolConfig) -> (r: Self)
        ensures
            r.cfg == cfg,
            r.backoff.delay_secs == 0u64,
            r.backoff.not_before == 0u64,
            r.proposed_db.entries@.len() == 0,
            r.proposed_db.wf(),
    {
        StabilityPool {
            cfg,
            backoff: crate::epoch::BackOff { delay_secs: 0, not_before: 0 },
            proposed_db: crate::action::ActionProposedDb::new(),
        }
    }

    /// The epoch parameters of this peer.
    pub fn epoch_config(&self) -> (r: &crate::config::EpochConfig)
        ensures
            *r == self.cfg.consensus.epoch,
    {
        &self.cfg.consensus.epoch
    }

    /// Which oracle this peer queries.
    pub fn oracle(&self) -> (r: &crate::config::OracleConfig)
        ensures
            *r == self.cfg.consensus.oracle,
    {
        &self.cfg.consensus.oracle
    }

    /// Input verification needs no precomputed cache.
    pub fn build_verification_cache(&self) -> (r: PoolVerificationCache)
        ensures
            r == PoolVerificationCache,
    {
        PoolVerificationCache
    }
}

impl From<crate::action::ActionProposed> for PoolConsensusItem {
    /// Wraps a relayed action as a consensus item.
    fn from(value: crate::action::ActionProposed) -> (r: Self) {
        PoolConsensusItem::ActionProposed(value)
    }
}

impl vstd::std_specs::convert::FromSpecImpl<crate::action::ActionProposed> for PoolConsensusItem {
    open spec fn obeys_from_spec() -> bool {
        true
    }

    open spec fn from_spec(value: crate::action::ActionProposed) -> Self {
        PoolConsensusItem::ActionProposed(value)
    }
}

impl From<crate::epoch::EpochEnd> for PoolConsensusItem {
    /// Wraps an epoch-end vote as a consensus item.
    fn from(value: crate::epoch::EpochEnd) -> (r: Self) {
        PoolConsensusItem::EpochEnd(value)
    }
}

impl vstd::std_specs::convert::FromSpecImpl<crate::epoch::EpochEnd> for PoolConsensusItem {
    open spec fn obeys_from_spec() -> bool {
        true
    }

    open spec fn from_spec(value: crate::epoch::EpochEnd) -> Self {
        PoolConsensusItem::EpochEnd(value)
    }
}

impl StabilityPool {
    /// Whether this peer has anything to contribute to the next consensus
    /// round at wall-clock second `now`: a pending user action, or an
    /// epoch-end proposal whose window has passed.
    pub fn can_propose(&self, state: &crate::state::PoolState, now: u64) -> (r: bool)
        requires
            state.wf(),
            self.proposed_db.wf(),
            self.cfg.consensus.epoch.epoch_length > 0,
        ensures
            r == (self.proposed_db.entries@.len() > 0 || (crate::epoch::epoch_due_spec(
                self.cfg.consensus.epoch,
                *state,
                now,
            ) && now >= self.backoff.not_before)),
    {
        crate::action::can_propose(&self.proposed_db) || crate::epoch::can_propose(
            state,
            &self.backoff,
            &self.cfg.consensus.epoch,
            now,
        )
    }

    /// The items this peer contributes to the next consensus round: an
    /// epoch-end vote when one is due and the oracle returned a price,
    /// then every pending user action.
    pub fn consensus_proposal(&self, state: &crate::state::PoolState, now: u64, price: Option<
        u64,
    >) -> (r: Vec<PoolConsensusItem>)
        requires
            state.wf(),
            self.proposed_db.wf(),
            self.cfg.consensus.epoch.epoch_length > 0,
        ensures
            ({
                let has_vote = crate::epoch::epoch_due_spec(self.cfg.consensus.epoch, *state, now)
                    && now >= self.backoff.not_before && price is Some;
                let off: int = if has_vote {
                    1
                } else {
                    0
                };
                &&& r@.len() == off + self.proposed_db.entries@.len()
                &&& (has_vote ==> (r@[0] matches PoolConsensusItem::EpochEnd(e) && e
                    == (crate::epoch::EpochEnd {
                    epoch_id: (state.last_ended + 1) as u64,
                    price: price->0,
                })))
                &&& forall|i: int|
                    0 <= i < self.proposed_db.entries@.len() ==> ((#[trigger] r@[off + i]) matches
                        PoolConsensusItem::ActionProposed(a) && a.action
                        == self.proposed_db.entries@[i].1.action && a.signature@
                        == self.proposed_db.entries@[i].1.signature@)
            }),
    {
        let mut items: Vec<PoolConsensusItem> = Vec::new();
        match crate::epoch::build_proposal(
            state,
            &self.backoff,
            &self.cfg.consensus.epoch,
            now,
            price,
        ) {
            Some(e) => {
                items.push(PoolConsensusItem::EpochEnd(e));
            },
            None => (),
        }
        let ghost off = items@.len() as int;
        let ghost prefix = items@;
        let ghost has_vote = crate::epoch::epoch_due_spec(self.cfg.consensus.epoch, *state, now)
            && now >= self.backoff.not_before && price is Some;
        let actions = self.proposed_db.items();
        let na = actions.len();
        let mut i: usize = 0;
        while i < na
            invariant
                i <= na,
                na == actions@.len(),
                na == self.proposed_db.entries@.len(),
                items@.len() == off + i,
                off == prefix.len(),
                off == if has_vote {
                    1int
                } else {
                    0int
                },
                has_vote ==> (prefix[0] matches PoolConsensusItem::EpochEnd(e) && e
                    == (crate::epoch::EpochEnd {
                    epoch_id: (state.last_ended + 1) as u64,
                    price: price->0,
                })),
                forall|j: int|
                    0 <= j < na ==> (#[trigger] actions@[j]).action
                        == self.proposed_db.entries@[j].1.action && actions@[j].signature@
                        == self.proposed_db.entries@[j].1.signature@,
                forall|j: int| 0 <= j < off ==> (#[trigger] items@[j]) == prefix[j],
                forall|j: int|
                    0 <= j < i ==> ((#[trigger] items@[off + j]) matches
                        PoolConsensusItem::ActionProposed(a) && a.action
                        == self.proposed_db.entries@[j].1.action && a.signature@
                        == self.proposed_db.entries@[j].1.signature@),
            decreases na - i,
        {
            let a = actions[i].clone();
            items.push(PoolConsensusItem::ActionProposed(a));
            i = i + 1;
        }
        items
    }
}

/// The classification of one consensus item on a given state.
pub open spec fn item_outcome_spec(
    s: crate::state::PoolState,
    peer_id: u64,
    item: PoolConsensusItem,
) -> ConsensusItemOutcome {
    match item {
        PoolConsensusItem::ActionProposed(ap) => crate::action::process_action_outcome_spec(
            s,
            ap,
        ),
        PoolConsensusItem::EpochEnd(e) => crate::epoch::epoch_end_outcome_spec(s, peer_id, e),
    }
}

/// Everything applying one consensus item does, as a relation between the
/// state and the pending pool before and after.
///
/// The outcome is the item's classification on the pre-state; ignored and
/// banned items change nothing; an applied action replaces the account's
/// staged action (with a strictly larger sequence number) and drops its
/// pending proposal; an applied vote is recorded, and at the configured
/// threshold it settles the closing epoch at the median voted price,
/// promotes the staged actions into positions, records both epoch
/// outcomes, advances the counters and clears the votes.
pub open spec fn item_step_spec(
    pre: crate::state::PoolState,
    pool_pre: crate::action::ActionProposedDb,
    post: crate::state::PoolState,
    pool_post: crate::action::ActionProposedDb,
    cfg: crate::config::EpochConfig,
    peer_id: u64,
    item: PoolConsensusItem,
    outcome: ConsensusItemOutcome,
) -> bool {
    &&& outcome == item_outcome_spec(pre, peer_id, item)
    &&& post.deposits@ == pre.deposits@
    &&& crate::state::sum_total(post.accounts@) == crate::state::sum_total(pre.accounts@)
    &&& (!(outcome is Applied) ==> post.unchanged_from(pre) && pool_post.entries@
        == pool_pre.entries@)
    &&& (match item {
        PoolConsensusItem::ActionProposed(ap) => {
            &&& post.accounts@ == pre.accounts@
            &&& post.outcomes@ == pre.outcomes@
            &&& post.votes@ == pre.votes@
            &&& post.last_ended == pre.last_ended
            &&& post.last_settled == pre.last_settled
            &&& (outcome is Applied ==> {
                &&& (crate::table::tbl_get(post.staged@, ap.action.account_id) matches Some(st)
                    && st.action == ap.action && st.signature@ == ap.signature@)
                &&& forall|a: AccountId|
                    a != ap.action.account_id ==> crate::table::tbl_get(post.staged@, a)
                        == crate::table::tbl_get(pre.staged@, a)
                &&& crate::table::tbl_get(pool_post.entries@, ap.action.account_id) is None
                &&& forall|a: AccountId|
                    a != ap.action.account_id ==> crate::table::tbl_get(pool_post.entries@, a)
                        == crate::table::tbl_get(pool_pre.entries@, a)
                &&& (match crate::table::tbl_get(pre.staged@, ap.action.account_id) {
                    Some(prev) => ap.action.sequence > prev.action.sequence,
                    None => true,
                })
            })
        },
        PoolConsensusItem::EpochEnd(e) => {
            &&& pool_post.entries@ == pool_pre.entries@
            &&& (outcome is Applied && pre.votes@.len() + 1 < cfg.price_threshold ==> {
                &&& post.votes@ == pre.votes@.push((peer_id, e))
                &&& post.accounts@ == pre.accounts@
                &&& post.outcomes@ == pre.outcomes@
                &&& post.staged@ == pre.staged@
                &&& post.last_ended == pre.last_ended
                &&& post.last_settled == pre.last_settled
            })
            &&& (outcome is Applied && pre.votes@.len() + 1 >= cfg.price_threshold ==> ({
                let median = crate::epoch::median_spec(
                    crate::epoch::vote_prices(pre.votes@).push(e.price),
                );
                let settled = crate::epoch::settled_accounts_spec(pre, median);
                let demand = crate::epoch::takes_from(settled, pre.staged@, 0)
                    * cfg.collateral_ratio.denom / (cfg.collateral_ratio.numer as int);
                let supply = crate::epoch::provider_from(post.accounts@, 0);
                let bids = crate::epoch::bids_spec(settled, pre.staged@);
                &&& post.last_ended as int == pre.current_spec()
                &&& post.last_settled == post.last_ended
                &&& post.votes@.len() == 0
                &&& post.staged@.len() == 0
                &&& post.accounts@.len() == pre.accounts@.len()
                &&& forall|j: int|
                    0 <= j < pre.accounts@.len() ==> (#[trigger] post.accounts@[j]).0
                        == pre.accounts@[j].0
                &&& forall|j: int|
                    0 <= j < pre.accounts@.len() ==> (#[trigger] post.accounts@[j]).1.total_spec()
                        == settled[j].1.total_spec()
                &&& forall|j: int|
                    0 <= j < pre.accounts@.len() && !crate::table::tbl_has(
                        pre.staged@,
                        pre.accounts@[j].0,
                    ) ==> (#[trigger] post.accounts@[j]) == settled[j]
                &&& forall|k: int|
                    0 <= k < pre.staged@.len() ==> (match (#[trigger] pre.staged@[
                    k]).1.action.body {
                        crate::action::ActionBody::Seeker(
                            crate::action::SeekerAction::Lock { amount },
                        ) => (match crate::table::tbl_get(settled, pre.staged@[k].0) {
                            Some(sb) => crate::table::tbl_get(post.accounts@, pre.staged@[k].0)
                                == Some(
                                crate::epoch::promoted_lock_balance(sb, amount, supply, demand),
                            ),
                            None => true,
                        }),
                        _ => true,
                    })
                &&& forall|k: int|
                    0 <= k < pre.staged@.len() ==> (match (#[trigger] pre.staged@[
                    k]).1.action.body {
                        crate::action::ActionBody::Provider(bid) => (match crate::table::tbl_get(
                            settled,
                            pre.staged@[k].0,
                        ) {
                            Some(sb) => (match crate::table::tbl_get(
                                post.accounts@,
                                pre.staged@[k].0,
                            ) {
                                Some(b2) => exists|a: u64|
                                    a <= bid.max_amount && a <= sb.unlocked && b2
                                        == crate::epoch::provider_result(sb, a),
                                None => false,
                            }),
                            None => true,
                        }),
                        _ => true,
                    })
                &&& (match crate::table::tbl_get(post.outcomes@, (pre.last_ended + 1) as u64) {
                    Some(o) => o == (match crate::table::tbl_get(
                        pre.outcomes@,
                        (pre.last_ended + 1) as u64,
                    ) {
                        Some(open_outcome) => crate::epoch::EpochOutcome {
                            feerate: open_outcome.feerate,
                            seeker_total: open_outcome.seeker_total,
                            provider_total: open_outcome.provider_total,
                            settled_price: Some(median),
                        },
                        None => crate::epoch::EpochOutcome {
                            feerate: crate::epoch::Feerate { ppm: 0u64 },
                            seeker_total: 0u64,
                            provider_total: 0u64,
                            settled_price: Some(median),
                        },
                    }),
                    None => false,
                })
                &&& supply == (if crate::stability_core::total_supply(bids) <= demand {
                    crate::stability_core::total_supply(bids)
                } else {
                    demand
                })
                &&& (match crate::table::tbl_get(post.outcomes@, (pre.last_ended + 2) as u64) {
                    Some(o2) => {
                        &&& o2.seeker_total as int == crate::epoch::seeker_from(post.accounts@, 0)
                        &&& o2.provider_total as int == crate::epoch::provider_from(
                            post.accounts@,
                            0,
                        )
                        &&& o2.settled_price is None
                        &&& o2.feerate.ppm <= cfg.max_feerate_ppm
                        &&& (demand == 0 ==> o2.feerate.ppm == 0u64)
                        &&& (demand > 0 && crate::stability_core::total_supply(bids) < demand
                            ==> o2.feerate.ppm == (if crate::stability_core::max_rate(bids)
                                <= cfg.max_feerate_ppm {
                            crate::stability_core::max_rate(bids)
                        } else {
                            cfg.max_feerate_ppm
                        }))
                        &&& (demand > 0 && crate::stability_core::total_supply(bids) >= demand
                            ==> (exists|c: u64|
                            {
                                &&& exists|j: int|
                                    0 <= j < bids.len() && (#[trigger] bids[j]).1.min_feerate == c
                                &&& crate::stability_core::supply_at(bids, c) >= demand
                                &&& forall|j: int|
                                    0 <= j < bids.len() && (#[trigger] bids[j]).1.min_feerate < c
                                        ==> crate::stability_core::supply_at(
                                        bids,
                                        bids[j].1.min_feerate,
                                    ) < demand
                                &&& o2.feerate.ppm == (if c <= cfg.max_feerate_ppm {
                                    c
                                } else {
                                    cfg.max_feerate_ppm
                                })
                                &&& forall|j: int|
                                    0 <= j < bids.len() && (#[trigger] bids[j]).1.min_feerate < c
                                        ==> (match crate::table::tbl_get(settled, bids[j].0) {
                                        Some(sb) => crate::table::tbl_get(
                                            post.accounts@,
                                            bids[j].0,
                                        ) == Some(
                                            crate::epoch::provider_result(
                                                sb,
                                                bids[j].1.max_amount,
                                            ),
                                        ),
                                        None => true,
                                    })
                                &&& forall|j: int|
                                    0 <= j < bids.len() && (#[trigger] bids[j]).1.min_feerate > c
                                        ==> (match crate::table::tbl_get(settled, bids[j].0) {
                                        Some(sb) => crate::table::tbl_get(
                                            post.accounts@,
                                            bids[j].0,
                                        ) == Some(crate::epoch::provider_result(sb, 0u64)),
                                        None => true,
                                    })
                            }))
                    },
                    None => false,
                })
            }))
        },
    })
}

/// Applies one consensus item, dispatching on its kind.

pub fn process_consensus_item(
    state: &mut crate::state::PoolState,
    proposed_db: &mut crate::action::ActionProposedDb,
    cfg: &crate::config::EpochConfig,
    peer_id: u64,
    item: PoolConsensusItem,
) -> (r: ConsensusItemOutcome)
    requires
        old(state).wf(),
        old(proposed_db).wf(),
        crate::state::sum_total(old(state).accounts@) <= u64::MAX,
        cfg.collateral_ratio.numer > 0,
        cfg.collateral_ratio.denom > 0,
    ensures
        final(state).wf(),
        final(proposed_db).wf(),
        crate::state::sum_total(final(state).accounts@) == crate::state::sum_total(
            old(state).accounts@,
        ),
        final(state).deposits@ == old(state).deposits@,
        r == item_outcome_spec(*old(state), peer_id, item),
        !(r is Applied) ==> final(state).unchanged_from(*old(state)),
        item_step_spec(
            *old(state),
            *old(proposed_db),
            *final(state),
            *final(proposed_db),
            *cfg,
            peer_id,
            item,
            r,
        ),
{
    let ghost gitem = item;
    match item {
        PoolConsensusItem::ActionProposed(ap) => {
            let outcome = crate::action::process_action(state, proposed_db, ap);
            proof {
                assert(item_step_spec(
                    *old(state),
                    *old(proposed_db),
                    *state,
                    *proposed_db,
                    *cfg,
                    peer_id,
                    gitem,
                    outcome,
                ));
            }
            outcome
        },
        PoolConsensusItem::EpochEnd(e) => {
            let outcome = crate::epoch::process_epoch_end(state, cfg, peer_id, e);
            proof {
                assert(item_step_spec(
                    *old(state),
                    *old(proposed_db),
                    *state,
                    *proposed_db,
                    *cfg,
                    peer_id,
                    gitem,
                    outcome,
                ));
            }
            outcome
        },
    }
}

/// Applies a whole round of ordered consensus items, returning each item's
/// outcome in order.
///
/// The round is exactly the fold of [`item_step_spec`] over the items: a
/// chain of states runs from the old state and pool to the final ones, and
/// each consecutive pair is related by one item's step, with the outcome
/// list recording each step's classification.
pub fn begin_consensus_epoch(
    state: &mut crate::state::PoolState,
    proposed_db: &mut crate::action::ActionProposedDb,
    cfg: &crate::config::EpochConfig,
    items: Vec<(u64, PoolConsensusItem)>,
) -> (r: Vec<ConsensusItemOutcome>)
    requires
        old(state).wf(),
        old(proposed_db).wf(),
        crate::state::sum_total(old(state).accounts@) <= u64::MAX,
        cfg.collateral_ratio.numer > 0,
        cfg.collateral_ratio.denom > 0,
    ensures
        final(state).wf(),
        final(proposed_db).wf(),
        crate::state::sum_total(final(state).accounts@) == crate::state::sum_total(
            old(state).accounts@,
        ),
        final(state).deposits@ == old(state).deposits@,
        r@.len() == items@.len(),
        exists|trace: Seq<(crate::state::PoolState, crate::action::ActionProposedDb)>|
            {
                &&& trace.len() == items@.len() + 1
                &&& trace[0] == (*old(state), *old(proposed_db))
                &&& trace[items@.len() as int] == (*final(state), *final(proposed_db))
                &&& forall|i: int|
                    0 <= i < items@.len() ==> item_step_spec(
                        (#[trigger] trace[i]).0,
                        trace[i].1,
                        trace[i + 1].0,
                        trace[i + 1].1,
                        *cfg,
                        items@[i].0,
                        items@[i].1,
                        r@[i],
                    )
            },
{
    let mut rest = items;
    let mut outcomes: Vec<ConsensusItemOutcome> = Vec::new();
    let ghost total = rest@.len() as int;
    let ghost gitems = rest@;
    let ghost mut trace: Seq<(crate::state::PoolState, crate::action::ActionProposedDb)> = seq![
        (*state, *proposed_db),
    ];
    while rest.len() > 0
        invariant
            state.wf(),
            proposed_db.wf(),
            crate::state::sum_total(state.accounts@) == crate::state::sum_total(
                old(state).accounts@,
            ),
            state.deposits@ == old(state).deposits@,
            cfg.collateral_ratio.numer > 0,
            cfg.collateral_ratio.denom > 0,
            crate::state::sum_total(state.accounts@) <= u64::MAX,
            outcomes@.len() + rest@.len() == total,
            total == gitems.len(),
            rest@ == gitems.skip(outcomes@.len() as int),
            trace.len() == outcomes@.len() + 1,
            trace[0] == (*old(state), *old(proposed_db)),
            trace[outcomes@.len() as int] == (*state, *proposed_db),
            forall|i: int|
                0 <= i < outcomes@.len() ==> item_step_spec(
                    (#[trigger] trace[i]).0,
                    trace[i].1,
                    trace[i + 1].0,
                    trace[i + 1].1,
                    *cfg,
                    gitems[i].0,
                    gitems[i].1,
                    outcomes@[i],
                ),
        decreases rest@.len(),
    {
        let ghost done = outcomes@.len() as int;
        let ghost pre_rest = rest@;
        let (peer_id, item) = rest.remove(0);
        let ghost gitem = item;
        proof {
            assert(pre_rest[0] == gitems[done]);
            assert(rest@ =~= gitems.skip(done + 1));
        }
        let outcome = process_consensus_item(state, proposed_db, cfg, peer_id, item);
        outcomes.push(outcome);
        proof {
            trace = trace.push((*state, *proposed_db));
            assert(trace[done + 1] == (*state, *proposed_db));
            assert(forall|i: int| 0 <= i < done + 1 ==> trace[i] == trace.drop_last()[i]);
            assert(item_step_spec(
                trace[done].0,
                trace[done].1,
                trace[done + 1].0,
                trace[done + 1].1,
                *cfg,
                gitems[done].0,
                gitems[done].1,
                outcomes@[done],
            ));
        }
    }
    proof {
        assert(rest@.len() == 0);
        assert(outcomes@.len() == gitems.len());
        assert(trace[gitems.len() as int] == (*state, *proposed_db));
    }
    outcomes
}

} // verus!
