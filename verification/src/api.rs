//! The read API served over a consensus snapshot, plus the one write
//! ingress: proposing a signed user action.

use vstd::prelude::*;
use crate::account::AccountBalance;
use crate::account::LockedBalance;
use crate::action::ActionProposed;
use crate::action::ActionProposedDb;
use crate::action::ActionStaged;
use crate::epoch::EpochOutcome;
use crate::epoch::Feerate;
use crate::state::PoolState;
use crate::table::tbl_get;
use crate::words::AccountId;

verus! {

/// The request errors the API surfaces.
#[derive(Clone, Copy, Debug, PartialEq, Eq, Structural, Hash)]
pub enum ApiError {
    /// The request is malformed: bad signature, wrong epoch, stale sequence.
    BadRequest,
    /// The requested entry does not exist.
    NotFound,
}

/// An account's balances as served to clients.
#[derive(Clone, Copy, Debug, PartialEq, Eq, Structural, Hash)]
pub struct BalanceResponse {
    pub unlocked: u64,
    pub locked: Option<LockedBalanceResponse>,
}

/// A locked position as served to clients, with its epoch context.
#[derive(Clone, Copy, Debug, PartialEq, Eq, Structural, Hash)]
pub struct LockedBalanceResponse {
    pub value: u64,
    pub side: SideResponse,
    pub epoch_id: u64,
    pub epoch_start_price: u64,
    pub epoch: EpochOutcome,
}

/// Which side a locked position is on.
#[derive(Clone, Copy, Debug, PartialEq, Eq, Structural, Hash)]
pub enum SideResponse {
    Provider,
    Seeker,
}

/// One epoch id with its outcome, if any was recorded.
#[derive(Clone, Copy, Debug, PartialEq, Eq, Structural, Hash)]
pub struct StateEpoch {
    pub epoch_id: u64,
    pub outcome: Option<EpochOutcome>,
}

/// A full snapshot of the pool, as served to clients.
pub struct State {
    pub previous_epoch: StateEpoch,
    pub current_epoch: StateEpoch,
    pub accounts: Vec<(AccountId, AccountBalance)>,
    pub staged: Vec<(AccountId, ActionStaged)>,
}

/// The outcome recorded for `epoch_id`, or `NotFound`.
pub fn epoch_outcome(state: &PoolState, epoch_id: u64) -> (r: Result<EpochOutcome, ApiError>)
    requires
        state.wf(),
    ensures
        r == match tbl_get(state.outcomes@, epoch_id) {
            Some(o) => Result::<EpochOutcome, ApiError>::Ok(o),
            None => Result::<EpochOutcome, ApiError>::Err(ApiError::NotFound),
        },
{
    match crate::table::tbl_find(&state.outcomes, &epoch_id) {
        Some(o) => Ok(*o),
        None => Err(ApiError::NotFound),
    }
}

/// What the `/account` endpoint answers for `account_id` on `state`.
pub open spec fn account_response_spec(state: PoolState, account_id: AccountId) -> BalanceResponse {
    let bal = state.balance_of(account_id);
    let current = (state.last_ended + 1) as u64;
    let outcome = match tbl_get(state.outcomes@, current) {
        Some(o) => o,
        None => EpochOutcome {
            feerate: Feerate { ppm: 0u64 },
            seeker_total: 0u64,
            provider_total: 0u64,
            settled_price: None,
        },
    };
    let start_price = match tbl_get(state.outcomes@, state.last_ended) {
        Some(o) => match o.settled_price {
            Some(p) => p,
            None => 0u64,
        },
        None => 0u64,
    };
    match bal.locked {
        LockedBalance::Seeker(v) => BalanceResponse {
            unlocked: bal.unlocked,
            locked: Some(
                LockedBalanceResponse {
                    value: v,
                    side: SideResponse::Seeker,
                    epoch_id: current,
                    epoch_start_price: start_price,
                    epoch: outcome,
                },
            ),
        },
        LockedBalance::Provider(v) => BalanceResponse {
            unlocked: bal.unlocked,
            locked: Some(
                LockedBalanceResponse {
                    value: v,
                    side: SideResponse::Provider,
                    epoch_id: current,
                    epoch_start_price: start_price,
                    epoch: outcome,
                },
            ),
        },
        LockedBalance::Vacant => BalanceResponse { unlocked: bal.unlocked, locked: None },
    }
}

/// An account's balances with the epoch context of its locked position.
/// Unknown accounts read as empty; missing epoch records read as defaults.
pub fn account(state: &PoolState, account_id: AccountId) -> (r: BalanceResponse)
    requires
        state.wf(),
    ensures
        r == account_response_spec(*state, account_id),
{
    let bal = match crate::table::tbl_find(&state.accounts, &account_id) {
        Some(b) => *b,
        None => AccountBalance { unlocked: 0, locked: LockedBalance::Vacant },
    };
    let current = state.current_epoch_id();
    let outcome = match crate::table::tbl_find(&state.outcomes, &current) {
        Some(o) => *o,
        None => EpochOutcome {
            feerate: Feerate { ppm: 0 },
            seeker_total: 0,
            provider_total: 0,
            settled_price: None,
        },
    };
    let start_price = match crate::table::tbl_find(&state.outcomes, &state.last_ended) {
        Some(o) => match o.settled_price {
            Some(p) => p,
            None => 0,
        },
        None => 0,
    };
    match bal.locked {
        LockedBalance::Seeker(v) => BalanceResponse {
            unlocked: bal.unlocked,
            locked: Some(
                LockedBalanceResponse {
                    value: v,
                    side: SideResponse::Seeker,
                    epoch_id: current,
                    epoch_start_price: start_price,
                    epoch: outcome,
                },
            ),
        },
        LockedBalance::Provider(v) => BalanceResponse {
            unlocked: bal.unlocked,
            locked: Some(
                LockedBalanceResponse {
                    value: v,
                    side: SideResponse::Provider,
                    epoch_id: current,
                    epoch_start_price: start_price,
                    epoch: outcome,
                },
            ),
        },
        LockedBalance::Vacant => BalanceResponse { unlocked: bal.unlocked, locked: None },
    }
}

/// Whether a proposed action is acceptable at the API: correctly signed,
/// aimed at the staging epoch, and strictly newer than the latest known
/// submission of its account (the pending one if any, else the staged one).
pub open spec fn propose_action_ok(
    state: PoolState,
    entries: Seq<(AccountId, ActionProposed)>,
    request: ActionProposed,
) -> bool {
    &&& request.sig_ok_spec()
    &&& request.action.epoch_id == state.staging_spec()
    &&& (match tbl_get(entries, request.action.account_id) {
        Some(prev) => !(prev.action.epoch_id == request.action.epoch_id
            && request.action.sequence <= prev.action.sequence),
        None => (match tbl_get(state.staged@, request.action.account_id) {
            Some(prev) => !(prev.action.epoch_id == request.action.epoch_id
                && request.action.sequence <= prev.action.sequence),
            None => true,
        }),
    })
}

/// Accepts a signed action into the pending pool, or rejects it.
pub fn propose_action(
    state: &PoolState,
    proposed_db: &mut ActionProposedDb,
    request: ActionProposed,
) -> (r: Result<(), ApiError>)
    requires
        state.wf(),
        old(proposed_db).wf(),
    ensures
        final(proposed_db).wf(),
        r is Ok <==> propose_action_ok(*state, old(proposed_db).entries@, request),
        r is Err ==> r == Result::<(), ApiError>::Err(ApiError::BadRequest)
            && final(proposed_db).entries@ == old(proposed_db).entries@,
        r is Ok ==> {
            &&& (tbl_get(final(proposed_db).entries@, request.action.account_id) matches Some(p)
                && p.action == request.action && p.signature@ == request.signature@)
            &&& forall|a: AccountId|
                a != request.action.account_id ==> tbl_get(final(proposed_db).entries@, a)
                    == tbl_get(old(proposed_db).entries@, a)
        },
{
    if !request.verify_signature() {
        return Err(ApiError::BadRequest);
    }
    let next_epoch = state.staging_epoch_id();
    if request.action.epoch_id != next_epoch {
        return Err(ApiError::BadRequest);
    }
    let account_id = request.action.account_id;
    let recent_epoch_seq: Option<(u64, u64)> = match proposed_db.get(&account_id) {
        Some(p) => Some((p.action.epoch_id, p.action.sequence)),
        None => match crate::table::tbl_find(&state.staged, &account_id) {
            Some(st) => Some((st.action.epoch_id, st.action.sequence)),
            None => None,
        },
    };
    match recent_epoch_seq {
        Some((prev_epoch, prev_seq)) => {
            if request.action.epoch_id == prev_epoch && request.action.sequence <= prev_seq {
                return Err(ApiError::BadRequest);
            }
        },
        None => (),
    }
    proposed_db.insert(request);
    Ok(())
}

/// A full snapshot: the previous and the open epoch with their outcomes,
/// every account balance, and every staged action, in table order.
pub fn state_snapshot(state: &PoolState) -> (r: State)
    requires
        state.wf(),
    ensures
        r.previous_epoch.epoch_id == state.last_ended,
        r.previous_epoch.outcome == tbl_get(state.outcomes@, state.last_ended),
        r.current_epoch.epoch_id as int == state.current_spec(),
        r.current_epoch.outcome == tbl_get(state.outcomes@, (state.last_ended + 1) as u64),
        r.accounts@ == state.accounts@,
        r.staged@.len() == state.staged@.len(),
        forall|i: int|
            0 <= i < state.staged@.len() ==> (#[trigger] r.staged@[i]).0 == state.staged@[i].0
                && r.staged@[i].1.action == state.staged@[i].1.action && r.staged@[i].1.signature@
                == state.staged@[i].1.signature@,
{
    let previous_epoch_id = state.last_ended;
    let current_epoch_id = state.current_epoch_id();
    let previous = match crate::table::tbl_find(&state.outcomes, &previous_epoch_id) {
        Some(o) => Some(*o),
        None => None,
    };
    let current = match crate::table::tbl_find(&state.outcomes, &current_epoch_id) {
        Some(o) => Some(*o),
        None => None,
    };
    let n = state.accounts.len();
    let mut accounts: Vec<(AccountId, AccountBalance)> = Vec::new();
    let mut i: usize = 0;
    while i < n
        invariant
            i <= n,
            n == state.accounts@.len(),
            accounts@.len() == i,
            forall|j: int| 0 <= j < i ==> (#[trigger] accounts@[j]) == state.accounts@[j],
        decreases n - i,
    {
        accounts.push(state.accounts[i]);
        i = i + 1;
    }
    let ns = state.staged.len();
    let mut staged: Vec<(AccountId, ActionStaged)> = Vec::new();
    let mut k: usize = 0;
    while k < ns
        invariant
            k <= ns,
            ns == state.staged@.len(),
            staged@.len() == k,
            forall|j: int|
                0 <= j < k ==> (#[trigger] staged@[j]).0 == state.staged@[j].0 && staged@[j].1.action
                    == state.staged@[j].1.action && staged@[j].1.signature@
                    == state.staged@[j].1.signature@,
        decreases ns - k,
    {
        let entry = (state.staged[k].0, state.staged[k].1.clone());
        staged.push(entry);
        k = k + 1;
    }
    proof {
        assert(accounts@ =~= state.accounts@);
    }
    State {
        previous_epoch: StateEpoch { epoch_id: previous_epoch_id, outcome: previous },
        current_epoch: StateEpoch { epoch_id: current_epoch_id, outcome: current },
        accounts,
        staged,
    }
}

} // verus!
