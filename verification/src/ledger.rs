//! Deposit and withdrawal handlers over the pool state.

use vstd::prelude::*;
use crate::account::AccountBalance;
use crate::account::AccountDeposit;
use crate::account::AccountWithdrawal;
use crate::account::LockedBalance;
use crate::state::PoolState;
use crate::state::sum_total;
use crate::table::tbl_get;
use crate::table::tbl_has;
use crate::table::tbl_idx;
use crate::words::AccountId;
use crate::words::OutPoint;
use crate::PoolOutputOutcome;
use crate::StabilityPoolError;
use crate::WithdrawalError;

verus! {

/// The msat value and fee the surrounding transaction accounts for.
#[derive(Clone, Copy, Debug, PartialEq, Eq, Structural, Hash)]
pub struct TransactionItemAmount {
    pub amount: u64,
    pub fee: u64,
}

/// What a valid withdrawal is worth, and which key must have signed the
/// outer transaction.
#[derive(Clone, Copy, Debug, PartialEq, Eq, Structural, Hash)]
pub struct InputMeta {
    pub amount: TransactionItemAmount,
    pub puk_key: AccountId,
}

/// The balance after crediting a deposit.
pub open spec fn deposit_bal(b: AccountBalance, amount: u64) -> AccountBalance
    recommends
        b.total_spec() + amount <= u64::MAX,
{
    AccountBalance { unlocked: (b.unlocked + amount) as u64, locked: b.locked }
}

/// The balance after debiting a withdrawal.
pub open spec fn withdraw_bal(b: AccountBalance, amount: u64) -> AccountBalance
    recommends
        amount <= b.unlocked,
{
    AccountBalance { unlocked: (b.unlocked - amount) as u64, locked: b.locked }
}

/// Depositing then withdrawing the same amount restores the balance exactly.
pub proof fn lemma_deposit_withdraw_round_trip(b: AccountBalance, amount: u64)
    requires
        b.total_spec() + amount <= u64::MAX,
    ensures
        withdraw_bal(deposit_bal(b, amount), amount) == b,
{
}

impl PoolState {
    /// Validates a withdrawal: the account's unlocked balance must cover it.
    /// Pending seeker-lock actions staged for the next epoch are not
    /// reserved against the unlocked balance.
    pub fn validate_input(&self, withdrawal: &AccountWithdrawal) -> (r: Result<
        InputMeta,
        WithdrawalError,
    >)
        requires
            self.wf(),
        ensures
            r == if withdrawal.amount <= self.balance_of(withdrawal.account).unlocked {
                Result::<InputMeta, WithdrawalError>::Ok(
                    InputMeta {
                        amount: TransactionItemAmount { amount: withdrawal.amount, fee: 0u64 },
                        puk_key: withdrawal.account,
                    },
                )
            } else {
                Result::<InputMeta, WithdrawalError>::Err(
                    WithdrawalError::UnavailableFunds {
                        amount: withdrawal.amount,
                        available: self.balance_of(withdrawal.account).unlocked,
                    },
                )
            },
    {
        let available = match crate::table::tbl_find(&self.accounts, &withdrawal.account) {
            Some(b) => b.unlocked,
            None => 0,
        };
        if available < withdrawal.amount {
            Err(WithdrawalError::UnavailableFunds { amount: withdrawal.amount, available })
        } else {
            Ok(
                InputMeta {
                    amount: TransactionItemAmount { amount: withdrawal.amount, fee: 0 },
                    puk_key: withdrawal.account,
                },
            )
        }
    }

    /// Applies a withdrawal: re-validates, then debits the unlocked balance.
    /// On error nothing changes.
    pub fn apply_input(&mut self, withdrawal: &AccountWithdrawal) -> (r: Result<
        InputMeta,
        WithdrawalError,
    >)
        requires
            old(self).wf(),
        ensures
            final(self).wf(),
            r is Ok <==> withdrawal.amount <= old(self).balance_of(withdrawal.account).unlocked,
            r is Err ==> final(self).unchanged_from(*old(self)) && r == old(
                self,
            ).validate_input_result(withdrawal),
            r is Ok ==> {
                &&& r->Ok_0 == (InputMeta {
                    amount: TransactionItemAmount { amount: withdrawal.amount, fee: 0u64 },
                    puk_key: withdrawal.account,
                })
                &&& tbl_get(final(self).accounts@, withdrawal.account) == Some(
                    withdraw_bal(old(self).balance_of(withdrawal.account), withdrawal.amount),
                )
                &&& forall|a: AccountId|
                    a != withdrawal.account ==> tbl_get(final(self).accounts@, a) == tbl_get(
                        old(self).accounts@,
                        a,
                    )
                &&& sum_total(final(self).accounts@) == sum_total(old(self).accounts@)
                    - withdrawal.amount
                &&& final(self).deposits@ == old(self).deposits@
                &&& final(self).outcomes@ == old(self).outcomes@
                &&& final(self).last_ended == old(self).last_ended
                &&& final(self).last_settled == old(self).last_settled
                &&& final(self).votes@ == old(self).votes@
                &&& final(self).staged@ == old(self).staged@
            },
    {
        let meta = match self.validate_input(withdrawal) {
            Ok(m) => m,
            Err(e) => {
                return Err(e);
            },
        };
        let account = withdrawal.account;
        let bal = match crate::table::tbl_find(&self.accounts, &account) {
            Some(b) => *b,
            None => AccountBalance { unlocked: 0, locked: LockedBalance::Vacant },
        };
        let new_bal = AccountBalance {
            unlocked: bal.unlocked - withdrawal.amount,
            locked: bal.locked,
        };
        let ghost pre = self.accounts@;
        crate::table::tbl_set(&mut self.accounts, account, new_bal);
        proof {
            if crate::table::tbl_has(pre, account) {
                let i = tbl_idx(pre, account);
                crate::table::lemma_tbl_at(pre, i);
                crate::state::lemma_sum_total_update(pre, i, (account, new_bal));
            } else {
                crate::state::lemma_sum_total_push(pre, (account, new_bal));
            }
        }
        Ok(meta)
    }

    /// The result `validate_input` returns on this state.
    pub open spec fn validate_input_result(self, withdrawal: &AccountWithdrawal) -> Result<
        InputMeta,
        WithdrawalError,
    > {
        if withdrawal.amount <= self.balance_of(withdrawal.account).unlocked {
            Result::Ok(
                InputMeta {
                    amount: TransactionItemAmount { amount: withdrawal.amount, fee: 0u64 },
                    puk_key: withdrawal.account,
                },
            )
        } else {
            Result::Err(
                WithdrawalError::UnavailableFunds {
                    amount: withdrawal.amount,
                    available: self.balance_of(withdrawal.account).unlocked,
                },
            )
        }
    }

    /// Validates a deposit: adding it must not overflow the account's total.
    pub fn validate_output(&self, deposit: &AccountDeposit) -> (r: Result<
        TransactionItemAmount,
        StabilityPoolError,
    >)
        requires
            self.wf(),
        ensures
            r == if self.balance_of(deposit.account).total_spec() + deposit.amount <= u64::MAX {
                Result::<TransactionItemAmount, StabilityPoolError>::Ok(
                    TransactionItemAmount { amount: deposit.amount, fee: 0u64 },
                )
            } else {
                Result::<TransactionItemAmount, StabilityPoolError>::Err(
                    StabilityPoolError::DepositTooLarge,
                )
            },
    {
        let ok = match crate::table::tbl_find(&self.accounts, &deposit.account) {
            Some(b) => b.can_add_amount(deposit.amount),
            None => true,
        };
        if ok {
            Ok(TransactionItemAmount { amount: deposit.amount, fee: 0 })
        } else {
            Err(StabilityPoolError::DepositTooLarge)
        }
    }

    /// Applies a deposit at `outpoint`: re-validates, credits the unlocked
    /// balance and records which account the outpoint paid. The outpoint
    /// must be fresh; the host checks `output_status` before applying.
    pub fn apply_output(&mut self, deposit: &AccountDeposit, outpoint: OutPoint) -> (r: Result<
        TransactionItemAmount,
        StabilityPoolError,
    >)
        requires
            old(self).wf(),
            !tbl_has(old(self).deposits@, outpoint),
        ensures
            final(self).wf(),
            r is Ok <==> old(self).balance_of(deposit.account).total_spec() + deposit.amount
                <= u64::MAX,
            r is Err ==> final(self).unchanged_from(*old(self)) && r == Result::<
                TransactionItemAmount,
                StabilityPoolError,
            >::Err(StabilityPoolError::DepositTooLarge),
            r is Ok ==> {
                &&& r->Ok_0 == (TransactionItemAmount { amount: deposit.amount, fee: 0u64 })
                &&& tbl_get(final(self).accounts@, deposit.account) == Some(
                    deposit_bal(old(self).balance_of(deposit.account), deposit.amount),
                )
                &&& forall|a: AccountId|
                    a != deposit.account ==> tbl_get(final(self).accounts@, a) == tbl_get(
                        old(self).accounts@,
                        a,
                    )
                &&& sum_total(final(self).accounts@) == sum_total(old(self).accounts@)
                    + deposit.amount
                &&& tbl_get(final(self).deposits@, outpoint) == Some(deposit.account)
                &&& forall|o: OutPoint|
                    o != outpoint ==> tbl_get(final(self).deposits@, o) == tbl_get(
                        old(self).deposits@,
                        o,
                    )
                &&& final(self).outcomes@ == old(self).outcomes@
                &&& final(self).last_ended == old(self).last_ended
                &&& final(self).last_settled == old(self).last_settled
                &&& final(self).votes@ == old(self).votes@
                &&& final(self).staged@ == old(self).staged@
            },
    {
        let txo_amount = match self.validate_output(deposit) {
            Ok(a) => a,
            Err(e) => {
                return Err(e);
            },
        };
        let account = deposit.account;
        let bal = match crate::table::tbl_find(&self.accounts, &account) {
            Some(b) => *b,
            None => AccountBalance { unlocked: 0, locked: LockedBalance::Vacant },
        };
        let new_bal = AccountBalance {
            unlocked: bal.unlocked + deposit.amount,
            locked: bal.locked,
        };
        let ghost pre = self.accounts@;
        crate::table::tbl_set(&mut self.accounts, account, new_bal);
        proof {
            if crate::table::tbl_has(pre, account) {
                let i = tbl_idx(pre, account);
                crate::table::lemma_tbl_at(pre, i);
                crate::state::lemma_sum_total_update(pre, i, (account, new_bal));
            } else {
                crate::state::lemma_sum_total_push(pre, (account, new_bal));
            }
        }
        crate::table::tbl_set(&mut self.deposits, outpoint, account);
        Ok(txo_amount)
    }

    /// Which account a deposit outpoint credited, if it was applied.
    pub fn output_status(&self, outpoint: OutPoint) -> (r: Option<PoolOutputOutcome>)
        requires
            self.wf(),
        ensures
            r == match tbl_get(self.deposits@, outpoint) {
                Some(a) => Some(PoolOutputOutcome(a)),
                None => Option::<PoolOutputOutcome>::None,
            },
    {
        match crate::table::tbl_find(&self.deposits, &outpoint) {
            Some(a) => Some(PoolOutputOutcome(*a)),
            None => None,
        }
    }
}

} // verus!
