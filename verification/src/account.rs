//! Per-account balances: free msats plus at most one locked pool position.

use vstd::prelude::*;
use crate::words::AccountId;

verus! {

/// A request to credit `amount` msats to `account`'s unlocked balance.
#[derive(Clone, Copy, Debug, PartialEq, Eq, Structural, Hash)]
pub struct AccountDeposit {
    pub account: AccountId,
    pub amount: u64,
}

/// A request to spend `amount` msats from `account`'s unlocked balance,
/// authorized by a Schnorr signature of `account` over the outer transaction.
#[derive(Clone, Copy, Debug, PartialEq, Eq, Structural, Hash)]
pub struct AccountWithdrawal {
    pub account: AccountId,
    pub amount: u64,
}

/// The side and size of an account's locked position, if any.
///
/// A position is opened only at epoch settlement, when staged actions are
/// promoted, and is emptied again when the next settlement pays it out.
#[derive(Clone, Copy, Debug, PartialEq, Eq, Structural, Hash)]
pub enum LockedBalance {
    /// Locked as a seeker position of the given msat value.
    Seeker(u64),
    /// Locked as provider collateral of the given msat value.
    Provider(u64),
    /// Nothing is locked.
    Vacant,
}

impl LockedBalance {
    /// The locked msat value, whichever side holds it.
    pub open spec fn amount_spec(self) -> u64 {
        match self {
            LockedBalance::Seeker(a) => a,
            LockedBalance::Provider(a) => a,
            LockedBalance::Vacant => 0u64,
        }
    }

    /// The locked msat value, whichever side holds it.
    pub fn amount(self) -> (r: u64)
        ensures
            r == self.amount_spec(),
    {
        match self {
            LockedBalance::Seeker(a) => a,
            LockedBalance::Provider(a) => a,
            LockedBalance::Vacant => 0,
        }
    }
}

/// An account's balance: freely spendable msats plus the locked position.
#[derive(Clone, Copy, Debug, PartialEq, Eq, Structural, Hash)]
pub struct AccountBalance {
    pub unlocked: u64,
    pub locked: LockedBalance,
}

impl AccountBalance {
    /// Unlocked plus locked msats, as an unbounded integer.
    pub open spec fn total_spec(self) -> int {
        self.unlocked + self.locked.amount_spec()
    }

    /// Whether unlocked plus locked msats fit in a `u64`.
    pub open spec fn total_fits(self) -> bool {
        self.total_spec() <= u64::MAX
    }

    /// Total balance; `None` exactly when unlocked plus locked overflows.
    pub fn total_balance(&self) -> (r: Option<u64>)
        ensures
            self.total_fits() ==> r == Some((self.unlocked + self.locked.amount_spec()) as u64),
            !self.total_fits() ==> r is None,
    {
        self.unlocked.checked_add(self.locked.amount())
    }

    /// Whether `amount` more msats can be added without overflowing the total.
    pub fn can_add_amount(&self, amount: u64) -> (r: bool)
        ensures
            r == (self.total_spec() + amount <= u64::MAX),
    {
        match self.unlocked.checked_add(self.locked.amount()) {
            Some(total) => match total.checked_add(amount) {
                Some(_) => true,
                None => false,
            },
            None => false,
        }
    }
}

impl Default for AccountBalance {
    /// A fresh account holds nothing.
    fn default() -> (r: Self)
        ensures
            r.unlocked == 0u64,
            r.locked == LockedBalance::Vacant,
    {
        AccountBalance { unlocked: 0, locked: LockedBalance::Vacant }
    }
}

} // verus!
