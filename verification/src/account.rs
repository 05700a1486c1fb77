//! Client accounts and their balance invariant.

use vstd::prelude::*;

verus! {

/// A client's account.
///
/// Balances are fixed-point values counted in units of 1/10000, so four
/// fractional digits are represented exactly.  `total` is maintained as
/// `available + held` by every ledger operation, never recomputed.
/// `frozen` is set permanently by a chargeback; a frozen account accepts
/// no further deposits or withdrawals.
#[derive(Clone, Copy, Debug, PartialEq, Eq, Structural)]
pub struct Account {
    /// The client id this account belongs to.
    pub id: u16,
    /// Funds usable for withdrawal, in 1/10000 units.
    pub available: i64,
    /// Funds locked by active disputes, in 1/10000 units.
    pub held: i64,
    /// Full balance: always `available + held`, in 1/10000 units.
    pub total: i64,
    /// True after a chargeback; blocks deposits and withdrawals.
    pub frozen: bool,
}

impl Account {
    /// The balance invariant: the full balance is the sum of its parts.
    pub open spec fn balanced(self) -> bool {
        self.total == self.available + self.held
    }

    /// A fresh account for `id`: all balances zero, not frozen.
    pub open spec fn spec_new(id: u16) -> Account {
        Account { id, available: 0, held: 0, total: 0, frozen: false }
    }

    /// Creates a fresh, zero-balance, unfrozen account for `id`.
    pub fn new(id: u16) -> (a: Account)
        ensures
            a == Account::spec_new(id),
    {
        Account { id, available: 0, held: 0, total: 0, frozen: false }
    }
}

} // verus!
