//! Classified per-record failures.

use vstd::prelude::*;

verus! {

/// Why the ledger rejected a record.
///
/// A rejection is local: the ledger's state is left untouched by the
/// failed record, and processing may continue with the next one.
#[derive(Clone, Copy, Debug, PartialEq, Eq, Structural)]
pub enum ErrorKind {
    /// A deposit or withdrawal came without a usable amount, or a
    /// dispute referenced a stored record without one.
    MissingAmount,
    /// The account is frozen by an earlier chargeback.
    AccountFrozen,
    /// The record names a client with no account.
    UnknownAccount,
    /// A withdrawal asked for more than the available balance.
    InsufficientFunds,
    /// A deposit or withdrawal reused the transaction id of a stored
    /// record; the stored record is preserved unchanged.
    DuplicateTransactionId,
    /// A dispute, resolve or chargeback referenced a transaction id
    /// that no stored record carries.
    UnknownTransaction,
    /// A resolve or chargeback referenced a transaction that is not
    /// currently under dispute.
    NotDisputed,
    /// Applying the record would push a balance outside the range a
    /// 64-bit fixed-point integer can hold.
    BalanceOverflow,
}

} // verus!
