//! Transaction records, the input of the ledger.

use vstd::prelude::*;

verus! {

/// The five kinds of transaction a record can carry.
#[derive(Clone, Copy, Debug, PartialEq, Eq, Structural)]
pub enum TransactionType {
    Deposit,
    Withdrawal,
    Dispute,
    Resolve,
    Chargeback,
}

/// One input record.
///
/// For deposits and withdrawals `tx_id` identifies the record itself and
/// `amount` carries the moved funds in 1/10000 units.  For dispute,
/// resolve and chargeback records `tx_id` instead references a previously
/// stored deposit or withdrawal, and `amount` is absent.
#[derive(Clone, Copy, Debug)]
pub struct TransactionRecord {
    /// What operation to perform on the client's account.
    pub tx_type: TransactionType,
    /// The client account the record names.
    pub client_id: u16,
    /// The transaction id: own id for deposit/withdrawal, a reference
    /// to an earlier one for dispute/resolve/chargeback.
    pub tx_id: u32,
    /// Moved funds in 1/10000 units; absent where the input field was
    /// blank or not a valid non-negative decimal.
    pub amount: Option<u64>,
}

} // verus!
