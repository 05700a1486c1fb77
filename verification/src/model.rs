//! The mathematical model of the ledger.
//!
//! [`LedgerView`] is the abstract state: a map of accounts, the clients in
//! order of first appearance, the stored transaction history, and the set
//! of transaction ids under dispute.  The `spec_*` functions below give
//! the exact transition each record kind performs; the executable ledger
//! is proved to implement them, and the laws of the crate are proved
//! about them.
//!
//! Design decisions this model pins down:
//! - Validation precedes mutation: a rejected record leaves the state
//!   untouched, whatever the reason of the rejection.  In particular a
//!   duplicate transaction id is detected before any balance moves.
//! - A chargeback requires the referenced transaction to be under
//!   dispute; otherwise it is rejected as `NotDisputed`.  A disputed id
//!   leaves the disputed set only through a successful resolve.
//! - Dispute, resolve and chargeback act on the account named by the
//!   current record's `client_id`, which need not be the account that
//!   owns the referenced transaction.  A hardened policy could instead
//!   re-derive the owner from the stored record; this model keeps the
//!   reference behaviour and states it openly here.
//! - Balances are `i64` fixed-point values; a record whose effect would
//!   leave that range is rejected as `BalanceOverflow`.

use vstd::prelude::*;

use crate::account::Account;
use crate::errors::ErrorKind;
use crate::transaction::TransactionRecord;
use crate::transaction::TransactionType;

verus! {

/// The abstract state of a ledger.
#[verifier::ext_equal]
pub struct LedgerView {
    /// One account per client id seen by a successful deposit.
    pub accounts: Map<u16, Account>,
    /// The account ids in order of first appearance, without duplicates.
    pub clients: Seq<u16>,
    /// The stored history: every successfully applied deposit and
    /// withdrawal, keyed by its transaction id.
    pub txs: Map<u32, TransactionRecord>,
    /// The transaction ids currently under dispute.
    pub disputed: Set<u32>,
}

impl LedgerView {
    /// The state before any record was applied.
    pub open spec fn empty() -> LedgerView {
        LedgerView {
            accounts: Map::empty(),
            clients: Seq::empty(),
            txs: Map::empty(),
            disputed: Set::empty(),
        }
    }

    /// Well-formedness, preserved by every transition:
    /// accounts are keyed by their own id and balanced; stored records
    /// are keyed by their own id, carry an amount, and are deposits or
    /// withdrawals; disputed ids reference stored records; and `clients`
    /// lists exactly the account keys, each once.
    pub open spec fn inv(self) -> bool {
        &&& forall|c: u16|
            #[trigger] self.accounts.contains_key(c) ==> self.accounts[c].id == c
                && self.accounts[c].balanced()
        &&& forall|t: u32|
            #[trigger] self.txs.contains_key(t) ==> self.txs[t].tx_id == t
                && self.txs[t].amount is Some && (self.txs[t].tx_type is Deposit
                || self.txs[t].tx_type is Withdrawal)
        &&& forall|t: u32| #[trigger] self.disputed.contains(t) ==> self.txs.contains_key(t)
        &&& self.clients.no_duplicates()
        &&& forall|i: int|
            0 <= i < self.clients.len() ==> self.accounts.contains_key(#[trigger] self.clients[i])
        &&& forall|c: u16| #[trigger] self.accounts.contains_key(c) ==> self.clients.contains(c)
    }
}

/// The account for `c`, or a fresh one where none exists yet.
pub open spec fn account_or_new(l: LedgerView, c: u16) -> Account {
    if l.accounts.contains_key(c) {
        l.accounts[c]
    } else {
        Account::spec_new(c)
    }
}

/// `l` with account `a` written back under its own id; a client id not
/// seen before is appended to the client order.
pub open spec fn with_account(l: LedgerView, a: Account) -> LedgerView {
    LedgerView {
        accounts: l.accounts.insert(a.id, a),
        clients: if l.accounts.contains_key(a.id) {
            l.clients
        } else {
            l.clients.push(a.id)
        },
        txs: l.txs,
        disputed: l.disputed,
    }
}

/// `l` with record `r` stored in the history under its transaction id.
pub open spec fn with_stored(l: LedgerView, r: TransactionRecord) -> LedgerView {
    LedgerView {
        accounts: l.accounts,
        clients: l.clients,
        txs: l.txs.insert(r.tx_id, r),
        disputed: l.disputed,
    }
}

/// A deposit: credits `amount` to the named account, creating it first
/// where it does not exist, and stores the record.  Rejected when the
/// amount is absent, the account is frozen, the transaction id is
/// already stored, or a balance would leave the `i64` range.
pub open spec fn spec_deposit(l: LedgerView, r: TransactionRecord) -> (LedgerView, Result<
    (),
    ErrorKind,
>) {
    if r.amount is None {
        (l, Err(ErrorKind::MissingAmount))
    } else {
        let a = r.amount->0;
        let acct = account_or_new(l, r.client_id);
        if acct.frozen {
            (l, Err(ErrorKind::AccountFrozen))
        } else if l.txs.contains_key(r.tx_id) {
            (l, Err(ErrorKind::DuplicateTransactionId))
        } else if acct.available + a > i64::MAX || acct.total + a > i64::MAX {
            (l, Err(ErrorKind::BalanceOverflow))
        } else {
            let acct2 = Account {
                id: acct.id,
                available: (acct.available + a) as i64,
                held: acct.held,
                total: (acct.total + a) as i64,
                frozen: acct.frozen,
            };
            (with_stored(with_account(l, acct2), r), Ok(()))
        }
    }
}

/// A withdrawal: debits `amount` from an existing, unfrozen account with
/// sufficient available funds, and stores the record.  Rejected when the
/// amount is absent, the account is unknown or frozen, the available
/// balance is short, the transaction id is already stored, or a balance
/// would leave the `i64` range.
pub open spec fn spec_withdrawal(l: LedgerView, r: TransactionRecord) -> (LedgerView, Result<
    (),
    ErrorKind,
>) {
    if r.amount is None {
        (l, Err(ErrorKind::MissingAmount))
    } else {
        let a = r.amount->0;
        if !l.accounts.contains_key(r.client_id) {
            (l, Err(ErrorKind::UnknownAccount))
        } else {
            let acct = l.accounts[r.client_id];
            if acct.frozen {
                (l, Err(ErrorKind::AccountFrozen))
            } else if acct.available < a {
                (l, Err(ErrorKind::InsufficientFunds))
            } else if l.txs.contains_key(r.tx_id) {
                (l, Err(ErrorKind::DuplicateTransactionId))
            } else if acct.total - a < i64::MIN {
                (l, Err(ErrorKind::BalanceOverflow))
            } else {
                let acct2 = Account {
                    id: acct.id,
                    available: (acct.available - a) as i64,
                    held: acct.held,
                    total: (acct.total - a) as i64,
                    frozen: acct.frozen,
                };
                (with_stored(with_account(l, acct2), r), Ok(()))
            }
        }
    }
}

/// A dispute: moves the referenced record's amount from `available` to
/// `held` on the named account and marks the id disputed; `total` does
/// not change.  Rejected when the referenced transaction is unknown,
/// carries no amount, the named account is unknown, or a balance would
/// leave the `i64` range.  A transaction already under dispute may be
/// disputed again, and each successful dispute moves the amount again,
/// as the reference behaviour does.
pub open spec fn spec_dispute(l: LedgerView, r: TransactionRecord) -> (LedgerView, Result<
    (),
    ErrorKind,
>) {
    if !l.txs.contains_key(r.tx_id) {
        (l, Err(ErrorKind::UnknownTransaction))
    } else {
        let tx = l.txs[r.tx_id];
        if tx.amount is None {
            (l, Err(ErrorKind::MissingAmount))
        } else {
            let a = tx.amount->0;
            if !l.accounts.contains_key(r.client_id) {
                (l, Err(ErrorKind::UnknownAccount))
            } else {
                let acct = l.accounts[r.client_id];
                if acct.available - a < i64::MIN || acct.held + a > i64::MAX {
                    (l, Err(ErrorKind::BalanceOverflow))
                } else {
                    let acct2 = Account {
                        id: acct.id,
                        available: (acct.available - a) as i64,
                        held: (acct.held + a) as i64,
                        total: acct.total,
                        frozen: acct.frozen,
                    };
                    let l2 = with_account(l, acct2);
                    (
                        LedgerView {
                            accounts: l2.accounts,
                            clients: l2.clients,
                            txs: l2.txs,
                            disputed: l2.disputed.insert(r.tx_id),
                        },
                        Ok(()),
                    )
                }
            }
        }
    }
}

/// A resolve: reverses a dispute, moving the referenced record's amount
/// from `held` back to `available` on the named account and clearing the
/// id from the disputed set; `total` does not change.  Rejected when the
/// referenced transaction is unknown or not disputed, carries no amount,
/// the named account is unknown, or a balance would leave the `i64`
/// range.
pub open spec fn spec_resolve(l: LedgerView, r: TransactionRecord) -> (LedgerView, Result<
    (),
    ErrorKind,
>) {
    if !l.txs.contains_key(r.tx_id) {
        (l, Err(ErrorKind::UnknownTransaction))
    } else if !l.disputed.contains(r.tx_id) {
        (l, Err(ErrorKind::NotDisputed))
    } else {
        let tx = l.txs[r.tx_id];
        if tx.amount is None {
            (l, Err(ErrorKind::MissingAmount))
        } else {
            let a = tx.amount->0;
            if !l.accounts.contains_key(r.client_id) {
                (l, Err(ErrorKind::UnknownAccount))
            } else {
                let acct = l.accounts[r.client_id];
                if acct.held - a < i64::MIN || acct.available + a > i64::MAX {
                    (l, Err(ErrorKind::BalanceOverflow))
                } else {
                    let acct2 = Account {
                        id: acct.id,
                        available: (acct.available + a) as i64,
                        held: (acct.held - a) as i64,
                        total: acct.total,
                        frozen: acct.frozen,
                    };
                    let l2 = with_account(l, acct2);
                    (
                        LedgerView {
                            accounts: l2.accounts,
                            clients: l2.clients,
                            txs: l2.txs,
                            disputed: l2.disputed.remove(r.tx_id),
                        },
                        Ok(()),
                    )
                }
            }
        }
    }
}

/// A chargeback: finalizes a dispute against the client, removing the
/// referenced record's amount from `held` and from `total` and freezing
/// the account permanently.  The id stays in the disputed set: it leaves
/// that set only through a successful resolve.  Rejected when the
/// referenced transaction is unknown or not disputed, carries no amount,
/// the named account is unknown, or a balance would leave the `i64`
/// range.
pub open spec fn spec_chargeback(l: LedgerView, r: TransactionRecord) -> (LedgerView, Result<
    (),
    ErrorKind,
>) {
    if !l.txs.contains_key(r.tx_id) {
        (l, Err(ErrorKind::UnknownTransaction))
    } else if !l.disputed.contains(r.tx_id) {
        (l, Err(ErrorKind::NotDisputed))
    } else {
        let tx = l.txs[r.tx_id];
        if tx.amount is None {
            (l, Err(ErrorKind::MissingAmount))
        } else {
            let a = tx.amount->0;
            if !l.accounts.contains_key(r.client_id) {
                (l, Err(ErrorKind::UnknownAccount))
            } else {
                let acct = l.accounts[r.client_id];
                if acct.held - a < i64::MIN || acct.total - a < i64::MIN {
                    (l, Err(ErrorKind::BalanceOverflow))
                } else {
                    let acct2 = Account {
                        id: acct.id,
                        available: acct.available,
                        held: (acct.held - a) as i64,
                        total: (acct.total - a) as i64,
                        frozen: true,
                    };
                    (with_account(l, acct2), Ok(()))
                }
            }
        }
    }
}

/// Dispatch on the record kind.
pub open spec fn spec_apply(l: LedgerView, r: TransactionRecord) -> (LedgerView, Result<
    (),
    ErrorKind,
>) {
    match r.tx_type {
        TransactionType::Deposit => spec_deposit(l, r),
        TransactionType::Withdrawal => spec_withdrawal(l, r),
        TransactionType::Dispute => spec_dispute(l, r),
        TransactionType::Resolve => spec_resolve(l, r),
        TransactionType::Chargeback => spec_chargeback(l, r),
    }
}

/// The state after folding the whole record sequence, in order, over `l`.
/// Rejected records leave the state unchanged; processing continues.
pub open spec fn spec_apply_all(l: LedgerView, rs: Seq<TransactionRecord>) -> LedgerView
    decreases rs.len(),
{
    if rs.len() == 0 {
        l
    } else {
        spec_apply(spec_apply_all(l, rs.drop_last()), rs.last()).0
    }
}

} // verus!
