//! The laws of the ledger, stated and proved over the model.

use vstd::prelude::*;

use crate::account::Account;
use crate::model::account_or_new;
use crate::model::spec_apply;
use crate::model::spec_apply_all;
use crate::model::spec_deposit;
use crate::model::with_account;
use crate::model::with_stored;
use crate::model::LedgerView;
use crate::transaction::TransactionRecord;
use crate::transaction::TransactionType;

verus! {

/// Writing back a balanced account preserves well-formedness.
proof fn lemma_with_account_inv(l: LedgerView, a: Account)
    requires
        l.inv(),
        a.balanced(),
    ensures
        with_account(l, a).inv(),
{
    let l2 = with_account(l, a);
    if l.accounts.contains_key(a.id) {
        assert(forall|c: u16|
            #[trigger] l2.accounts.contains_key(c) ==> l.accounts.contains_key(c));
    } else {
        assert forall|i: int, j: int|
            0 <= i < l2.clients.len() && 0 <= j < l2.clients.len() && i != j implies l2.clients[i]
            != l2.clients[j] by {
            if i < l.clients.len() && j < l.clients.len() {
                assert(l.clients[i] != l.clients[j]);
            } else if j == l.clients.len() {
                assert(l.accounts.contains_key(l.clients[i]));
            } else {
                assert(l.accounts.contains_key(l.clients[j]));
            }
        }
        assert forall|c: u16| #[trigger] l2.accounts.contains_key(c) implies l2.clients.contains(
            c,
        ) by {
            if c == a.id {
                assert(l2.clients[l.clients.len() as int] == c);
            } else {
                let i = choose|i: int| 0 <= i < l.clients.len() && l.clients[i] == c;
                assert(l2.clients[i] == c);
            }
        }
    }
}

/// Storing a well-shaped deposit or withdrawal record preserves
/// well-formedness.
proof fn lemma_with_stored_inv(l: LedgerView, r: TransactionRecord)
    requires
        l.inv(),
        r.amount is Some,
        r.tx_type is Deposit || r.tx_type is Withdrawal,
    ensures
        with_stored(l, r).inv(),
{
}

/// Applying any record preserves well-formedness of the ledger state;
/// in particular `total == available + held` holds of every account
/// after every record, applied or rejected.
pub proof fn lemma_apply_preserves_inv(l: LedgerView, r: TransactionRecord)
    requires
        l.inv(),
    ensures
        spec_apply(l, r).0.inv(),
{
    match r.tx_type {
        TransactionType::Deposit => {
            if r.amount is Some {
                let a = r.amount->0;
                let acct = account_or_new(l, r.client_id);
                if !acct.frozen && !l.txs.contains_key(r.tx_id) && acct.available + a <= i64::MAX
                    && acct.total + a <= i64::MAX {
                    let acct2 = Account {
                        id: acct.id,
                        available: (acct.available + a) as i64,
                        held: acct.held,
                        total: (acct.total + a) as i64,
                        frozen: acct.frozen,
                    };
                    lemma_with_account_inv(l, acct2);
                    lemma_with_stored_inv(with_account(l, acct2), r);
                }
            }
        },
        TransactionType::Withdrawal => {
            if r.amount is Some && l.accounts.contains_key(r.client_id) {
                let a = r.amount->0;
                let acct = l.accounts[r.client_id];
                if !acct.frozen && acct.available >= a && !l.txs.contains_key(r.tx_id)
                    && acct.total - a >= i64::MIN {
                    let acct2 = Account {
                        id: acct.id,
                        available: (acct.available - a) as i64,
                        held: acct.held,
                        total: (acct.total - a) as i64,
                        frozen: acct.frozen,
                    };
                    lemma_with_account_inv(l, acct2);
                    lemma_with_stored_inv(with_account(l, acct2), r);
                }
            }
        },
        TransactionType::Dispute => {
            if l.txs.contains_key(r.tx_id) && l.txs[r.tx_id].amount is Some
                && l.accounts.contains_key(r.client_id) {
                let a = l.txs[r.tx_id].amount->0;
                let acct = l.accounts[r.client_id];
                if acct.available - a >= i64::MIN && acct.held + a <= i64::MAX {
                    let acct2 = Account {
                        id: acct.id,
                        available: (acct.available - a) as i64,
                        held: (acct.held + a) as i64,
                        total: acct.total,
                        frozen: acct.frozen,
                    };
                    lemma_with_account_inv(l, acct2);
                }
            }
        },
        TransactionType::Resolve => {
            if l.txs.contains_key(r.tx_id) && l.disputed.contains(r.tx_id) && l.txs[r.tx_id].amount
                is Some && l.accounts.contains_key(r.client_id) {
                let a = l.txs[r.tx_id].amount->0;
                let acct = l.accounts[r.client_id];
                if acct.held - a >= i64::MIN && acct.available + a <= i64::MAX {
                    let acct2 = Account {
                        id: acct.id,
                        available: (acct.available + a) as i64,
                        held: (acct.held - a) as i64,
                        total: acct.total,
                        frozen: acct.frozen,
                    };
                    lemma_with_account_inv(l, acct2);
                }
            }
        },
        TransactionType::Chargeback => {
            if l.txs.contains_key(r.tx_id) && l.disputed.contains(r.tx_id) && l.txs[r.tx_id].amount
                is Some && l.accounts.contains_key(r.client_id) {
                let a = l.txs[r.tx_id].amount->0;
                let acct = l.accounts[r.client_id];
                if acct.held - a >= i64::MIN && acct.total - a >= i64::MIN {
                    let acct2 = Account {
                        id: acct.id,
                        available: acct.available,
                        held: (acct.held - a) as i64,
                        total: (acct.total - a) as i64,
                        frozen: true,
                    };
                    lemma_with_account_inv(l, acct2);
                }
            }
        },
    }
}

/// Every account holds no disputed funds: the shape a ledger keeps as
/// long as only deposits are applied.
pub open spec fn deposits_only_shape(l: LedgerView) -> bool {
    forall|c: u16|
        #[trigger] l.accounts.contains_key(c) ==> l.accounts[c].held == 0 && l.accounts[c].total
            == l.accounts[c].available
}

/// For a sequence of deposits only, applied to the empty ledger, every
/// account ends with `held == 0` and `total == available`.
pub proof fn lemma_deposits_only(rs: Seq<TransactionRecord>)
    requires
        forall|i: int| 0 <= i < rs.len() ==> (#[trigger] rs[i]).tx_type is Deposit,
    ensures
        deposits_only_shape(spec_apply_all(LedgerView::empty(), rs)),
    decreases rs.len(),
{
    if rs.len() > 0 {
        lemma_deposits_only(rs.drop_last());
        let l = spec_apply_all(LedgerView::empty(), rs.drop_last());
        let r = rs.last();
        assert(r.tx_type is Deposit);
        if spec_deposit(l, r).1 is Ok {
            let acct = account_or_new(l, r.client_id);
            assert(acct.held == 0 && acct.total == acct.available);
        }
    }
}

/// A rejected record leaves the ledger state exactly as it was: every
/// handler validates before it mutates.
pub proof fn lemma_rejected_leaves_state_unchanged(l: LedgerView, r: TransactionRecord)
    ensures
        spec_apply(l, r).1 is Err ==> spec_apply(l, r).0 == l,
{
}

/// A withdrawal succeeds only on an existing account with at least the
/// withdrawn amount available; on any rejection the state is unchanged.
pub proof fn lemma_withdrawal_needs_funds(l: LedgerView, r: TransactionRecord)
    requires
        r.tx_type is Withdrawal,
    ensures
        spec_apply(l, r).1 is Ok ==> r.amount is Some && l.accounts.contains_key(r.client_id)
            && l.accounts[r.client_id].available >= r.amount->0,
        spec_apply(l, r).1 is Err ==> spec_apply(l, r).0 == l,
{
}

/// A successful dispute moves exactly the referenced record's amount
/// from `available` to `held` on the named account, leaves its `total`
/// and every other part of the state alone, and marks the id disputed.
pub proof fn lemma_dispute_moves_amount(l: LedgerView, r: TransactionRecord)
    requires
        l.inv(),
        r.tx_type is Dispute,
        spec_apply(l, r).1 is Ok,
    ensures
        l.txs.contains_key(r.tx_id),
        l.accounts.contains_key(r.client_id),
        ({
            let l1 = spec_apply(l, r).0;
            let a = l.txs[r.tx_id].amount->0;
            let c = r.client_id;
            &&& l1.accounts[c].available == l.accounts[c].available - a
            &&& l1.accounts[c].held == l.accounts[c].held + a
            &&& l1.accounts[c].total == l.accounts[c].total
            &&& l1.accounts[c].frozen == l.accounts[c].frozen
            &&& forall|c2: u16|
                c2 != c ==> (#[trigger] l1.accounts.contains_key(c2) == l.accounts.contains_key(c2)
                    && (l.accounts.contains_key(c2) ==> l1.accounts[c2] == l.accounts[c2]))
            &&& l1.clients == l.clients
            &&& l1.txs == l.txs
            &&& l1.disputed == l.disputed.insert(r.tx_id)
        }),
{
}

/// A matching resolve exactly reverses the move of a successful dispute:
/// applied directly after it, it succeeds and restores the state that
/// held before the dispute.
pub proof fn lemma_resolve_reverses_dispute(
    l: LedgerView,
    rd: TransactionRecord,
    rr: TransactionRecord,
)
    requires
        l.inv(),
        rd.tx_type is Dispute,
        rr.tx_type is Resolve,
        rr.tx_id == rd.tx_id,
        rr.client_id == rd.client_id,
        !l.disputed.contains(rd.tx_id),
        spec_apply(l, rd).1 is Ok,
    ensures
        spec_apply(spec_apply(l, rd).0, rr).1 is Ok,
        spec_apply(spec_apply(l, rd).0, rr).0 == l,
{
    let l1 = spec_apply(l, rd).0;
    let l2 = spec_apply(l1, rr).0;
    assert(l2.accounts =~= l.accounts);
    assert(l2.disputed =~= l.disputed);
    assert(l2 =~= l);
}

/// A successful chargeback removes exactly the referenced record's
/// amount from `held` and from `total`, leaves `available` alone, and
/// freezes the account.
pub proof fn lemma_chargeback_removes_and_freezes(l: LedgerView, r: TransactionRecord)
    requires
        l.inv(),
        r.tx_type is Chargeback,
        spec_apply(l, r).1 is Ok,
    ensures
        l.txs.contains_key(r.tx_id),
        l.accounts.contains_key(r.client_id),
        ({
            let l1 = spec_apply(l, r).0;
            let a = l.txs[r.tx_id].amount->0;
            let c = r.client_id;
            &&& l1.accounts[c].held == l.accounts[c].held - a
            &&& l1.accounts[c].total == l.accounts[c].total - a
            &&& l1.accounts[c].available == l.accounts[c].available
            &&& l1.accounts[c].frozen
        }),
{
}

/// Deposits and withdrawals on a frozen account are rejected and leave
/// the state, balances included, unchanged.
pub proof fn lemma_frozen_rejects(l: LedgerView, r: TransactionRecord)
    requires
        l.accounts.contains_key(r.client_id),
        l.accounts[r.client_id].frozen,
        r.tx_type is Deposit || r.tx_type is Withdrawal,
    ensures
        spec_apply(l, r).1 is Err,
        spec_apply(l, r).0 == l,
{
}

/// A second deposit reusing the transaction id of a successfully
/// applied one is rejected and leaves the first one's effect standing.
/// Where the second record carries an amount and does not hit a frozen
/// account first, the rejection is `DuplicateTransactionId` itself.
pub proof fn lemma_duplicate_deposit_rejected(
    l: LedgerView,
    r1: TransactionRecord,
    r2: TransactionRecord,
)
    requires
        r1.tx_type is Deposit,
        r2.tx_type is Deposit,
        r2.tx_id == r1.tx_id,
        spec_apply(l, r1).1 is Ok,
    ensures
        spec_apply(spec_apply(l, r1).0, r2).1 is Err,
        spec_apply(spec_apply(l, r1).0, r2).0 == spec_apply(l, r1).0,
        r2.amount is Some && !account_or_new(spec_apply(l, r1).0, r2.client_id).frozen ==> spec_apply(
            spec_apply(l, r1).0,
            r2,
        ).1 == Err::<(), crate::errors::ErrorKind>(crate::errors::ErrorKind::DuplicateTransactionId),
{
}

/// Well-formedness holds after folding any record sequence over a
/// well-formed state.
pub proof fn lemma_apply_all_preserves_inv(l: LedgerView, rs: Seq<TransactionRecord>)
    requires
        l.inv(),
    ensures
        spec_apply_all(l, rs).inv(),
    decreases rs.len(),
{
    if rs.len() > 0 {
        lemma_apply_all_preserves_inv(l, rs.drop_last());
        lemma_apply_preserves_inv(spec_apply_all(l, rs.drop_last()), rs.last());
    }
}

} // verus!
