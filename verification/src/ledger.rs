//! The executable ledger, proved against the model in [`crate::model`].

use vstd::prelude::*;

use std::collections::HashMap;

use crate::account::Account;
use crate::errors::ErrorKind;
use crate::laws::lemma_apply_preserves_inv;
use crate::model::spec_apply;
use crate::model::spec_apply_all;
use crate::model::spec_chargeback;
use crate::model::spec_deposit;
use crate::model::spec_dispute;
use crate::model::spec_resolve;
use crate::model::spec_withdrawal;
use crate::model::LedgerView;
use crate::transaction::TransactionRecord;
use crate::transaction::TransactionType;

verus! {

broadcast use vstd::std_specs::hash::group_hash_axioms;

/// Manages client accounts, tracks the stored transaction records and
/// handles the dispute lifecycle.
///
/// Its abstract state is a [`LedgerView`]; every operation is proved to
/// perform exactly the transition the model gives for it.
pub struct Ledger {
    /// Maps client ids to their accounts.
    accounts: HashMap<u16, Account>,
    /// The account ids in order of first appearance.
    clients: Vec<u16>,
    /// Maps transaction ids to their stored records.
    txs: HashMap<u32, TransactionRecord>,
    /// Transactions currently under dispute.
    disputed: HashMap<u32, ()>,
}

impl View for Ledger {
    type V = LedgerView;

    closed spec fn view(&self) -> LedgerView {
        LedgerView {
            accounts: self.accounts@,
            clients: self.clients@,
            txs: self.txs@,
            disputed: self.disputed@.dom(),
        }
    }
}

impl Ledger {
    /// Well-formedness: the abstract state satisfies the model's
    /// invariant.  Established by [`Ledger::new`] and preserved by every
    /// operation.
    pub open spec fn wf(self) -> bool {
        self@.inv()
    }

    /// Creates a new, empty ledger.
    pub fn new() -> (l: Ledger)
        ensures
            l.wf(),
            l@ == LedgerView::empty(),
    {
        let l = Ledger {
            accounts: HashMap::new(),
            clients: Vec::new(),
            txs: HashMap::new(),
            disputed: HashMap::new(),
        };
        proof {
            assert(l@ =~= LedgerView::empty());
        }
        l
    }

    /// Applies one record: the single entry point of the ledger.
    ///
    /// A returned error is local: the state is exactly what it was
    /// before the failed record, and the caller may go on with the next
    /// record.
    pub fn apply(&mut self, r: TransactionRecord) -> (res: Result<(), ErrorKind>)
        requires
            old(self).wf(),
        ensures
            final(self).wf(),
            final(self)@ == spec_apply(old(self)@, r).0,
            res == spec_apply(old(self)@, r).1,
    {
        proof {
            lemma_apply_preserves_inv(old(self)@, r);
        }
        match r.tx_type {
            TransactionType::Deposit => self.deposit(r),
            TransactionType::Withdrawal => self.withdrawal(r),
            TransactionType::Dispute => self.dispute(r),
            TransactionType::Resolve => self.resolve(r),
            TransactionType::Chargeback => self.chargeback(r),
        }
    }

    /// Applies a whole record sequence in order, skipping over rejected
    /// records, as the processing loop of a run does.  This is the
    /// lenient policy; a caller that wants to stop at the first failure
    /// applies records one at a time through [`Ledger::apply`] instead,
    /// which reports each rejection.
    pub fn apply_all(&mut self, rs: &Vec<TransactionRecord>)
        requires
            old(self).wf(),
        ensures
            final(self).wf(),
            final(self)@ == spec_apply_all(old(self)@, rs@),
    {
        let ghost l0 = self@;
        let n = rs.len();
        let mut i: usize = 0;
        while i < n
            invariant
                n == rs@.len(),
                i <= n,
                self.wf(),
                self@ == spec_apply_all(l0, rs@.take(i as int)),
            decreases n - i,
        {
            let _ = self.apply(rs[i]);
            proof {
                assert(rs@.take(i + 1 as int).drop_last() =~= rs@.take(i as int));
                assert(rs@.take(i + 1 as int).last() == rs@[i as int]);
            }
            i = i + 1;
        }
        proof {
            assert(rs@.take(n as int) =~= rs@);
        }
    }

    /// The account of `client`, if one exists.
    pub fn account(&self, client: u16) -> (r: Option<Account>)
        ensures
            r == if self@.accounts.contains_key(client) {
                Some(self@.accounts[client])
            } else {
                None::<Account>
            },
    {
        match self.accounts.get(&client) {
            Some(a) => Some(*a),
            None => None,
        }
    }

    /// All accounts, one per client, in order of first appearance.
    pub fn accounts_in_order(&self) -> (v: Vec<Account>)
        requires
            self.wf(),
        ensures
            v@.len() == self@.clients.len(),
            forall|i: int| 0 <= i < v@.len() ==> v@[i] == self@.accounts[self@.clients[i]],
    {
        let n = self.clients.len();
        let mut v: Vec<Account> = Vec::new();
        let mut i: usize = 0;
        while i < n
            invariant
                n == self@.clients.len(),
                i <= n,
                self.wf(),
                v@.len() == i,
                forall|j: int| 0 <= j < i ==> v@[j] == self@.accounts[self@.clients[j]],
            decreases n - i,
        {
            let c = self.clients[i];
            match self.accounts.get(&c) {
                Some(a) => v.push(*a),
                None => unreached(),
            }
            i = i + 1;
        }
        v
    }

    /// Handles `r` as a deposit; see [`spec_deposit`].
    fn deposit(&mut self, r: TransactionRecord) -> (res: Result<(), ErrorKind>)
        requires
            old(self).wf(),
        ensures
            final(self)@ == spec_deposit(old(self)@, r).0,
            res == spec_deposit(old(self)@, r).1,
    {
        let a = match r.amount {
            None => {
                return Err(ErrorKind::MissingAmount);
            },
            Some(a) => a,
        };
        let (known, acct) = match self.accounts.get(&r.client_id) {
            Some(acct) => (true, *acct),
            None => (false, Account::new(r.client_id)),
        };
        if acct.frozen {
            return Err(ErrorKind::AccountFrozen);
        }
        if self.txs.contains_key(&r.tx_id) {
            return Err(ErrorKind::DuplicateTransactionId);
        }
        let av: i128 = acct.available as i128 + a as i128;
        let tv: i128 = acct.total as i128 + a as i128;
        if av > i64::MAX as i128 || tv > i64::MAX as i128 {
            return Err(ErrorKind::BalanceOverflow);
        }
        let acct2 = Account {
            id: acct.id,
            available: av as i64,
            held: acct.held,
            total: tv as i64,
            frozen: acct.frozen,
        };
        self.accounts.insert(r.client_id, acct2);
        if !known {
            self.clients.push(r.client_id);
        }
        self.txs.insert(r.tx_id, r);
        proof {
            assert(self@ =~= spec_deposit(old(self)@, r).0);
        }
        Ok(())
    }

    /// Handles `r` as a withdrawal; see [`spec_withdrawal`].
    fn withdrawal(&mut self, r: TransactionRecord) -> (res: Result<(), ErrorKind>)
        requires
            old(self).wf(),
        ensures
            final(self)@ == spec_withdrawal(old(self)@, r).0,
            res == spec_withdrawal(old(self)@, r).1,
    {
        let a = match r.amount {
            None => {
                return Err(ErrorKind::MissingAmount);
            },
            Some(a) => a,
        };
        let acct = match self.accounts.get(&r.client_id) {
            None => {
                return Err(ErrorKind::UnknownAccount);
            },
            Some(acct) => *acct,
        };
        if acct.frozen {
            return Err(ErrorKind::AccountFrozen);
        }
        if acct.available < 0 || (acct.available as u64) < a {
            return Err(ErrorKind::InsufficientFunds);
        }
        if self.txs.contains_key(&r.tx_id) {
            return Err(ErrorKind::DuplicateTransactionId);
        }
        let tv: i128 = acct.total as i128 - a as i128;
        if tv < i64::MIN as i128 {
            return Err(ErrorKind::BalanceOverflow);
        }
        let acct2 = Account {
            id: acct.id,
            available: ((acct.available as i128 - a as i128) as i64),
            held: acct.held,
            total: tv as i64,
            frozen: acct.frozen,
        };
        self.accounts.insert(r.client_id, acct2);
        self.txs.insert(r.tx_id, r);
        proof {
            assert(self@ =~= spec_withdrawal(old(self)@, r).0);
        }
        Ok(())
    }

    /// Handles `r` as a dispute; see [`spec_dispute`].
    fn dispute(&mut self, r: TransactionRecord) -> (res: Result<(), ErrorKind>)
        requires
            old(self).wf(),
        ensures
            final(self)@ == spec_dispute(old(self)@, r).0,
            res == spec_dispute(old(self)@, r).1,
    {
        let tx = match self.txs.get(&r.tx_id) {
            None => {
                return Err(ErrorKind::UnknownTransaction);
            },
            Some(tx) => *tx,
        };
        let a = match tx.amount {
            None => {
                return Err(ErrorKind::MissingAmount);
            },
            Some(a) => a,
        };
        let acct = match self.accounts.get(&r.client_id) {
            None => {
                return Err(ErrorKind::UnknownAccount);
            },
            Some(acct) => *acct,
        };
        let av: i128 = acct.available as i128 - a as i128;
        let hv: i128 = acct.held as i128 + a as i128;
        if av < i64::MIN as i128 || hv > i64::MAX as i128 {
            return Err(ErrorKind::BalanceOverflow);
        }
        let acct2 = Account {
            id: acct.id,
            available: av as i64,
            held: hv as i64,
            total: acct.total,
            frozen: acct.frozen,
        };
        self.accounts.insert(r.client_id, acct2);
        self.disputed.insert(r.tx_id, ());
        proof {
            assert(self@ =~= spec_dispute(old(self)@, r).0);
        }
        Ok(())
    }

    /// Handles `r` as a resolve; see [`spec_resolve`].
    fn resolve(&mut self, r: TransactionRecord) -> (res: Result<(), ErrorKind>)
        requires
            old(self).wf(),
        ensures
            final(self)@ == spec_resolve(old(self)@, r).0,
            res == spec_resolve(old(self)@, r).1,
    {
        let tx = match self.txs.get(&r.tx_id) {
            None => {
                return Err(ErrorKind::UnknownTransaction);
            },
            Some(tx) => *tx,
        };
        if !self.disputed.contains_key(&r.tx_id) {
            return Err(ErrorKind::NotDisputed);
        }
        let a = match tx.amount {
            None => {
                return Err(ErrorKind::MissingAmount);
            },
            Some(a) => a,
        };
        let acct = match self.accounts.get(&r.client_id) {
            None => {
                return Err(ErrorKind::UnknownAccount);
            },
            Some(acct) => *acct,
        };
        let hv: i128 = acct.held as i128 - a as i128;
        let av: i128 = acct.available as i128 + a as i128;
        if hv < i64::MIN as i128 || av > i64::MAX as i128 {
            return Err(ErrorKind::BalanceOverflow);
        }
        let acct2 = Account {
            id: acct.id,
            available: av as i64,
            held: hv as i64,
            total: acct.total,
            frozen: acct.frozen,
        };
        self.accounts.insert(r.client_id, acct2);
        self.disputed.remove(&r.tx_id);
        proof {
            assert(self@ =~= spec_resolve(old(self)@, r).0);
        }
        Ok(())
    }

    /// Handles `r` as a chargeback; see [`spec_chargeback`].
    fn chargeback(&mut self, r: TransactionRecord) -> (res: Result<(), ErrorKind>)
        requires
            old(self).wf(),
        ensures
            final(self)@ == spec_chargeback(old(self)@, r).0,
            res == spec_chargeback(old(self)@, r).1,
    {
        let tx = match self.txs.get(&r.tx_id) {
            None => {
                return Err(ErrorKind::UnknownTransaction);
            },
            Some(tx) => *tx,
        };
        if !self.disputed.contains_key(&r.tx_id) {
            return Err(ErrorKind::NotDisputed);
        }
        let a = match tx.amount {
            None => {
                return Err(ErrorKind::MissingAmount);
            },
            Some(a) => a,
        };
        let acct = match self.accounts.get(&r.client_id) {
            None => {
                return Err(ErrorKind::UnknownAccount);
            },
            Some(acct) => *acct,
        };
        let hv: i128 = acct.held as i128 - a as i128;
        let tv: i128 = acct.total as i128 - a as i128;
        if hv < i64::MIN as i128 || tv < i64::MIN as i128 {
            return Err(ErrorKind::BalanceOverflow);
        }
        let acct2 = Account {
            id: acct.id,
            available: acct.available,
            held: hv as i64,
            total: tv as i64,
            frozen: true,
        };
        self.accounts.insert(r.client_id, acct2);
        proof {
            assert(self@ =~= spec_chargeback(old(self)@, r).0);
        }
        Ok(())
    }
}

} // verus!

