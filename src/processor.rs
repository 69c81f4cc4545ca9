//! The executable ledger engine, proved to follow `model::step`.
use std::collections::HashMap;
use vstd::prelude::*;

use crate::model::{
    account_or_new, empty_ledger, in_i64, step, tx_key, wf, Account, LedgerState, Transaction,
    TransactionKind, TX_ID_SPAN,
};

verus! {

broadcast use vstd::std_specs::hash::group_hash_axioms;

/// The ledger engine: accounts by client, and the accepted deposits and
/// withdrawals by (client, transaction id).
pub struct TransactionProcessor {
    accounts: HashMap<u16, Account>,
    transactions: HashMap<u64, Transaction>,
}

impl View for TransactionProcessor {
    type V = LedgerState;

    closed spec fn view(&self) -> LedgerState {
        LedgerState { accounts: self.accounts@, transactions: self.transactions@ }
    }
}

/// The index key of the pair (client, transaction id).
pub fn key(client: u16, tx: u32) -> (r: u64)
    ensures
        r == tx_key(client, tx),
{
    client as u64 * TX_ID_SPAN + tx as u64
}

fn fits_i64(x: i128) -> (r: bool)
    ensures
        r == in_i64(x as int),
{
    i64::MIN as i128 <= x && x <= i64::MAX as i128
}

impl TransactionProcessor {
    /// An engine with no accounts and no transactions.
    pub fn new() -> (r: Self)
        ensures
            r@ == empty_ledger(),
            wf(r@),
    {
        TransactionProcessor { accounts: HashMap::new(), transactions: HashMap::new() }
    }

    fn account_or_new(&self, client: u16) -> (r: Account)
        ensures
            r == account_or_new(self@, client),
    {
        match self.accounts.get(&client) {
            Some(a) => *a,
            None => Account { client, available: 0, held: 0, total: 0, locked: false },
        }
    }

    /// Applies one transaction; one that fails a check is ignored.
    pub fn handle(&mut self, tx: Transaction)
        ensures
            final(self)@ == step(old(self)@, tx),
            wf(old(self)@) ==> wf(final(self)@),
    {
        match tx.kind {
            TransactionKind::Deposit => self.handle_deposit(tx),
            TransactionKind::Withdrawal => self.handle_withdrawal(tx),
            TransactionKind::Dispute => self.handle_dispute(tx),
            TransactionKind::Resolve => self.handle_resolve(tx),
            TransactionKind::Chargeback => self.handle_chargeback(tx),
        }
    }

    /// Credits a deposit, unless the account is locked, the id is already
    /// recorded for this client, or a balance would leave the `i64` range.
    pub fn handle_deposit(&mut self, tx: Transaction)
        requires
            tx.kind is Deposit,
        ensures
            final(self)@ == step(old(self)@, tx),
            wf(old(self)@) ==> wf(final(self)@),
    {
        let amount = match tx.amount {
            Some(a) => a,
            None => return ,
        };
        let account = self.account_or_new(tx.client);
        let k = key(tx.client, tx.tx);
        let available = account.available as i128 + amount as i128;
        let total = account.total as i128 + amount as i128;
        if account.locked || self.transactions.contains_key(&k) || !fits_i64(available) || !fits_i64(
            total,
        ) {
            self.accounts.insert(tx.client, account);
            return ;
        }
        self.accounts.insert(
            tx.client,
            Account { available: available as i64, total: total as i64, ..account },
        );
        self.transactions.insert(k, Transaction { disputed: false, ..tx });
    }

    /// Debits a withdrawal, unless the account is locked, the available funds
    /// do not cover it, the id is already recorded for this client, or a
    /// balance would leave the `i64` range.
    pub fn handle_withdrawal(&mut self, tx: Transaction)
        requires
            tx.kind is Withdrawal,
        ensures
            final(self)@ == step(old(self)@, tx),
            wf(old(self)@) ==> wf(final(self)@),
    {
        let amount = match tx.amount {
            Some(a) => a,
            None => return ,
        };
        let account = self.account_or_new(tx.client);
        let k = key(tx.client, tx.tx);
        let available = account.available as i128 - amount as i128;
        let total = account.total as i128 - amount as i128;
        if account.locked || account.available < amount || self.transactions.contains_key(&k)
            || !fits_i64(available) || !fits_i64(total) {
            self.accounts.insert(tx.client, account);
            return ;
        }
        self.accounts.insert(
            tx.client,
            Account { available: available as i64, total: total as i64, ..account },
        );
        self.transactions.insert(k, Transaction { disputed: false, ..tx });
    }

    /// Moves the amount of the referenced record from available to held and
    /// marks the record disputed, unless the account is locked or the record
    /// is already disputed.
    pub fn handle_dispute(&mut self, tx: Transaction)
        requires
            tx.kind is Dispute,
        ensures
            final(self)@ == step(old(self)@, tx),
            wf(old(self)@) ==> wf(final(self)@),
    {
        let k = key(tx.client, tx.tx);
        let referenced = match self.transactions.get(&k) {
            Some(r) => *r,
            None => return ,
        };
        let amount = match referenced.amount {
            Some(a) => a,
            None => return ,
        };
        let account = self.account_or_new(tx.client);
        let available = account.available as i128 - amount as i128;
        let held = account.held as i128 + amount as i128;
        if account.locked || referenced.disputed || !fits_i64(available) || !fits_i64(held) {
            self.accounts.insert(tx.client, account);
            return ;
        }
        self.accounts.insert(
            tx.client,
            Account { available: available as i64, held: held as i64, ..account },
        );
        self.transactions.insert(k, Transaction { disputed: true, ..referenced });
    }

    /// Moves the amount of a disputed record back from held to available and
    /// clears its dispute, unless the account is locked.
    pub fn handle_resolve(&mut self, tx: Transaction)
        requires
            tx.kind is Resolve,
        ensures
            final(self)@ == step(old(self)@, tx),
            wf(old(self)@) ==> wf(final(self)@),
    {
        let k = key(tx.client, tx.tx);
        let referenced = match self.transactions.get(&k) {
            Some(r) => *r,
            None => return ,
        };
        let amount = match referenced.amount {
            Some(a) => a,
            None => return ,
        };
        let account = self.account_or_new(tx.client);
        let available = account.available as i128 + amount as i128;
        let held = account.held as i128 - amount as i128;
        if account.locked || !referenced.disputed || !fits_i64(available) || !fits_i64(held) {
            self.accounts.insert(tx.client, account);
            return ;
        }
        self.accounts.insert(
            tx.client,
            Account { available: available as i64, held: held as i64, ..account },
        );
        self.transactions.insert(k, Transaction { disputed: false, ..referenced });
    }

    /// Removes the amount of a disputed record from held and total and locks
    /// the account, unless it is already locked.
    pub fn handle_chargeback(&mut self, tx: Transaction)
        requires
            tx.kind is Chargeback,
        ensures
            final(self)@ == step(old(self)@, tx),
            wf(old(self)@) ==> wf(final(self)@),
    {
        let k = key(tx.client, tx.tx);
        let referenced = match self.transactions.get(&k) {
            Some(r) => *r,
            None => return ,
        };
        let amount = match referenced.amount {
            Some(a) => a,
            None => return ,
        };
        let account = self.account_or_new(tx.client);
        let held = account.held as i128 - amount as i128;
        let total = account.total as i128 - amount as i128;
        if account.locked || !referenced.disputed || !fits_i64(held) || !fits_i64(total) {
            self.accounts.insert(tx.client, account);
            return ;
        }
        self.accounts.insert(
            tx.client,
            Account { held: held as i64, total: total as i64, locked: true, ..account },
        );
    }

    /// The account of `client`, if one has been created.
    pub fn account(&self, client: u16) -> (r: Option<Account>)
        ensures
            r == (if self@.accounts.contains_key(client) {
                Some(self@.accounts[client])
            } else {
                None
            }),
    {
        match self.accounts.get(&client) {
            Some(a) => Some(*a),
            None => None,
        }
    }

    /// Every account, in increasing order of client id.
    pub fn snapshot(&self) -> (r: Vec<Account>)
        requires
            wf(self@),
        ensures
            forall|i: int, j: int| 0 <= i < j < r@.len() ==> r@[i].client < r@[j].client,
            forall|i: int|
                0 <= i < r@.len() ==> self@.accounts.contains_key(#[trigger] r@[i].client)
                    && self@.accounts[r@[i].client] == r@[i],
            forall|c: u16|
                #[trigger] self@.accounts.contains_key(c) ==> exists|i: int|
                    0 <= i < r@.len() && r@[i].client == c,
    {
        let mut out: Vec<Account> = Vec::new();
        let mut c: u32 = 0;
        while c < 0x1_0000
            invariant
                c <= 0x1_0000,
                wf(self@),
                forall|i: int, j: int| 0 <= i < j < out@.len() ==> out@[i].client < out@[j].client,
                forall|i: int|
                    0 <= i < out@.len() ==> (#[trigger] out@[i].client as int) < c
                        && self@.accounts.contains_key(out@[i].client)
                        && self@.accounts[out@[i].client] == out@[i],
                forall|k: u16|
                    (k as int) < c && #[trigger] self@.accounts.contains_key(k) ==> exists|i: int|
                        0 <= i < out@.len() && out@[i].client == k,
            decreases 0x1_0000 - c,
        {
            let ghost before = out@;
            if let Some(a) = self.accounts.get(&(c as u16)) {
                assert(self@.accounts.contains_key(c as u16));
                out.push(*a);
                assert(out@[out@.len() - 1].client == c as u16);
            }
            assert forall|k: u16|
                (k as int) < c + 1 && #[trigger] self@.accounts.contains_key(k) implies exists|i: int|
                    0 <= i < out@.len() && out@[i].client == k by {
                if (k as int) < c {
                    let i = choose|i: int| 0 <= i < before.len() && before[i].client == k;
                    assert(out@[i] == before[i]);
                } else {
                    assert(out@[out@.len() - 1].client == k);
                }
            }
            c = c + 1;
        }
        out
    }
}

} // verus!
