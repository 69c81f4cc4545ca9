//! The mathematical model of the ledger: its state, and the effect of one
//! transaction on it.
use vstd::prelude::*;

verus! {

/// The five kinds of transaction record.
#[derive(Clone, Copy, Debug, PartialEq, Eq)]
pub enum TransactionKind {
    Deposit,
    Withdrawal,
    Dispute,
    Resolve,
    Chargeback,
}

/// One transaction record. Amounts are fixed-point values counted in
/// ten-thousandths of the currency unit (four fractional digits).
#[derive(Clone, Copy, Debug, PartialEq, Eq)]
pub struct Transaction {
    pub kind: TransactionKind,
    pub client: u16,
    pub tx: u32,
    pub amount: Option<i64>,
    /// Set while a dispute against this (stored) record is open.
    pub disputed: bool,
}

/// The balance of one client, in ten-thousandths of the currency unit.
#[derive(Clone, Copy, Debug, PartialEq, Eq)]
pub struct Account {
    pub client: u16,
    pub available: i64,
    pub held: i64,
    pub total: i64,
    pub locked: bool,
}

/// The abstract state of the ledger: accounts by client, and the accepted
/// deposits and withdrawals by `tx_key(client, tx)`.
pub struct LedgerState {
    pub accounts: Map<u16, Account>,
    pub transactions: Map<u64, Transaction>,
}

/// Number of distinct transaction ids, the stride of a client in `tx_key`.
pub const TX_ID_SPAN: u64 = 0x1_0000_0000;

/// The index key of the pair (client, transaction id).
pub open spec fn tx_key(client: u16, tx: u32) -> u64 {
    (client as int * TX_ID_SPAN as int + tx as int) as u64
}

pub open spec fn key_of(t: Transaction) -> u64 {
    tx_key(t.client, t.tx)
}

pub open spec fn in_i64(x: int) -> bool {
    i64::MIN <= x <= i64::MAX
}

pub open spec fn empty_ledger() -> LedgerState {
    LedgerState { accounts: Map::empty(), transactions: Map::empty() }
}

pub open spec fn new_account(client: u16) -> Account {
    Account { client, available: 0, held: 0, total: 0, locked: false }
}

/// The account of `client`, or the fresh one that the first reference creates.
pub open spec fn account_or_new(s: LedgerState, client: u16) -> Account {
    if s.accounts.contains_key(client) {
        s.accounts[client]
    } else {
        new_account(client)
    }
}

pub open spec fn with_account(s: LedgerState, client: u16, a: Account) -> LedgerState {
    LedgerState { accounts: s.accounts.insert(client, a), transactions: s.transactions }
}

/// The amount a transaction moves: its own for a deposit or withdrawal, that
/// of the stored record it references otherwise. `None` when there is none,
/// in which case the transaction touches nothing.
pub open spec fn moved_amount(s: LedgerState, t: Transaction) -> Option<i64> {
    match t.kind {
        TransactionKind::Deposit | TransactionKind::Withdrawal => t.amount,
        _ => if s.transactions.contains_key(key_of(t)) {
            s.transactions[key_of(t)].amount
        } else {
            None
        },
    }
}

/// Whether `t` passes every check for its kind in state `s`.
pub open spec fn accepted(s: LedgerState, t: Transaction) -> bool {
    match moved_amount(s, t) {
        None => false,
        Some(a) => {
            let acc = account_or_new(s, t.client);
            let known = s.transactions.contains_key(key_of(t));
            !acc.locked && match t.kind {
                TransactionKind::Deposit => !known && in_i64(acc.available + a) && in_i64(
                    acc.total + a,
                ),
                TransactionKind::Withdrawal => !known && a <= acc.available && in_i64(
                    acc.available - a,
                ) && in_i64(acc.total - a),
                TransactionKind::Dispute => !s.transactions[key_of(t)].disputed && in_i64(
                    acc.available - a,
                ) && in_i64(acc.held + a),
                TransactionKind::Resolve => s.transactions[key_of(t)].disputed && in_i64(
                    acc.held - a,
                ) && in_i64(acc.available + a),
                TransactionKind::Chargeback => s.transactions[key_of(t)].disputed && in_i64(
                    acc.held - a,
                ) && in_i64(acc.total - a),
            }
        },
    }
}

/// The effect of an accepted transaction `t` moving amount `a`.
pub open spec fn effect(s: LedgerState, t: Transaction, a: i64) -> LedgerState {
    let acc = account_or_new(s, t.client);
    let key = key_of(t);
    match t.kind {
        TransactionKind::Deposit => LedgerState {
            accounts: s.accounts.insert(
                t.client,
                Account {
                    available: (acc.available + a) as i64,
                    total: (acc.total + a) as i64,
                    ..acc
                },
            ),
            transactions: s.transactions.insert(key, Transaction { disputed: false, ..t }),
        },
        TransactionKind::Withdrawal => LedgerState {
            accounts: s.accounts.insert(
                t.client,
                Account {
                    available: (acc.available - a) as i64,
                    total: (acc.total - a) as i64,
                    ..acc
                },
            ),
            transactions: s.transactions.insert(key, Transaction { disputed: false, ..t }),
        },
        TransactionKind::Dispute => LedgerState {
            accounts: s.accounts.insert(
                t.client,
                Account {
                    available: (acc.available - a) as i64,
                    held: (acc.held + a) as i64,
                    ..acc
                },
            ),
            transactions: s.transactions.insert(
                key,
                Transaction { disputed: true, ..s.transactions[key] },
            ),
        },
        TransactionKind::Resolve => LedgerState {
            accounts: s.accounts.insert(
                t.client,
                Account {
                    available: (acc.available + a) as i64,
                    held: (acc.held - a) as i64,
                    ..acc
                },
            ),
            transactions: s.transactions.insert(
                key,
                Transaction { disputed: false, ..s.transactions[key] },
            ),
        },
        TransactionKind::Chargeback => with_account(
            s,
            t.client,
            Account { held: (acc.held - a) as i64, total: (acc.total - a) as i64, locked: true, ..acc },
        ),
    }
}

/// One transaction applied to the ledger. A transaction that moves an amount
/// creates its client's account if needed; if it fails a check it changes
/// nothing else.
pub open spec fn step(s: LedgerState, t: Transaction) -> LedgerState {
    match moved_amount(s, t) {
        None => s,
        Some(a) => if accepted(s, t) {
            effect(s, t, a)
        } else {
            with_account(s, t.client, account_or_new(s, t.client))
        },
    }
}

/// A sequence of transactions applied in order.
pub open spec fn run(s: LedgerState, ts: Seq<Transaction>) -> LedgerState
    decreases ts.len(),
{
    if ts.len() == 0 {
        s
    } else {
        run(step(s, ts[0]), ts.drop_first())
    }
}

pub open spec fn balanced(a: Account) -> bool {
    a.total == a.available + a.held
}

/// Well-formedness: each account is stored under its own client id and its
/// total is the sum of its available and held funds.
pub open spec fn wf(s: LedgerState) -> bool {
    forall|c: u16| #[trigger]
        s.accounts.contains_key(c) ==> s.accounts[c].client == c && balanced(s.accounts[c])
}

} // verus!
