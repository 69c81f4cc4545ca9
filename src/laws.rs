//! Laws of the ledger, proved over the model that the engine follows.
use vstd::prelude::*;

use crate::model::{
    accepted, account_or_new, balanced, empty_ledger, in_i64, key_of, moved_amount, run, step,
    tx_key, wf, LedgerState, Transaction,
};

verus! {

/// The empty ledger is well-formed.
pub proof fn lemma_empty_wf()
    ensures
        wf(empty_ledger()),
{
}

/// Every transaction keeps each account's total equal to its available plus
/// held funds.
pub proof fn lemma_step_keeps_balance(s: LedgerState, t: Transaction)
    requires
        wf(s),
    ensures
        wf(step(s, t)),
{
    let acc = account_or_new(s, t.client);
    assert(acc.client == t.client && balanced(acc));
}

/// Every sequence of transactions keeps each account's total equal to its
/// available plus held funds, so every state reachable from the empty ledger
/// has that property.
pub proof fn lemma_run_keeps_balance(s: LedgerState, ts: Seq<Transaction>)
    requires
        wf(s),
    ensures
        wf(run(s, ts)),
    decreases ts.len(),
{
    if ts.len() > 0 {
        lemma_step_keeps_balance(s, ts[0]);
        lemma_run_keeps_balance(step(s, ts[0]), ts.drop_first());
    }
}

/// Distinct (client, transaction id) pairs have distinct index keys, so a
/// transaction of one client is never found under another client's id.
pub proof fn lemma_tx_key_injective(c1: u16, i1: u32, c2: u16, i2: u32)
    ensures
        tx_key(c1, i1) == tx_key(c2, i2) ==> c1 == c2 && i1 == i2,
{
}

/// A dispute, resolve or chargeback whose (client, id) pair names no
/// accepted deposit or withdrawal leaves the ledger exactly as it was.
pub proof fn lemma_unknown_reference_is_noop(s: LedgerState, t: Transaction)
    requires
        !(t.kind is Deposit || t.kind is Withdrawal),
        !s.transactions.contains_key(tx_key(t.client, t.tx)),
    ensures
        step(s, t) == s,
{
}

/// Applying again a transaction that was ignored changes nothing more, and it
/// is ignored again.
pub proof fn lemma_ignored_again_is_noop(s: LedgerState, t: Transaction)
    requires
        !accepted(s, t),
    ensures
        !accepted(step(s, t), t),
        step(step(s, t), t) == step(s, t),
{
    let s1 = step(s, t);
    if moved_amount(s, t) is Some {
        let acc = account_or_new(s, t.client);
        assert(s1.transactions == s.transactions);
        assert(account_or_new(s1, t.client) == acc);
        assert(moved_amount(s1, t) == moved_amount(s, t));
        assert(s1.accounts.insert(t.client, acc) =~= s1.accounts);
    }
}

/// A deposit or withdrawal whose id was already recorded for its client is
/// not accepted again: re-submitting an accepted one changes nothing more.
pub proof fn lemma_duplicate_id_is_noop(s: LedgerState, t: Transaction)
    requires
        t.kind is Deposit || t.kind is Withdrawal,
        accepted(s, t),
    ensures
        !accepted(step(s, t), t),
        step(step(s, t), t) == step(s, t),
{
    let s1 = step(s, t);
    assert(s1.transactions.contains_key(key_of(t)));
    assert(s1.accounts.contains_key(t.client));
    assert(s1.accounts.insert(t.client, s1.accounts[t.client]) =~= s1.accounts);
}

/// A resolve that follows an accepted dispute of the same record is accepted
/// and exactly undoes it: the account's available and held funds and the
/// stored records are as before the dispute, and the total never changes.
pub proof fn lemma_dispute_then_resolve(s: LedgerState, d: Transaction, r: Transaction)
    requires
        d.kind is Dispute,
        r.kind is Resolve,
        r.client == d.client,
        r.tx == d.tx,
        accepted(s, d),
    ensures
        accepted(step(s, d), r),
        step(step(s, d), r).accounts[d.client] == account_or_new(s, d.client),
        step(step(s, d), r).transactions == s.transactions,
        step(s, d).accounts[d.client].total == account_or_new(s, d.client).total,
        s.accounts.contains_key(d.client) ==> step(step(s, d), r) == s,
{
    let s1 = step(s, d);
    let s2 = step(s1, r);
    let k = key_of(d);
    assert(key_of(r) == k);
    assert(s2.transactions =~= s.transactions);
    if s.accounts.contains_key(d.client) {
        assert(s2.accounts =~= s.accounts);
    }
}

/// A chargeback that follows an accepted dispute of the same record is
/// accepted, removes exactly the disputed amount from the total and the held
/// funds, leaves the available funds as the dispute left them, and locks the
/// account. (The total less the amount must fit in `i64`; otherwise the
/// chargeback is refused.)
pub proof fn lemma_dispute_then_chargeback(s: LedgerState, d: Transaction, c: Transaction)
    requires
        d.kind is Dispute,
        c.kind is Chargeback,
        c.client == d.client,
        c.tx == d.tx,
        accepted(s, d),
        in_i64(
            account_or_new(s, d.client).total - s.transactions[tx_key(d.client, d.tx)].amount.unwrap(),
        ),
    ensures
        accepted(step(s, d), c),
        ({
            let before = account_or_new(s, d.client);
            let after = step(step(s, d), c).accounts[d.client];
            let a = s.transactions[tx_key(d.client, d.tx)].amount.unwrap();
            &&& after.total == before.total - a
            &&& after.held == before.held
            &&& after.available == before.available - a
            &&& after.locked
        }),
{
    assert(key_of(c) == key_of(d));
}

/// No transaction changes any field of a locked account.
pub proof fn lemma_locked_account_is_frozen(s: LedgerState, t: Transaction, c: u16)
    requires
        s.accounts.contains_key(c),
        s.accounts[c].locked,
    ensures
        step(s, t).accounts.contains_key(c),
        step(s, t).accounts[c] == s.accounts[c],
{
}

/// No sequence of transactions changes any field of a locked account.
pub proof fn lemma_locked_account_stays_frozen(s: LedgerState, ts: Seq<Transaction>, c: u16)
    requires
        s.accounts.contains_key(c),
        s.accounts[c].locked,
    ensures
        run(s, ts).accounts.contains_key(c),
        run(s, ts).accounts[c] == s.accounts[c],
    decreases ts.len(),
{
    if ts.len() > 0 {
        lemma_locked_account_is_frozen(s, ts[0], c);
        lemma_locked_account_stays_frozen(step(s, ts[0]), ts.drop_first(), c);
    }
}

pub open spec fn available_nonnegative(s: LedgerState) -> bool {
    forall|c: u16| #[trigger] s.accounts.contains_key(c) ==> s.accounts[c].available >= 0
}

pub open spec fn funds_movement(t: Transaction) -> bool {
    (t.kind is Deposit && (t.amount matches Some(a) ==> a >= 0)) || t.kind is Withdrawal
}

/// Deposits of non-negative amounts and withdrawals, which must pass the
/// funds check, never drive any account's available funds below zero.
pub proof fn lemma_withdrawals_keep_available_nonnegative(s: LedgerState, ts: Seq<Transaction>)
    requires
        available_nonnegative(s),
        forall|i: int| 0 <= i < ts.len() ==> funds_movement(#[trigger] ts[i]),
    ensures
        available_nonnegative(run(s, ts)),
    decreases ts.len(),
{
    if ts.len() > 0 {
        let s1 = step(s, ts[0]);
        assert(funds_movement(ts[0]));
        assert(available_nonnegative(s1));
        assert forall|i: int| 0 <= i < ts.drop_first().len() implies funds_movement(
            #[trigger] ts.drop_first()[i],
        ) by {
            assert(ts.drop_first()[i] == ts[i + 1]);
        }
        lemma_withdrawals_keep_available_nonnegative(s1, ts.drop_first());
    }
}

} // verus!
