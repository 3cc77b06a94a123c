//! Laws of the ledger: properties of [`store_apply`] that hold for every
//! input, stated and proved over the ghost model.

use crate::amount::amt_ok;
use crate::engine::{
    acct_chargeback, acct_deposit, acct_hold, acct_new, acct_release, acct_wf, acct_withdraw,
    hist_with_state, store_apply, store_deposit, store_dispute, store_inv, AccountView, StoreView,
};
use crate::models::{Transaction, TransactionState, TransactionType};
use vstd::prelude::*;

verus! {

/// The ledger before any transaction.
pub open spec fn empty_store() -> StoreView {
    StoreView { accounts: Map::empty(), history: Map::empty(), order: Seq::empty() }
}

/// The ledger after applying the whole sequence, in order.
pub open spec fn apply_all(s: StoreView, txs: Seq<Transaction>) -> StoreView
    decreases txs.len(),
{
    if txs.len() == 0 {
        s
    } else {
        apply_all(store_apply(s, txs[0]), txs.drop_first())
    }
}

/// A deposit by client `c` carrying an amount.
pub open spec fn deposit_to(t: Transaction, c: u16) -> bool {
    t.tr_type == TransactionType::Deposit && t.client == c && t.amount is Some
}

/// The amount a record carries.
pub open spec fn amount_of(t: Transaction) -> int {
    t.amount.unwrap()@
}

/// The sum of the amounts carried by a sequence of records.
pub open spec fn sum_amounts(txs: Seq<Transaction>) -> int
    decreases txs.len(),
{
    if txs.len() == 0 {
        0
    } else {
        amount_of(txs[0]) + sum_amounts(txs.drop_first())
    }
}

proof fn lemma_sum_take_shift(txs: Seq<Transaction>, k: int)
    requires
        1 <= k <= txs.len(),
    ensures
        sum_amounts(txs.take(k)) == amount_of(txs[0]) + sum_amounts(txs.drop_first().take(k - 1)),
{
    assert(txs.take(k).len() == k);
    assert(txs.take(k)[0] == txs[0]);
    assert(txs.take(k).drop_first() =~= txs.drop_first().take(k - 1));
}

proof fn lemma_deposit_run(s: StoreView, txs: Seq<Transaction>, c: u16)
    requires
        s.accounts.contains_key(c),
        s.accounts[c].held == 0,
        s.accounts[c].locked == false,
        amt_ok(s.accounts[c].total),
        forall|i: int| 0 <= i < txs.len() ==> deposit_to(#[trigger] txs[i], c),
        forall|i: int|
            0 <= i < txs.len() ==> amt_ok(
                s.accounts[c].total + sum_amounts(#[trigger] txs.take(i + 1)),
            ),
    ensures
        apply_all(s, txs).accounts.contains_key(c),
        apply_all(s, txs).accounts[c] == (AccountView {
            held: 0,
            total: s.accounts[c].total + sum_amounts(txs),
            locked: false,
        }),
    decreases txs.len(),
{
    if txs.len() == 0 {
        assert(apply_all(s, txs) == s);
        assert(s.accounts[c] == (AccountView {
            held: 0,
            total: s.accounts[c].total + sum_amounts(txs),
            locked: false,
        }));
    } else {
        let t0 = txs[0];
        let a0 = amount_of(t0);
        assert(deposit_to(t0, c));
        assert(txs.take(1).len() == 1);
        assert(txs.take(1)[0] == t0);
        assert(txs.take(1).drop_first().len() == 0);
        assert(sum_amounts(txs.take(1).drop_first()) == 0);
        assert(sum_amounts(txs.take(1)) == a0);
        assert(amt_ok(s.accounts[c].total + sum_amounts(txs.take(0int + 1))));
        let s1 = store_apply(s, t0);
        assert(s1 == store_deposit(s, t0, t0.amount.unwrap()));
        assert(acct_deposit(s.accounts[c], a0) == Some(AccountView {
            held: 0,
            total: s.accounts[c].total + a0,
            locked: false,
        }));
        assert(s1.accounts.contains_key(c));
        assert(s1.accounts[c] == (AccountView {
            held: 0,
            total: s.accounts[c].total + a0,
            locked: false,
        }));
        let rest = txs.drop_first();
        assert forall|i: int| 0 <= i < rest.len() implies amt_ok(
            s1.accounts[c].total + sum_amounts(#[trigger] rest.take(i + 1)),
        ) by {
            assert(amt_ok(s.accounts[c].total + sum_amounts(txs.take((i + 1) + 1))));
            lemma_sum_take_shift(txs, i + 2);
        }
        lemma_deposit_run(s1, rest, c);
        assert(sum_amounts(txs) == a0 + sum_amounts(rest));
        assert(apply_all(s, txs) == apply_all(s1, rest));
    }
}

/// A run of nothing but valid deposits by one client, applied to the empty
/// ledger, leaves that client with `total` equal to the sum of the amounts,
/// nothing held (so `available` equals `total` as well), and the account
/// unlocked — provided every partial sum stays in range.
pub proof fn lemma_deposits_only(txs: Seq<Transaction>, c: u16)
    requires
        txs.len() > 0,
        forall|i: int| 0 <= i < txs.len() ==> deposit_to(#[trigger] txs[i], c),
        forall|i: int| 0 <= i < txs.len() ==> amt_ok(sum_amounts(#[trigger] txs.take(i + 1))),
    ensures
        ({
            let f = apply_all(empty_store(), txs);
            &&& f.accounts.contains_key(c)
            &&& f.accounts[c].total == sum_amounts(txs)
            &&& f.accounts[c].held == 0
            &&& f.accounts[c].locked == false
            &&& f.accounts[c].total - f.accounts[c].held == sum_amounts(txs)
        }),
{
    let s0 = empty_store();
    let t0 = txs[0];
    let a0 = amount_of(t0);
    assert(deposit_to(t0, c));
    assert(txs.take(1).len() == 1);
    assert(txs.take(1)[0] == t0);
    assert(txs.take(1).drop_first().len() == 0);
    assert(sum_amounts(txs.take(1).drop_first()) == 0);
    assert(sum_amounts(txs.take(1)) == a0);
    assert(amt_ok(sum_amounts(txs.take(0int + 1))));
    let s1 = store_apply(s0, t0);
    assert(s1 == store_deposit(s0, t0, t0.amount.unwrap()));
    assert(!s0.accounts.contains_key(c));
    assert(s1.accounts.contains_key(c));
    assert(s1.accounts[c] == acct_new(a0));
    let rest = txs.drop_first();
    assert forall|i: int| 0 <= i < rest.len() implies amt_ok(
        s1.accounts[c].total + sum_amounts(#[trigger] rest.take(i + 1)),
    ) by {
        assert(amt_ok(sum_amounts(txs.take((i + 1) + 1))));
        lemma_sum_take_shift(txs, i + 2);
    }
    lemma_deposit_run(s1, rest, c);
    assert(sum_amounts(txs) == a0 + sum_amounts(rest));
    assert(apply_all(s0, txs) == apply_all(s1, rest));
}

/// A withdrawal that would drive `available` below zero leaves the whole
/// ledger unchanged.
pub proof fn lemma_overdraw_unchanged(s: StoreView, t: Transaction)
    requires
        t.tr_type == TransactionType::Withdrawal,
        t.amount is Some,
        s.accounts.contains_key(t.client),
        s.accounts[t.client].total - t.amount.unwrap()@ - s.accounts[t.client].held < 0,
    ensures
        store_apply(s, t) == s,
{
}

/// A dispute that names a transaction id the ledger never stored is a no-op.
pub proof fn lemma_dispute_unknown_no_op(s: StoreView, t: Transaction)
    requires
        t.tr_type == TransactionType::Dispute,
        !s.history.contains_key(t.tx),
    ensures
        store_apply(s, t) == s,
{
}

/// A successful dispute followed by its resolve restores the ledger exactly:
/// `held`, `total` (and so `available`) return to their pre-dispute values,
/// and the history record returns to `Success`.
pub proof fn lemma_dispute_resolve_round_trip(s: StoreView, d: Transaction, r: Transaction)
    requires
        store_inv(s),
        d.tr_type == TransactionType::Dispute,
        r.tr_type == TransactionType::Resolve,
        r.client == d.client,
        r.tx == d.tx,
        s.accounts.contains_key(d.client),
        s.history.contains_key(d.tx),
        s.history[d.tx].state == TransactionState::Success,
        acct_hold(s.accounts[d.client], s.history[d.tx].amount@) is Some,
    ensures
        store_apply(store_apply(s, d), r) == s,
{
    let c = d.client;
    let h = s.history[d.tx];
    let a = h.amount@;
    let before = s.accounts[c];
    assert(acct_wf(before));
    let s1 = store_apply(s, d);
    assert(s1 == store_dispute(s, d));
    assert(!before.locked);
    assert(s1.accounts[c] == (AccountView {
        held: before.held + a,
        total: before.total,
        locked: false,
    }));
    assert(s1.history[r.tx] == hist_with_state(h, TransactionState::Disputed));
    let s2 = store_apply(s1, r);
    assert(acct_release(s1.accounts[c], a) == Some(AccountView {
        held: before.held + a - a,
        total: before.total,
        locked: false,
    }));
    assert(s2.accounts =~= s.accounts);
    assert(hist_with_state(hist_with_state(h, TransactionState::Disputed), TransactionState::Success)
        == h);
    assert(s2.history =~= s.history);
    assert(s2 =~= s);
}

/// A successful dispute followed by its chargeback leaves the client with
/// nothing held (so `available` equals `total`), the disputed amount taken
/// out of `total`, a locked account, and the history record `ChargedBack`.
pub proof fn lemma_dispute_chargeback(s: StoreView, d: Transaction, cb: Transaction)
    requires
        store_inv(s),
        d.tr_type == TransactionType::Dispute,
        cb.tr_type == TransactionType::Chargeback,
        cb.client == d.client,
        cb.tx == d.tx,
        s.accounts.contains_key(d.client),
        s.history.contains_key(d.tx),
        s.history[d.tx].state == TransactionState::Success,
        s.accounts[d.client].held == 0,
        s.accounts[d.client].locked == false,
        0 <= s.history[d.tx].amount@ <= s.accounts[d.client].total,
    ensures
        ({
            let f = store_apply(store_apply(s, d), cb);
            let c = d.client;
            &&& f.accounts.contains_key(c)
            &&& f.accounts[c].held == 0
            &&& f.accounts[c].locked == true
            &&& f.accounts[c].total == s.accounts[c].total - s.history[d.tx].amount@
            &&& f.accounts[c].total - f.accounts[c].held == f.accounts[c].total
            &&& f.history.contains_key(d.tx)
            &&& f.history[d.tx].state == TransactionState::ChargedBack
        }),
{
    let c = d.client;
    let h = s.history[d.tx];
    let a = h.amount@;
    let before = s.accounts[c];
    assert(acct_wf(before));
    assert(amt_ok(h.amount@));
    let s1 = store_apply(s, d);
    assert(s1 == store_dispute(s, d));
    assert(acct_hold(before, a) == Some(AccountView { held: a, total: before.total, locked: false }));
    assert(s1.accounts[c] == (AccountView { held: a, total: before.total, locked: false }));
    assert(s1.history[cb.tx] == hist_with_state(h, TransactionState::Disputed));
    let s2 = store_apply(s1, cb);
    assert(amt_ok(before.total - a));
    assert(acct_withdraw(s1.accounts[c], a, true) == Some(AccountView {
        held: a,
        total: before.total - a,
        locked: false,
    }));
    assert(acct_chargeback(s1.accounts[c], a) == Some(AccountView {
        held: 0,
        total: before.total - a,
        locked: true,
    }));
    assert(s2.accounts[c] == (AccountView { held: 0, total: before.total - a, locked: true }));
}

/// A locked account rejects every further deposit and withdrawal: the whole
/// ledger is left unchanged (in particular, a refused deposit is not recorded
/// to history).
pub proof fn lemma_locked_rejects(s: StoreView, t: Transaction)
    requires
        s.accounts.contains_key(t.client),
        s.accounts[t.client].locked,
        t.tr_type == TransactionType::Deposit || t.tr_type == TransactionType::Withdrawal,
    ensures
        store_apply(s, t) == s,
{
}

/// Locking is terminal: once a client's account is locked, no transaction of
/// any kind, by any client, unlocks it or removes it.
pub proof fn lemma_locked_is_permanent(s: StoreView, t: Transaction, c: u16)
    requires
        s.accounts.contains_key(c),
        s.accounts[c].locked,
    ensures
        store_apply(s, t).accounts.contains_key(c),
        store_apply(s, t).accounts[c].locked,
{
}

} // verus!
