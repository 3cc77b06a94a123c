//! The account ledger: per-client balances, the transaction history, and the
//! rules that each transaction kind applies to them.
//!
//! The ghost model lives in [`StoreView`] and the `store_*` / `acct_*` spec
//! functions: [`store_apply`] is the complete transition relation of the
//! ledger, and [`AccountStore::add_tx`] is proved to implement it exactly.

use crate::amount::{amt_ok, Amount};
use crate::models::{
    tx_wf, Account, ApplicationError, ApplicationResult, HistoricalTransaction, Transaction,
    TransactionState, TransactionType,
};
use std::collections::HashMap;
use vstd::prelude::*;

verus! {

broadcast use vstd::std_specs::hash::group_hash_axioms;

/// Mathematical state of one account: balances counted in ten-thousandths,
/// and the lock flag. `available` is derived: `total - held`.
pub struct AccountView {
    pub held: int,
    pub total: int,
    pub locked: bool,
}

/// Mathematical state of the whole ledger. `order` lists the clients in the
/// order their accounts were created; the report follows it.
#[verifier::ext_equal]
pub struct StoreView {
    pub accounts: Map<u16, AccountView>,
    pub history: Map<u32, HistoricalTransaction>,
    pub order: Seq<u16>,
}

/// A fresh account holding `amount`: nothing held, unlocked.
pub open spec fn acct_new(amount: int) -> AccountView {
    AccountView { held: 0, total: amount, locked: false }
}

/// Balances in range.
pub open spec fn acct_wf(a: AccountView) -> bool {
    amt_ok(a.held) && amt_ok(a.total)
}

/// Deposit: add to `total`. Fails on a locked account or when the new total
/// leaves the representable range.
pub open spec fn acct_deposit(a: AccountView, amount: int) -> Option<AccountView> {
    if a.locked {
        None
    } else if amt_ok(a.total + amount) {
        Some(AccountView { total: a.total + amount, ..a })
    } else {
        None
    }
}

/// Withdrawal: subtract from `total`. The chargeback variant checks the new
/// total directly against zero; the plain variant checks the new total minus
/// `held` (the available funds). Fails on a locked account, a failed funds
/// check, or a new total outside the representable range.
pub open spec fn acct_withdraw(a: AccountView, amount: int, is_chargeback: bool) -> Option<
    AccountView,
> {
    if !amt_ok(a.total - amount) {
        None
    } else if a.locked {
        None
    } else {
        let available = if is_chargeback {
            a.total - amount
        } else {
            a.total - amount - a.held
        };
        if available >= 0 {
            Some(AccountView { total: a.total - amount, ..a })
        } else {
            None
        }
    }
}

/// Dispute: move `amount` into `held`, allowed only while `held + amount`
/// stays at most `total` (and in range). Fails on a locked account.
pub open spec fn acct_hold(a: AccountView, amount: int) -> Option<AccountView> {
    if a.locked {
        None
    } else if a.held + amount <= a.total && amt_ok(a.held + amount) {
        Some(AccountView { held: a.held + amount, ..a })
    } else {
        None
    }
}

/// Resolve: release `amount` from `held`, with no lower-bound check beyond
/// the representable range. Fails on a locked account.
pub open spec fn acct_release(a: AccountView, amount: int) -> Option<AccountView> {
    if a.locked {
        None
    } else if amt_ok(a.held - amount) {
        Some(AccountView { held: a.held - amount, ..a })
    } else {
        None
    }
}

/// Chargeback: the chargeback variant of the withdrawal, then release the
/// held `amount` and lock the account for good.
pub open spec fn acct_chargeback(a: AccountView, amount: int) -> Option<AccountView> {
    match acct_withdraw(a, amount, true) {
        Some(w) => if amt_ok(w.held - amount) {
            Some(AccountView { held: w.held - amount, total: w.total, locked: true })
        } else {
            None
        },
        None => None,
    }
}

/// A history record with its state replaced.
pub open spec fn hist_with_state(h: HistoricalTransaction, state: TransactionState)
    -> HistoricalTransaction {
    HistoricalTransaction { state, ..h }
}

/// A deposit of `amount` by `t.client`: credits the account (creating it if
/// absent) and, on success only, records the transaction under `t.tx`,
/// overwriting any prior record with that id.
pub open spec fn store_deposit(s: StoreView, t: Transaction, amount: Amount) -> StoreView {
    let next = if s.accounts.contains_key(t.client) {
        acct_deposit(s.accounts[t.client], amount@)
    } else {
        Some(acct_new(amount@))
    };
    match next {
        Some(a) => StoreView {
            accounts: s.accounts.insert(t.client, a),
            order: if s.accounts.contains_key(t.client) {
                s.order
            } else {
                s.order.push(t.client)
            },
            history: s.history.insert(
                t.tx,
                HistoricalTransaction {
                    tr_type: t.tr_type,
                    client: t.client,
                    tx: t.tx,
                    amount,
                    state: TransactionState::Success,
                },
            ),
        },
        None => s,
    }
}

/// A withdrawal of `amount` by `t.client`: debits the account when the funds
/// check passes and swallows the failure otherwise; a client never seen
/// before gets a fresh empty account. Never recorded to history.
pub open spec fn store_withdraw(s: StoreView, t: Transaction, amount: Amount) -> StoreView {
    if s.accounts.contains_key(t.client) {
        match acct_withdraw(s.accounts[t.client], amount@, false) {
            Some(a) => StoreView { accounts: s.accounts.insert(t.client, a), ..s },
            None => s,
        }
    } else {
        StoreView {
            accounts: s.accounts.insert(t.client, acct_new(0)),
            order: s.order.push(t.client),
            ..s
        }
    }
}

/// A dispute by `t.client` of the stored transaction `t.tx`: holds its amount
/// and marks it `Disputed`. A no-op unless the record exists in state
/// `Success` and the hold succeeds.
pub open spec fn store_dispute(s: StoreView, t: Transaction) -> StoreView {
    if !s.history.contains_key(t.tx) {
        s
    } else {
        let h = s.history[t.tx];
        if h.state == TransactionState::Success {
            match acct_hold(s.accounts[t.client], h.amount@) {
                Some(a) => StoreView {
                    accounts: s.accounts.insert(t.client, a),
                    history: s.history.insert(t.tx, hist_with_state(h, TransactionState::Disputed)),
                    ..s
                },
                None => s,
            }
        } else {
            s
        }
    }
}

/// A resolve by `t.client` of the disputed transaction `t.tx`: releases its
/// held amount and marks it `Success` again. A no-op unless the record exists
/// in state `Disputed` and the release succeeds.
pub open spec fn store_resolve(s: StoreView, t: Transaction) -> StoreView {
    if !s.history.contains_key(t.tx) {
        s
    } else {
        let h = s.history[t.tx];
        if h.state == TransactionState::Disputed {
            match acct_release(s.accounts[t.client], h.amount@) {
                Some(a) => StoreView {
                    accounts: s.accounts.insert(t.client, a),
                    history: s.history.insert(t.tx, hist_with_state(h, TransactionState::Success)),
                    ..s
                },
                None => s,
            }
        } else {
            s
        }
    }
}

/// A chargeback by `t.client` of the disputed transaction `t.tx`: reverses
/// its amount, locks the account for good and marks the record `ChargedBack`.
/// A no-op unless the record exists in state `Disputed` and the reversal
/// succeeds.
pub open spec fn store_chargeback(s: StoreView, t: Transaction) -> StoreView {
    if !s.history.contains_key(t.tx) {
        s
    } else {
        let h = s.history[t.tx];
        if h.state == TransactionState::Disputed {
            match acct_chargeback(s.accounts[t.client], h.amount@) {
                Some(a) => StoreView {
                    accounts: s.accounts.insert(t.client, a),
                    history: s.history.insert(
                        t.tx,
                        hist_with_state(h, TransactionState::ChargedBack),
                    ),
                    ..s
                },
                None => s,
            }
        } else {
            s
        }
    }
}

/// The complete transition of the ledger on one input record. First match
/// wins: a deposit with an amount always dispatches; the dispute-lifecycle
/// kinds dispatch only for a client whose account already exists; a
/// withdrawal with an amount always dispatches; anything else (in particular
/// a deposit or withdrawal missing its amount) is a no-op.
pub open spec fn store_apply(s: StoreView, t: Transaction) -> StoreView {
    if t.tr_type == TransactionType::Deposit && t.amount is Some {
        store_deposit(s, t, t.amount.unwrap())
    } else if t.tr_type == TransactionType::Dispute && s.accounts.contains_key(t.client) {
        store_dispute(s, t)
    } else if t.tr_type == TransactionType::Chargeback && s.accounts.contains_key(t.client) {
        store_chargeback(s, t)
    } else if t.tr_type == TransactionType::Resolve && s.accounts.contains_key(t.client) {
        store_resolve(s, t)
    } else if t.tr_type == TransactionType::Withdrawal && t.amount is Some {
        store_withdraw(s, t, t.amount.unwrap())
    } else {
        s
    }
}

/// Whether dispatching `t` reports success. Only a failed deposit, or a
/// failed hold, release or reversal of an existing record in the right
/// state, reports an error; every other outcome (including a refused
/// withdrawal) is reported as accepted.
pub open spec fn store_apply_ok(s: StoreView, t: Transaction) -> bool {
    if t.tr_type == TransactionType::Deposit && t.amount is Some {
        s.accounts.contains_key(t.client) ==> acct_deposit(
            s.accounts[t.client],
            t.amount.unwrap()@,
        ) is Some
    } else if t.tr_type == TransactionType::Dispute && s.accounts.contains_key(t.client) {
        (s.history.contains_key(t.tx) && s.history[t.tx].state == TransactionState::Success)
            ==> acct_hold(s.accounts[t.client], s.history[t.tx].amount@) is Some
    } else if t.tr_type == TransactionType::Chargeback && s.accounts.contains_key(t.client) {
        (s.history.contains_key(t.tx) && s.history[t.tx].state == TransactionState::Disputed)
            ==> acct_chargeback(s.accounts[t.client], s.history[t.tx].amount@) is Some
    } else if t.tr_type == TransactionType::Resolve && s.accounts.contains_key(t.client) {
        (s.history.contains_key(t.tx) && s.history[t.tx].state == TransactionState::Disputed)
            ==> acct_release(s.accounts[t.client], s.history[t.tx].amount@) is Some
    } else {
        true
    }
}

/// Ledger invariant: every balance and every stored amount is in range, and
/// the creation order lists exactly the clients that have an account, each
/// once.
pub open spec fn store_inv(s: StoreView) -> bool {
    &&& forall|c: u16| #[trigger] s.accounts.contains_key(c) ==> acct_wf(s.accounts[c])
    &&& forall|i: u32| #[trigger] s.history.contains_key(i) ==> amt_ok(s.history[i].amount@)
    &&& s.order.no_duplicates()
    &&& forall|c: u16|
        #![trigger s.accounts.contains_key(c)]
        #![trigger s.order.contains(c)]
        s.accounts.contains_key(c) <==> s.order.contains(c)
}

/// One client's balances as the ledger holds them.
#[derive(Clone, Copy, Debug)]
pub struct InternalAccount {
    held: Amount,
    total: Amount,
    is_locked: bool,
}

impl View for InternalAccount {
    type V = AccountView;

    closed spec fn view(&self) -> AccountView {
        AccountView { held: self.held@, total: self.total@, locked: self.is_locked }
    }
}

impl InternalAccount {
    /// Balances in range.
    pub open spec fn wf(self) -> bool {
        acct_wf(self@)
    }

    /// The report row for this account under the given client id.
    fn to_account(&self, id: u16) -> (r: Account)
        requires
            self.wf(),
        ensures
            r.client == id,
            r.available@ == self@.total - self@.held,
            r.held@ == self@.held,
            r.total@ == self@.total,
            r.locked == self@.locked,
    {
        Account::new(id, self.total.sub_wide(self.held), self.held, self.total, self.is_locked)
    }

    fn check_is_locked(&self) -> (r: ApplicationResult<()>)
        ensures
            r is Ok <==> !self@.locked,
    {
        if self.is_locked {
            ApplicationError::err("Account is locked")
        } else {
            Ok(())
        }
    }

    fn new_with_no_funds() -> (r: Self)
        ensures
            r@ == acct_new(0),
    {
        InternalAccount::new(Amount::zero())
    }

    fn new(amount: Amount) -> (r: Self)
        ensures
            r@ == acct_new(amount@),
    {
        Self { held: Amount::zero(), total: amount, is_locked: false }
    }

    fn withdraw(self, amount: Amount, is_chargeback: bool) -> (r: ApplicationResult<
        InternalAccount,
    >)
        requires
            self.wf(),
            amount.inv(),
        ensures
            (match acct_withdraw(self@, amount@, is_chargeback) {
                Some(v) => r matches Ok(a) && a@ == v && a.wf(),
                None => r is Err,
            }),
    {
        match self.total.checked_sub(amount) {
            None => ApplicationError::err("Account balance out of range"),
            Some(new_total) => {
                match self.check_is_locked() {
                    Err(e) => Err(e),
                    Ok(()) => {
                        let available = if is_chargeback {
                            new_total
                        } else {
                            new_total.sub_wide(self.held)
                        };
                        if available.is_nonneg() {
                            Ok(Self { held: self.held, total: new_total, is_locked: self.is_locked })
                        } else {
                            ApplicationError::err("Account does not have sufficient funds")
                        }
                    },
                }
            },
        }
    }

    /// Credit `amount` to this account.
    pub fn deposit(self, amount: Amount) -> (r: ApplicationResult<InternalAccount>)
        requires
            self.wf(),
            amount.inv(),
        ensures
            (match acct_deposit(self@, amount@) {
                Some(v) => r matches Ok(a) && a@ == v && a.wf(),
                None => r is Err,
            }),
    {
        match self.check_is_locked() {
            Err(e) => Err(e),
            Ok(()) => match self.total.checked_add(amount) {
                Some(new_total) => Ok(
                    Self { held: self.held, total: new_total, is_locked: self.is_locked },
                ),
                None => ApplicationError::err("Account balance out of range"),
            },
        }
    }

    fn hold(self, amount: Amount) -> (r: ApplicationResult<InternalAccount>)
        requires
            self.wf(),
            amount.inv(),
        ensures
            (match acct_hold(self@, amount@) {
                Some(v) => r matches Ok(a) && a@ == v && a.wf(),
                None => r is Err,
            }),
    {
        match self.check_is_locked() {
            Err(e) => Err(e),
            Ok(()) => match self.held.checked_add(amount) {
                None => ApplicationError::err(
                    "Cannot dispute transaction due to insufficient funds in account",
                ),
                Some(new_held) => {
                    if new_held.le(self.total) {
                        Ok(Self { held: new_held, total: self.total, is_locked: self.is_locked })
                    } else {
                        ApplicationError::err(
                            "Cannot dispute transaction due to insufficient funds in account",
                        )
                    }
                },
            },
        }
    }

    fn release_hold(self, amount: Amount) -> (r: ApplicationResult<InternalAccount>)
        requires
            self.wf(),
            amount.inv(),
        ensures
            (match acct_release(self@, amount@) {
                Some(v) => r matches Ok(a) && a@ == v && a.wf(),
                None => r is Err,
            }),
    {
        match self.check_is_locked() {
            Err(e) => Err(e),
            Ok(()) => match self.held.checked_sub(amount) {
                None => ApplicationError::err("Account balance out of range"),
                Some(new_held) => Ok(
                    Self { held: new_held, total: self.total, is_locked: self.is_locked },
                ),
            },
        }
    }

    fn chargeback(self, amount: Amount) -> (r: ApplicationResult<InternalAccount>)
        requires
            self.wf(),
            amount.inv(),
        ensures
            (match acct_chargeback(self@, amount@) {
                Some(v) => r matches Ok(a) && a@ == v && a.wf(),
                None => r is Err,
            }),
    {
        match self.withdraw(amount, true) {
            Err(e) => Err(e),
            Ok(acc) => match acc.held.checked_sub(amount) {
                None => ApplicationError::err("Account balance out of range"),
                Some(new_held) => Ok(
                    Self { held: new_held, total: acc.total, is_locked: true },
                ),
            },
        }
    }
}

/// The ledger: balances per client, history per transaction id, and the
/// order in which accounts were created.
pub struct AccountStore {
    accounts: HashMap<u16, InternalAccount>,
    client_order: Vec<u16>,
    tx_history: HashMap<u32, HistoricalTransaction>,
}

impl View for AccountStore {
    type V = StoreView;

    closed spec fn view(&self) -> StoreView {
        StoreView {
            accounts: self.accounts@.map_values(|a: InternalAccount| a@),
            history: self.tx_history@,
            order: self.client_order@,
        }
    }
}

impl AccountStore {
    /// The ledger invariant, over the ghost state.
    pub open spec fn inv(&self) -> bool {
        store_inv(self@)
    }

    /// An empty ledger.
    pub fn new() -> (r: Self)
        ensures
            r@.accounts == Map::<u16, AccountView>::empty(),
            r@.history == Map::<u32, HistoricalTransaction>::empty(),
            r@.order == Seq::<u16>::empty(),
            r.inv(),
    {
        let r = Self {
            accounts: HashMap::new(),
            client_order: Vec::new(),
            tx_history: HashMap::new(),
        };
        proof {
            assert(r@.accounts =~= Map::<u16, AccountView>::empty());
        }
        r
    }

    /// Insert or replace a client's account, keeping the creation order.
    fn insert_account(&mut self, client: u16, account: InternalAccount)
        ensures
            final(self)@.accounts == old(self)@.accounts.insert(client, account@),
            final(self)@.order == (if old(self)@.accounts.contains_key(client) {
                old(self)@.order
            } else {
                old(self)@.order.push(client)
            }),
            final(self)@.history == old(self)@.history,
            old(self).inv() && acct_wf(account@) ==> final(self).inv(),
    {
        proof {
            assert(self.accounts@.contains_key(client) == self@.accounts.contains_key(client));
        }
        if !self.accounts.contains_key(&client) {
            self.client_order.push(client);
        }
        self.accounts.insert(client, account);
        proof {
            assert(self@.accounts =~= old(self)@.accounts.insert(client, account@));
            if old(self).inv() && acct_wf(account@) {
                assert forall|c: u16|
                    self@.accounts.contains_key(c) <==> self@.order.contains(c) by {
                    if c != client {
                        assert(old(self)@.accounts.contains_key(c) <==> old(
                            self,
                        )@.order.contains(c));
                    }
                    if !old(self)@.accounts.contains_key(client) {
                        assert(self@.order == old(self)@.order.push(client));
                        assert(self@.order.contains(c) <==> (old(self)@.order.contains(c) || c
                            == client)) by {
                            if self@.order.contains(c) {
                                let i = choose|i: int|
                                    0 <= i < self@.order.len() && self@.order[i] == c;
                                if i < old(self)@.order.len() {
                                    assert(old(self)@.order[i] == c);
                                }
                            }
                            if old(self)@.order.contains(c) {
                                let i = choose|i: int|
                                    0 <= i < old(self)@.order.len() && old(self)@.order[i] == c;
                                assert(self@.order[i] == c);
                            }
                            if c == client {
                                assert(self@.order[old(self)@.order.len() as int] == c);
                            }
                        }
                    }
                }
                if !old(self)@.accounts.contains_key(client) {
                    assert(!old(self)@.order.contains(client));
                    assert(self@.order.no_duplicates());
                }
            }
        }
    }

    /// The stored record of transaction `id`, if any.
    fn get_historical_tx(&self, id: u32) -> (r: Option<&HistoricalTransaction>)
        ensures
            (match r {
                Some(h) => self@.history.contains_key(id) && *h == self@.history[id],
                None => !self@.history.contains_key(id),
            }),
    {
        self.tx_history.get(&id)
    }

    /// Replace the state of the stored record of transaction `id`, if any.
    fn update_tx_state(&mut self, id: u32, state: TransactionState)
        ensures
            final(self)@.accounts == old(self)@.accounts,
            final(self)@.order == old(self)@.order,
            final(self)@.history == (if old(self)@.history.contains_key(id) {
                old(self)@.history.insert(id, hist_with_state(old(self)@.history[id], state))
            } else {
                old(self)@.history
            }),
    {
        let tx_opt: Option<HistoricalTransaction> = match self.tx_history.get(&id) {
            Some(h) => Some(*h),
            None => None,
        };
        match tx_opt {
            Some(tx) => {
                let updated = tx.update_state(state);
                self.tx_history.insert(id, updated);
            },
            None => (),
        }
    }

    /// Record an accepted deposit under its transaction id.
    fn add_tx_to_history(&mut self, tx: Transaction, amount: Amount)
        ensures
            final(self)@.accounts == old(self)@.accounts,
            final(self)@.order == old(self)@.order,
            final(self)@.history == old(self)@.history.insert(
                tx.tx,
                (HistoricalTransaction {
                    tr_type: tx.tr_type,
                    client: tx.client,
                    tx: tx.tx,
                    amount,
                    state: TransactionState::Success,
                }),
            ),
    {
        let h = tx.to_historical_transaction(amount);
        self.tx_history.insert(tx.tx, h);
    }

    /// Apply one input record to the ledger. The ghost transition is exactly
    /// [`store_apply`]; the result reports an error exactly when
    /// [`store_apply_ok`] says so, and business failures leave the ledger
    /// unchanged.
    pub fn add_tx(&mut self, tx: Transaction) -> (r: ApplicationResult<()>)
        requires
            old(self).inv(),
            tx_wf(tx),
        ensures
            final(self)@ == store_apply(old(self)@, tx),
            final(self).inv(),
            r is Ok <==> store_apply_ok(old(self)@, tx),
    {
        let account_opt: Option<InternalAccount> = match self.accounts.get(&tx.client) {
            Some(a) => Some(*a),
            None => None,
        };
        proof {
            match account_opt {
                Some(a) => {
                    assert(self@.accounts.contains_key(tx.client));
                    assert(a@ == self@.accounts[tx.client]);
                },
                None => {
                    assert(!self@.accounts.contains_key(tx.client));
                },
            }
        }
        match (account_opt, tx.tr_type, tx.amount) {
            (acc_opt, TransactionType::Deposit, Some(amount)) => {
                process_deposit(self, acc_opt, tx, amount)
            },
            (Some(account), TransactionType::Dispute, _) => process_dispute(self, account, tx),
            (Some(account), TransactionType::Chargeback, _) => process_chargeback(
                self,
                account,
                tx,
            ),
            (Some(account), TransactionType::Resolve, _) => process_resolve(self, account, tx),
            (acc_opt, TransactionType::Withdrawal, Some(amount)) => {
                process_withdrawal(self, acc_opt, tx, amount)
            },
            _ => Ok(()),
        }
    }

    /// The final report: one row per client, in account-creation order.
    pub fn export_accounts(&self) -> (r: Vec<Account>)
        requires
            self.inv(),
        ensures
            r@.len() == self@.order.len(),
            forall|i: int|
                0 <= i < r@.len() ==> {
                    let a = self@.accounts[self@.order[i]];
                    &&& (#[trigger] r@[i]).client == self@.order[i]
                    &&& r@[i].available@ == a.total - a.held
                    &&& r@[i].held@ == a.held
                    &&& r@[i].total@ == a.total
                    &&& r@[i].locked == a.locked
                },
    {
        let mut result: Vec<Account> = Vec::new();
        let mut idx: usize = 0;
        while idx < self.client_order.len()
            invariant
                self.inv(),
                idx <= self.client_order.len(),
                result@.len() == idx,
                forall|i: int|
                    0 <= i < idx as int ==> {
                        let a = self@.accounts[self@.order[i]];
                        &&& (#[trigger] result@[i]).client == self@.order[i]
                        &&& result@[i].available@ == a.total - a.held
                        &&& result@[i].held@ == a.held
                        &&& result@[i].total@ == a.total
                        &&& result@[i].locked == a.locked
                    },
            decreases self.client_order.len() - idx,
        {
            let client = self.client_order[idx];
            proof {
                assert(self@.order.contains(self@.order[idx as int]));
                assert(self@.accounts.contains_key(client));
            }
            match self.accounts.get(&client) {
                Some(account) => {
                    proof {
                        assert(account@ == self@.accounts[client]);
                        assert(acct_wf(account@));
                    }
                    let row = account.to_account(client);
                    result.push(row);
                },
                None => (),
            }
            idx = idx + 1;
        }
        result
    }
}

/// Dispatch target for a deposit with an amount: credit the account, create
/// it if absent, and record the transaction to history on success only.
fn process_deposit(
    account_store: &mut AccountStore,
    account_opt: Option<InternalAccount>,
    tx: Transaction,
    amount: Amount,
) -> (r: ApplicationResult<()>)
    requires
        old(account_store).inv(),
        amount.inv(),
        (match account_opt {
            Some(a) => old(account_store)@.accounts.contains_key(tx.client) && a@ == old(
                account_store,
            )@.accounts[tx.client],
            None => !old(account_store)@.accounts.contains_key(tx.client),
        }),
    ensures
        final(account_store)@ == store_deposit(old(account_store)@, tx, amount),
        final(account_store).inv(),
        r is Ok <==> (old(account_store)@.accounts.contains_key(tx.client) ==> acct_deposit(
            old(account_store)@.accounts[tx.client],
            amount@,
        ) is Some),
{
    let res: ApplicationResult<()> = match account_opt {
        Some(account) => {
            match account.deposit(amount) {
                Ok(new_account) => {
                    account_store.insert_account(tx.client, new_account);
                    Ok(())
                },
                Err(e) => Err(e),
            }
        },
        None => {
            account_store.insert_account(tx.client, InternalAccount::new(amount));
            Ok(())
        },
    };
    if res.is_ok() {
        account_store.add_tx_to_history(tx, amount);
    }
    proof {
        assert(final(account_store)@ =~= store_deposit(old(account_store)@, tx, amount));
        if res is Ok {
            assert forall|i: u32| final(account_store)@.history.contains_key(i) implies amt_ok(
                final(account_store)@.history[i].amount@,
            ) by {
                if i != tx.tx {
                    assert(old(account_store)@.history.contains_key(i));
                }
            }
        }
    }
    res
}

/// Dispatch target for a withdrawal with an amount: debit the account when
/// the funds check passes; a client never seen before gets a fresh empty
/// account. Failures are swallowed.
fn process_withdrawal(
    account_store: &mut AccountStore,
    account_opt: Option<InternalAccount>,
    tx: Transaction,
    amount: Amount,
) -> (r: ApplicationResult<()>)
    requires
        old(account_store).inv(),
        amount.inv(),
        (match account_opt {
            Some(a) => old(account_store)@.accounts.contains_key(tx.client) && a@ == old(
                account_store,
            )@.accounts[tx.client],
            None => !old(account_store)@.accounts.contains_key(tx.client),
        }),
    ensures
        final(account_store)@ == store_withdraw(old(account_store)@, tx, amount),
        final(account_store).inv(),
        r is Ok,
{
    let res: ApplicationResult<()> = match account_opt {
        Some(account) => {
            match account.withdraw(amount, false) {
                Ok(new_account) => {
                    account_store.insert_account(tx.client, new_account);
                },
                Err(_) => (),
            }
            Ok(())
        },
        None => {
            account_store.insert_account(tx.client, InternalAccount::new_with_no_funds());
            Ok(())
        },
    };
    proof {
        assert(final(account_store)@ =~= store_withdraw(old(account_store)@, tx, amount));
    }
    res
}

/// Dispatch target for a dispute by a client with an account: hold the
/// disputed amount and mark the stored record `Disputed`.
fn process_dispute(
    account_store: &mut AccountStore,
    account: InternalAccount,
    tx: Transaction,
) -> (r: ApplicationResult<()>)
    requires
        old(account_store).inv(),
        old(account_store)@.accounts.contains_key(tx.client),
        account@ == old(account_store)@.accounts[tx.client],
    ensures
        final(account_store)@ == store_dispute(old(account_store)@, tx),
        final(account_store).inv(),
        r is Ok <==> ((old(account_store)@.history.contains_key(tx.tx) && old(
            account_store,
        )@.history[tx.tx].state == TransactionState::Success) ==> acct_hold(
            old(account_store)@.accounts[tx.client],
            old(account_store)@.history[tx.tx].amount@,
        ) is Some),
{
    let hist_opt: Option<HistoricalTransaction> = match account_store.get_historical_tx(tx.tx) {
        Some(h) => Some(*h),
        None => None,
    };
    match hist_opt {
        Some(historical_tx) => {
            if historical_tx.state == TransactionState::Success {
                match account.hold(historical_tx.amount) {
                    Ok(new_account) => {
                        account_store.insert_account(tx.client, new_account);
                        account_store.update_tx_state(tx.tx, TransactionState::Disputed);
                        proof {
                            assert(final(account_store)@ =~= store_dispute(
                                old(account_store)@,
                                tx,
                            ));
                            assert forall|i: u32|
                                final(account_store)@.history.contains_key(i) implies amt_ok(
                                final(account_store)@.history[i].amount@,
                            ) by {
                                assert(old(account_store)@.history.contains_key(i));
                            }
                        }
                        Ok(())
                    },
                    Err(e) => Err(e),
                }
            } else {
                Ok(())
            }
        },
        None => Ok(()),
    }
}

/// Dispatch target for a chargeback by a client with an account: reverse the
/// disputed amount, lock the account and mark the stored record `ChargedBack`.
fn process_chargeback(
    account_store: &mut AccountStore,
    account: InternalAccount,
    tx: Transaction,
) -> (r: ApplicationResult<()>)
    requires
        old(account_store).inv(),
        old(account_store)@.accounts.contains_key(tx.client),
        account@ == old(account_store)@.accounts[tx.client],
    ensures
        final(account_store)@ == store_chargeback(old(account_store)@, tx),
        final(account_store).inv(),
        r is Ok <==> ((old(account_store)@.history.contains_key(tx.tx) && old(
            account_store,
        )@.history[tx.tx].state == TransactionState::Disputed) ==> acct_chargeback(
            old(account_store)@.accounts[tx.client],
            old(account_store)@.history[tx.tx].amount@,
        ) is Some),
{
    let hist_opt: Option<HistoricalTransaction> = match account_store.get_historical_tx(tx.tx) {
        Some(h) => Some(*h),
        None => None,
    };
    match hist_opt {
        Some(historical_tx) => {
            if historical_tx.state == TransactionState::Disputed {
                match account.chargeback(historical_tx.amount) {
                    Ok(new_account) => {
                        account_store.insert_account(tx.client, new_account);
                        account_store.update_tx_state(tx.tx, TransactionState::ChargedBack);
                        proof {
                            assert(final(account_store)@ =~= store_chargeback(
                                old(account_store)@,
                                tx,
                            ));
                            assert forall|i: u32|
                                final(account_store)@.history.contains_key(i) implies amt_ok(
                                final(account_store)@.history[i].amount@,
                            ) by {
                                assert(old(account_store)@.history.contains_key(i));
                            }
                        }
                        Ok(())
                    },
                    Err(e) => Err(e),
                }
            } else {
                Ok(())
            }
        },
        None => Ok(()),
    }
}

/// Dispatch target for a resolve by a client with an account: release the
/// disputed amount and mark the stored record `Success` again.
fn process_resolve(
    account_store: &mut AccountStore,
    account: InternalAccount,
    tx: Transaction,
) -> (r: ApplicationResult<()>)
    requires
        old(account_store).inv(),
        old(account_store)@.accounts.contains_key(tx.client),
        account@ == old(account_store)@.accounts[tx.client],
    ensures
        final(account_store)@ == store_resolve(old(account_store)@, tx),
        final(account_store).inv(),
        r is Ok <==> ((old(account_store)@.history.contains_key(tx.tx) && old(
            account_store,
        )@.history[tx.tx].state == TransactionState::Disputed) ==> acct_release(
            old(account_store)@.accounts[tx.client],
            old(account_store)@.history[tx.tx].amount@,
        ) is Some),
{
    let hist_opt: Option<HistoricalTransaction> = match account_store.get_historical_tx(tx.tx) {
        Some(h) => Some(*h),
        None => None,
    };
    match hist_opt {
        Some(historical_tx) => {
            if historical_tx.state == TransactionState::Disputed {
                match account.release_hold(historical_tx.amount) {
                    Ok(new_account) => {
                        account_store.insert_account(tx.client, new_account);
                        account_store.update_tx_state(tx.tx, TransactionState::Success);
                        proof {
                            assert(final(account_store)@ =~= store_resolve(
                                old(account_store)@,
                                tx,
                            ));
                            assert forall|i: u32|
                                final(account_store)@.history.contains_key(i) implies amt_ok(
                                final(account_store)@.history[i].amount@,
                            ) by {
                                assert(old(account_store)@.history.contains_key(i));
                            }
                        }
                        Ok(())
                    },
                    Err(e) => Err(e),
                }
            } else {
                Ok(())
            }
        },
        None => Ok(()),
    }
}

} // verus!
