//! Input records, history records and the report row.

use crate::amount::Amount;
use vstd::prelude::*;

verus! {

/// Error carried by failed operations and by the surrounding input tooling.
#[derive(Debug)]
pub struct ApplicationError {
    pub msg: String,
}

pub type ApplicationResult<A> = Result<A, ApplicationError>;

/// The five kinds of input transaction.
#[derive(Clone, Copy, Debug, PartialEq, Eq, Structural)]
pub enum TransactionType {
    Chargeback,
    Deposit,
    Dispute,
    Resolve,
    Withdrawal,
}

/// One input record. `amount` is present for deposits and withdrawals and
/// absent for the dispute-lifecycle kinds.
#[derive(Clone, Copy, Debug)]
pub struct Transaction {
    pub tr_type: TransactionType,
    pub client: u16,
    pub tx: u32,
    pub amount: Option<Amount>,
}

/// A transaction is well formed when its amount, if any, is in range.
pub open spec fn tx_wf(t: Transaction) -> bool {
    t.amount matches Some(a) ==> a.inv()
}

impl Transaction {
    pub fn new(tr_type: TransactionType, client: u16, tx: u32, amount: Option<Amount>) -> (r: Self)
        ensures
            r == (Transaction { tr_type, client, tx, amount }),
    {
        Self { tr_type, client, tx, amount }
    }

    /// The history record that stores this transaction at acceptance time,
    /// carrying the given amount and starting in the `Success` state.
    pub fn to_historical_transaction(&self, amount: Amount) -> (r: HistoricalTransaction)
        ensures
            r == (HistoricalTransaction {
                tr_type: self.tr_type,
                client: self.client,
                tx: self.tx,
                amount,
                state: TransactionState::Success,
            }),
    {
        HistoricalTransaction {
            tr_type: self.tr_type,
            client: self.client,
            tx: self.tx,
            amount,
            state: TransactionState::Success,
        }
    }
}

/// Dispute-lifecycle state of a stored transaction.
#[derive(Clone, Copy, Debug, PartialEq, Eq, Structural)]
pub enum TransactionState {
    ChargedBack,
    Disputed,
    Success,
}

/// A stored, accepted transaction together with its dispute-lifecycle state.
#[derive(Clone, Copy, Debug)]
pub struct HistoricalTransaction {
    pub tr_type: TransactionType,
    pub client: u16,
    pub tx: u32,
    pub amount: Amount,
    pub state: TransactionState,
}

impl HistoricalTransaction {
    /// The same record with its state replaced.
    pub fn update_state(&self, state: TransactionState) -> (r: HistoricalTransaction)
        ensures
            r == (HistoricalTransaction {
                tr_type: self.tr_type,
                client: self.client,
                tx: self.tx,
                amount: self.amount,
                state,
            }),
    {
        Self {
            tr_type: self.tr_type,
            client: self.client,
            tx: self.tx,
            amount: self.amount,
            state,
        }
    }
}

/// One row of the final report: a pure projection of an account.
#[derive(Clone, Copy, Debug, PartialEq, Eq, Structural)]
pub struct Account {
    pub client: u16,
    pub available: Amount,
    pub held: Amount,
    pub total: Amount,
    pub locked: bool,
}

impl Account {
    pub fn new(client: u16, available: Amount, held: Amount, total: Amount, locked: bool) -> (r:
        Self)
        ensures
            r == (Account { client, available, held, total, locked }),
    {
        Self { client, available, held, total, locked }
    }
}

impl ApplicationError {
    pub fn new(msg: &str) -> (r: Self)
        ensures
            r.msg@ == msg@,
    {
        Self { msg: msg.to_string() }
    }

    pub fn err<A>(msg: &str) -> (r: ApplicationResult<A>)
        ensures
            r matches Err(e) && e.msg@ == msg@,
    {
        Err(ApplicationError::new(msg))
    }
}

} // verus!
