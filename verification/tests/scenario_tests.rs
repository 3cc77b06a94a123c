use txledger::amount::{Amount, MAX_UNITS};
use txledger::engine::AccountStore;
use txledger::models::{Account, Transaction, TransactionType};

fn apply_all(store: &mut AccountStore, txs: Vec<Transaction>) {
    for tx in txs {
        let _ = store.add_tx(tx);
    }
}

#[test]
fn single_deposit_reports_full_available() {
    let mut store = AccountStore::new();
    apply_all(
        &mut store,
        vec![Transaction::new(
            TransactionType::Deposit,
            1,
            1,
            Some(Amount::from_units(54320)),
        )],
    );
    let rows = store.export_accounts();
    assert_eq!(
        rows,
        vec![Account::new(
            1,
            Amount::from_units(54320),
            Amount::zero(),
            Amount::from_units(54320),
            false,
        )]
    );
}

#[test]
fn deposit_then_withdrawal_reports_difference() {
    let mut store = AccountStore::new();
    apply_all(
        &mut store,
        vec![
            Transaction::new(TransactionType::Deposit, 1, 1, Some(Amount::from_units(54320))),
            Transaction::new(TransactionType::Withdrawal, 1, 2, Some(Amount::from_units(32410))),
        ],
    );
    let rows = store.export_accounts();
    assert_eq!(
        rows,
        vec![Account::new(
            1,
            Amount::from_units(21910),
            Amount::zero(),
            Amount::from_units(21910),
            false,
        )]
    );
}

#[test]
fn dispute_holds_full_amount() {
    let mut store = AccountStore::new();
    apply_all(
        &mut store,
        vec![
            Transaction::new(TransactionType::Deposit, 1, 1, Some(Amount::from_units(54320))),
            Transaction::new(TransactionType::Dispute, 1, 1, None),
        ],
    );
    let rows = store.export_accounts();
    assert_eq!(
        rows,
        vec![Account::new(
            1,
            Amount::zero(),
            Amount::from_units(54320),
            Amount::from_units(54320),
            false,
        )]
    );
}

#[test]
fn chargeback_zeroes_and_locks_for_good() {
    let mut store = AccountStore::new();
    apply_all(
        &mut store,
        vec![
            Transaction::new(TransactionType::Deposit, 1, 1, Some(Amount::from_units(54320))),
            Transaction::new(TransactionType::Dispute, 1, 1, None),
            Transaction::new(TransactionType::Chargeback, 1, 1, None),
        ],
    );
    let zeroed = Account::new(1, Amount::zero(), Amount::zero(), Amount::zero(), true);
    assert_eq!(store.export_accounts(), vec![zeroed]);

    // A later deposit is rejected and the account stays at zero.
    let late = Transaction::new(TransactionType::Deposit, 1, 9, Some(Amount::from_units(100)));
    let r = store.add_tx(late);
    assert!(r.is_err());
    assert_eq!(store.export_accounts(), vec![zeroed]);
}

#[test]
fn held_funds_check_runs_against_current_total() {
    // The disputed amount exceeds the total left after the withdrawal, so the
    // hold is refused and the account is unchanged.
    let mut store = AccountStore::new();
    apply_all(
        &mut store,
        vec![
            Transaction::new(TransactionType::Deposit, 1, 1, Some(Amount::from_units(54320))),
            Transaction::new(TransactionType::Withdrawal, 1, 2, Some(Amount::from_units(25550))),
            Transaction::new(TransactionType::Dispute, 1, 1, None),
        ],
    );
    let leftover = Amount::from_units(28770);
    assert_eq!(
        store.export_accounts(),
        vec![Account::new(1, leftover, Amount::zero(), leftover, false)]
    );

    // A disputed amount within the remaining total is held in full.
    let mut store2 = AccountStore::new();
    apply_all(
        &mut store2,
        vec![
            Transaction::new(TransactionType::Deposit, 1, 1, Some(Amount::from_units(20000))),
            Transaction::new(TransactionType::Deposit, 1, 2, Some(Amount::from_units(10000))),
            Transaction::new(TransactionType::Withdrawal, 1, 3, Some(Amount::from_units(15000))),
            Transaction::new(TransactionType::Dispute, 1, 2, None),
        ],
    );
    assert_eq!(
        store2.export_accounts(),
        vec![Account::new(
            1,
            Amount::from_units(5000),
            Amount::from_units(10000),
            Amount::from_units(15000),
            false,
        )]
    );
}

#[test]
fn resolve_restores_pre_dispute_balances() {
    let mut store = AccountStore::new();
    apply_all(
        &mut store,
        vec![
            Transaction::new(TransactionType::Deposit, 1, 1, Some(Amount::from_units(54320))),
            Transaction::new(TransactionType::Dispute, 1, 1, None),
            Transaction::new(TransactionType::Resolve, 1, 1, None),
            // Re-resolving an entry back in the Success state is a no-op.
            Transaction::new(TransactionType::Resolve, 1, 1, None),
        ],
    );
    let amount = Amount::from_units(54320);
    assert_eq!(
        store.export_accounts(),
        vec![Account::new(1, amount, Amount::zero(), amount, false)]
    );
}

#[test]
fn negative_deposit_is_accepted_and_debits() {
    let mut store = AccountStore::new();
    apply_all(
        &mut store,
        vec![Transaction::new(
            TransactionType::Deposit,
            1,
            1,
            Some(Amount::from_units(-5000)),
        )],
    );
    let neg = Amount::from_units(-5000);
    assert_eq!(
        store.export_accounts(),
        vec![Account::new(1, neg, Amount::zero(), neg, false)]
    );
}

#[test]
fn empty_run_reports_no_rows() {
    let store = AccountStore::new();
    assert_eq!(store.export_accounts(), Vec::new());
}

#[test]
fn rows_follow_account_creation_order() {
    let mut store = AccountStore::new();
    apply_all(
        &mut store,
        vec![
            Transaction::new(TransactionType::Deposit, 7, 1, Some(Amount::from_units(100))),
            Transaction::new(TransactionType::Deposit, 3, 2, Some(Amount::from_units(200))),
            Transaction::new(TransactionType::Deposit, 7, 3, Some(Amount::from_units(50))),
        ],
    );
    let rows = store.export_accounts();
    assert_eq!(rows.len(), 2);
    assert_eq!(rows[0].client, 7);
    assert_eq!(rows[0].total, Amount::from_units(150));
    assert_eq!(rows[1].client, 3);
    assert_eq!(rows[1].total, Amount::from_units(200));
}

#[test]
fn withdrawal_by_unknown_client_creates_empty_account() {
    let mut store = AccountStore::new();
    apply_all(
        &mut store,
        vec![Transaction::new(
            TransactionType::Withdrawal,
            9,
            1,
            Some(Amount::from_units(100)),
        )],
    );
    assert_eq!(
        store.export_accounts(),
        vec![Account::new(9, Amount::zero(), Amount::zero(), Amount::zero(), false)]
    );
}

#[test]
fn deposit_missing_amount_is_ignored() {
    let mut store = AccountStore::new();
    apply_all(
        &mut store,
        vec![Transaction::new(TransactionType::Deposit, 1, 1, None)],
    );
    assert_eq!(store.export_accounts(), Vec::new());
}

#[test]
fn dispute_holds_in_the_disputing_clients_account() {
    // The hold lands on the account of the client named by the dispute row,
    // with the amount of the stored transaction it points at.
    let mut store = AccountStore::new();
    apply_all(
        &mut store,
        vec![
            Transaction::new(TransactionType::Deposit, 1, 1, Some(Amount::from_units(5000))),
            Transaction::new(TransactionType::Deposit, 2, 2, Some(Amount::from_units(7000))),
            Transaction::new(TransactionType::Dispute, 2, 1, None),
        ],
    );
    let rows = store.export_accounts();
    assert_eq!(rows.len(), 2);
    assert_eq!(
        rows[0],
        Account::new(
            1,
            Amount::from_units(5000),
            Amount::zero(),
            Amount::from_units(5000),
            false,
        )
    );
    assert_eq!(
        rows[1],
        Account::new(
            2,
            Amount::from_units(2000),
            Amount::from_units(5000),
            Amount::from_units(7000),
            false,
        )
    );
}

#[test]
fn business_failures_report_errors_but_do_not_corrupt() {
    let mut store = AccountStore::new();
    let amount = Amount::from_units(1000);
    assert!(store
        .add_tx(Transaction::new(TransactionType::Deposit, 1, 1, Some(amount)))
        .is_ok());
    // A refused withdrawal is swallowed: reported as accepted, no effect.
    assert!(store
        .add_tx(Transaction::new(
            TransactionType::Withdrawal,
            1,
            2,
            Some(Amount::from_units(2000)),
        ))
        .is_ok());
    // A dispute whose hold would exceed the total reports an error.
    assert!(store
        .add_tx(Transaction::new(TransactionType::Deposit, 1, 3, Some(Amount::from_units(900))))
        .is_ok());
    assert!(store
        .add_tx(Transaction::new(
            TransactionType::Withdrawal,
            1,
            4,
            Some(Amount::from_units(1500)),
        ))
        .is_ok());
    assert!(store
        .add_tx(Transaction::new(TransactionType::Dispute, 1, 1, None))
        .is_err());
    let total = Amount::from_units(400);
    assert_eq!(
        store.export_accounts(),
        vec![Account::new(1, total, Amount::zero(), total, false)]
    );
}

#[test]
fn amount_units_round_trip_and_range() {
    let a = Amount::from_units(5432);
    assert_eq!(a.units(), 5432);
    assert_eq!(Amount::try_from_units(5432).unwrap(), a);
    assert!(Amount::try_from_units(MAX_UNITS).is_some());
    assert!(Amount::try_from_units(-MAX_UNITS).is_some());
    assert!(Amount::try_from_units(MAX_UNITS + 1).is_none());
    assert!(Amount::try_from_units(-MAX_UNITS - 1).is_none());
}
