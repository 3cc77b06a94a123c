use txledger::amount::Amount;
use txledger::engine::AccountStore;
use txledger::models::{Account, Transaction, TransactionType};

fn run_test(transactions: Vec<Transaction>, expected_output: Account) {
    let mut store = AccountStore::new();

    transactions.into_iter().for_each(|tx| {
        let _ = store.add_tx(tx);
    });

    let actual_outputs = store.export_accounts();
    assert_eq!(actual_outputs[0], expected_output)
}

fn test_dispute_tx_with_invalid_id(transaction_type: TransactionType) {
    let amount = Amount::from_units(5432);
    let txs = vec![
        Transaction::new(TransactionType::Deposit, 1, 1, Some(amount)),
        Transaction::new(transaction_type, 1, 2, None),
    ];
    run_test(txs, Account::new(1, amount, Amount::zero(), amount, false))
}

fn test_dispute_resolution_without_dispute(transaction_type: TransactionType) {
    let amount = Amount::from_units(5432);
    let txs = vec![
        Transaction::new(TransactionType::Deposit, 1, 1, Some(amount)),
        Transaction::new(transaction_type, 1, 1, None),
    ];
    run_test(txs, Account::new(1, amount, Amount::zero(), amount, false))
}

fn test_tx_with_locked_account(tx: Transaction) {
    let amount = Amount::from_units(5432);
    let deposit = Transaction::new(TransactionType::Deposit, 1, 1, Some(amount));
    let txs = vec![
        deposit.clone(),
        deposit,
        Transaction::new(TransactionType::Dispute, 1, 1, None),
        Transaction::new(TransactionType::Chargeback, 1, 1, None),
        tx,
    ];
    run_test(txs, Account::new(1, amount, Amount::zero(), amount, true))
}

#[test]
fn basic_deposit_should_succeed() {
    let amount = Amount::from_units(5432);
    let txs = vec![Transaction::new(TransactionType::Deposit, 1, 1, Some(amount))];
    run_test(txs, Account::new(1, amount, Amount::zero(), amount, false))
}

#[test]
fn basic_withdrawal_should_succeed() {
    let amount = Amount::from_units(5432);
    let leftover = Amount::from_units(2191);
    let txs = vec![
        Transaction::new(TransactionType::Deposit, 1, 1, Some(amount)),
        Transaction::new(
            TransactionType::Withdrawal,
            1,
            2,
            Some(Amount::from_units(3241)),
        ),
    ];
    run_test(txs, Account::new(1, leftover, Amount::zero(), leftover, false))
}

#[test]
fn basic_dispute_should_succeed() {
    let amount = Amount::from_units(5432);
    let txs = vec![
        Transaction::new(TransactionType::Deposit, 1, 1, Some(amount)),
        Transaction::new(TransactionType::Dispute, 1, 1, None),
    ];
    run_test(txs, Account::new(1, Amount::zero(), amount, amount, false))
}

#[test]
fn basic_chargeback_should_succeed() {
    let amount = Amount::from_units(5432);
    let zero = Amount::zero();
    let txs = vec![
        Transaction::new(TransactionType::Deposit, 1, 1, Some(amount)),
        Transaction::new(TransactionType::Dispute, 1, 1, None),
        Transaction::new(TransactionType::Chargeback, 1, 1, None),
    ];
    run_test(txs, Account::new(1, zero, zero, zero, true))
}

#[test]
fn basic_resolve_should_succeed() {
    let amount = Amount::from_units(5432);
    let zero = Amount::zero();
    let txs = vec![
        Transaction::new(TransactionType::Deposit, 1, 1, Some(amount)),
        Transaction::new(TransactionType::Dispute, 1, 1, None),
        Transaction::new(TransactionType::Resolve, 1, 1, None),
    ];
    run_test(txs, Account::new(1, amount, zero, amount, false))
}

#[test]
fn overdraw_should_fail() {
    let amount = Amount::from_units(5432);
    let txs = vec![
        Transaction::new(TransactionType::Deposit, 1, 1, Some(amount)),
        Transaction::new(
            TransactionType::Withdrawal,
            1,
            2,
            Some(Amount::from_units(5433)),
        ),
    ];
    run_test(txs, Account::new(1, amount, Amount::zero(), amount, false))
}

#[test]
fn dispute_resulting_in_hold_overdraw_should_fail() {
    let amount = Amount::from_units(5432);
    let final_amount = Amount::from_units(2877);
    let txs = vec![
        Transaction::new(TransactionType::Deposit, 1, 1, Some(amount)),
        Transaction::new(
            TransactionType::Withdrawal,
            1,
            2,
            Some(Amount::from_units(2555)),
        ),
        Transaction::new(TransactionType::Dispute, 1, 1, None),
    ];
    run_test(
        txs,
        Account::new(1, final_amount, Amount::zero(), final_amount, false),
    )
}

#[test]
fn dispute_with_invalid_id_should_fail() {
    test_dispute_tx_with_invalid_id(TransactionType::Dispute)
}

#[test]
fn chargeback_with_invalid_id_should_fail() {
    test_dispute_tx_with_invalid_id(TransactionType::Chargeback)
}

#[test]
fn resolve_with_invalid_id_should_fail() {
    test_dispute_tx_with_invalid_id(TransactionType::Resolve)
}

#[test]
fn resolve_without_dispute_should_do_nothing() {
    test_dispute_resolution_without_dispute(TransactionType::Resolve)
}

#[test]
fn chargeback_without_dispute_should_do_nothing() {
    test_dispute_resolution_without_dispute(TransactionType::Chargeback)
}

#[test]
fn deposit_to_locked_account_should_fail() {
    test_tx_with_locked_account(Transaction::new(
        TransactionType::Deposit,
        1,
        5,
        Some(Amount::from_units(540000)),
    ))
}

#[test]
fn withdrawal_from_locked_account_should_fail() {
    test_tx_with_locked_account(Transaction::new(
        TransactionType::Withdrawal,
        1,
        5,
        Some(Amount::from_units(540000)),
    ))
}

#[test]
fn dispute_on_locked_account_should_fail() {
    test_tx_with_locked_account(Transaction::new(TransactionType::Dispute, 1, 2, None))
}
