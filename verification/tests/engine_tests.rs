// The engine folds transactions in arrival order; amounts are in
// ten-thousandth units, so 23456 stands for 2.3456.

use std::collections::HashMap;

use transaction_engine::engine::process_transactions;
use transaction_engine::engine::process_transactions_and_return_client_states;
use transaction_engine::types::ClientInfo;
use transaction_engine::types::ClientState;
use transaction_engine::types::Transaction;
use transaction_engine::types::TransactionType;

#[test]
fn inner_test_deposit_and_withdrawal() {
    let clients = process_transactions(vec![
        Transaction { client: 3, tx: 2, tx_type: TransactionType::Deposit(23456) },
        Transaction { client: 1, tx: 1, tx_type: TransactionType::Deposit(103000) },
        Transaction { client: 3, tx: 5, tx_type: TransactionType::Deposit(1) },
        Transaction { client: 3, tx: 4, tx_type: TransactionType::Withdrawal(11000) },
        Transaction { client: 3, tx: 6, tx_type: TransactionType::Withdrawal(1001000) },
    ]);

    let expected: HashMap<u16, ClientInfo> = [
        (3, ClientInfo { available: 12457, held: 0, locked: false }),
        (1, ClientInfo { available: 103000, held: 0, locked: false }),
    ]
    .into_iter()
    .collect();
    assert_eq!(clients, expected);
}

#[test]
fn inner_test_dispute() {
    let clients = process_transactions(vec![
        Transaction { client: 3, tx: 2, tx_type: TransactionType::Deposit(23456) },
        Transaction { client: 3, tx: 4, tx_type: TransactionType::Withdrawal(20000) },
        Transaction { client: 4, tx: 2, tx_type: TransactionType::Dispute },
        Transaction { client: 3, tx: 100, tx_type: TransactionType::Dispute },
        Transaction { client: 3, tx: 2, tx_type: TransactionType::Dispute },
        Transaction { client: 3, tx: 10, tx_type: TransactionType::Deposit(54321) },
        Transaction { client: 3, tx: 10, tx_type: TransactionType::Dispute },
    ]);

    let expected: HashMap<u16, ClientInfo> = [
        (3, ClientInfo { available: 3456, held: 54321, locked: false }),
        (4, ClientInfo { available: 0, held: 0, locked: false }),
    ]
    .into_iter()
    .collect();
    assert_eq!(clients, expected);
}

#[test]
fn inner_test_resolve() {
    let clients = process_transactions(vec![
        Transaction { client: 3, tx: 10, tx_type: TransactionType::Deposit(54321) },
        Transaction { client: 3, tx: 10, tx_type: TransactionType::Resolve },
        Transaction { client: 3, tx: 10, tx_type: TransactionType::Dispute },
        Transaction { client: 4, tx: 10, tx_type: TransactionType::Resolve },
        Transaction { client: 3, tx: 200, tx_type: TransactionType::Resolve },
        Transaction { client: 3, tx: 10, tx_type: TransactionType::Resolve },
    ]);

    let expected: HashMap<u16, ClientInfo> = [
        (3, ClientInfo { available: 54321, held: 0, locked: false }),
        (4, ClientInfo { available: 0, held: 0, locked: false }),
    ]
    .into_iter()
    .collect();
    assert_eq!(clients, expected);
}

#[test]
fn inner_test_chargeback() {
    let clients = process_transactions(vec![
        Transaction { client: 3, tx: 10, tx_type: TransactionType::Deposit(54321) },
        Transaction { client: 3, tx: 10, tx_type: TransactionType::Chargeback },
        Transaction { client: 3, tx: 10, tx_type: TransactionType::Dispute },
        Transaction { client: 4, tx: 10, tx_type: TransactionType::Chargeback },
        Transaction { client: 3, tx: 200, tx_type: TransactionType::Chargeback },
        Transaction { client: 3, tx: 10, tx_type: TransactionType::Chargeback },
        Transaction { client: 3, tx: 11, tx_type: TransactionType::Deposit(54321) },
        Transaction { client: 3, tx: 12, tx_type: TransactionType::Deposit(54321) },
    ]);

    let expected: HashMap<u16, ClientInfo> = [
        (3, ClientInfo { available: 0, held: 0, locked: true }),
        (4, ClientInfo { available: 0, held: 0, locked: false }),
    ]
    .into_iter()
    .collect();
    assert_eq!(clients, expected);
}

#[test]
fn transaction_processing_logic_test_deposit_and_withdrawal() {
    let clients = process_transactions_and_return_client_states(vec![
        Transaction { client: 3, tx: 2, tx_type: TransactionType::Deposit(23456) },
        Transaction { client: 1, tx: 1, tx_type: TransactionType::Deposit(103000) },
        Transaction { client: 3, tx: 5, tx_type: TransactionType::Deposit(1) },
        Transaction { client: 3, tx: 4, tx_type: TransactionType::Withdrawal(11000) },
        Transaction { client: 3, tx: 6, tx_type: TransactionType::Withdrawal(1001000) },
    ]);

    let expected: HashMap<u16, ClientState> = [
        (3, ClientState { available: 12457, held: 0, locked: false }),
        (1, ClientState { available: 103000, held: 0, locked: false }),
    ]
    .into_iter()
    .collect();
    assert_eq!(clients, expected);
}

#[test]
fn transaction_processing_logic_test_dispute() {
    let clients = process_transactions_and_return_client_states(vec![
        Transaction { client: 3, tx: 2, tx_type: TransactionType::Deposit(23456) },
        Transaction { client: 3, tx: 4, tx_type: TransactionType::Withdrawal(20000) },
        Transaction { client: 4, tx: 2, tx_type: TransactionType::Dispute },
        Transaction { client: 3, tx: 100, tx_type: TransactionType::Dispute },
        Transaction { client: 3, tx: 2, tx_type: TransactionType::Dispute },
        Transaction { client: 3, tx: 10, tx_type: TransactionType::Deposit(54321) },
        Transaction { client: 3, tx: 10, tx_type: TransactionType::Dispute },
    ]);

    let expected: HashMap<u16, ClientState> = [
        (3, ClientState { available: 3456, held: 54321, locked: false }),
        (4, ClientState { available: 0, held: 0, locked: false }),
    ]
    .into_iter()
    .collect();
    assert_eq!(clients, expected);
}

#[test]
fn transaction_processing_logic_test_resolve() {
    let clients = process_transactions_and_return_client_states(vec![
        Transaction { client: 3, tx: 10, tx_type: TransactionType::Deposit(54321) },
        Transaction { client: 3, tx: 10, tx_type: TransactionType::Resolve },
        Transaction { client: 3, tx: 10, tx_type: TransactionType::Dispute },
        Transaction { client: 4, tx: 10, tx_type: TransactionType::Resolve },
        Transaction { client: 3, tx: 200, tx_type: TransactionType::Resolve },
        Transaction { client: 3, tx: 10, tx_type: TransactionType::Resolve },
    ]);

    let expected: HashMap<u16, ClientState> = [
        (3, ClientState { available: 54321, held: 0, locked: false }),
        (4, ClientState { available: 0, held: 0, locked: false }),
    ]
    .into_iter()
    .collect();
    assert_eq!(clients, expected);
}

#[test]
fn transaction_processing_logic_test_chargeback() {
    let clients = process_transactions_and_return_client_states(vec![
        Transaction { client: 3, tx: 10, tx_type: TransactionType::Deposit(54321) },
        Transaction { client: 3, tx: 10, tx_type: TransactionType::Chargeback },
        Transaction { client: 3, tx: 10, tx_type: TransactionType::Dispute },
        Transaction { client: 4, tx: 10, tx_type: TransactionType::Chargeback },
        Transaction { client: 3, tx: 200, tx_type: TransactionType::Chargeback },
        Transaction { client: 3, tx: 10, tx_type: TransactionType::Chargeback },
        Transaction { client: 3, tx: 11, tx_type: TransactionType::Deposit(54321) },
        Transaction { client: 3, tx: 12, tx_type: TransactionType::Deposit(54321) },
    ]);

    let expected: HashMap<u16, ClientState> = [
        (3, ClientState { available: 0, held: 0, locked: true }),
        (4, ClientState { available: 0, held: 0, locked: false }),
    ]
    .into_iter()
    .collect();
    assert_eq!(clients, expected);
}
