use account_ledger::amount::Amount;
use account_ledger::ledger::{process_record, RecordOutcome};
use account_ledger::transaction::parse_transaction;
use account_ledger::types::{
    AccountProfile, ClientId, CsvInputRow, Transaction, TransactionParsingError,
    TransactionProcessingError, TransactionState,
};
use std::collections::HashMap;

fn row(kind: &str, client: ClientId, tx: u32, amount: Option<Amount>) -> CsvInputRow {
    CsvInputRow { transaction_type: kind.to_string(), client, tx, amount }
}

#[test]
fn parses_deposit_and_withdrawal() {
    let amount = Amount::new(15, 1).unwrap();
    match parse_transaction(&row("deposit", 1, 1, Some(amount))) {
        Ok(Transaction::Deposit(a)) => assert_eq!(a, amount),
        other => panic!("unexpected: {:?}", other),
    }
    match parse_transaction(&row("withdrawal", 1, 2, Some(amount))) {
        Ok(Transaction::Withdrawal(a)) => assert_eq!(a, amount),
        other => panic!("unexpected: {:?}", other),
    }
}

#[test]
fn parses_the_kinds_without_amount() {
    let amount = Amount::whole(3);
    for given in [None, Some(amount)] {
        assert!(matches!(parse_transaction(&row("dispute", 1, 1, given)), Ok(Transaction::Dispute)));
        assert!(matches!(parse_transaction(&row("resolve", 1, 1, given)), Ok(Transaction::Resolve)));
        assert!(matches!(
            parse_transaction(&row("chargeback", 1, 1, given)),
            Ok(Transaction::Chargeback)
        ));
    }
}

#[test]
fn missing_amount_is_an_error() {
    assert!(matches!(
        parse_transaction(&row("deposit", 1, 1, None)),
        Err(TransactionParsingError::MissingAmount)
    ));
    assert!(matches!(
        parse_transaction(&row("withdrawal", 1, 1, None)),
        Err(TransactionParsingError::MissingAmount)
    ));
}

#[test]
fn unknown_type_is_an_error() {
    for kind in ["", "Deposit", "deposit ", " deposit", "transfer", "DISPUTE", "charge back"] {
        assert!(matches!(
            parse_transaction(&row(kind, 1, 1, Some(Amount::whole(1)))),
            Err(TransactionParsingError::InvalidType)
        ));
        assert!(matches!(
            parse_transaction(&row(kind, 1, 1, None)),
            Err(TransactionParsingError::InvalidType)
        ));
    }
}

#[test]
fn record_creates_the_account_of_a_new_client() {
    let mut accounts: HashMap<ClientId, AccountProfile> = HashMap::new();
    let outcome = process_record(&mut accounts, &row("deposit", 7, 1, Some(Amount::whole(10))));
    assert!(matches!(outcome, RecordOutcome::Applied));
    assert_eq!(accounts.len(), 1);
    assert_eq!(accounts[&7].available().units(), 100_000);

    // A rejected transaction creates the account as well.
    let outcome = process_record(&mut accounts, &row("withdrawal", 8, 1, Some(Amount::whole(1))));
    assert!(matches!(
        outcome,
        RecordOutcome::Rejected(TransactionProcessingError::AvailableAmountTooLow(_, _))
    ));
    assert_eq!(accounts.len(), 2);
    assert_eq!(accounts[&8].available().units(), 0);
    assert_eq!(accounts[&7].available().units(), 100_000);
}

#[test]
fn malformed_record_changes_nothing() {
    let mut accounts: HashMap<ClientId, AccountProfile> = HashMap::new();
    let outcome = process_record(&mut accounts, &row("deposit", 7, 1, None));
    assert!(matches!(outcome, RecordOutcome::Malformed(TransactionParsingError::MissingAmount)));
    assert!(accounts.is_empty());
    let outcome = process_record(&mut accounts, &row("refund", 7, 1, Some(Amount::whole(1))));
    assert!(matches!(outcome, RecordOutcome::Malformed(TransactionParsingError::InvalidType)));
    assert!(accounts.is_empty());
}

#[test]
fn records_reach_the_account_of_their_client_only() {
    let mut accounts: HashMap<ClientId, AccountProfile> = HashMap::new();
    let rows = [
        row("deposit", 1, 1, Some(Amount::whole(1))),
        row("deposit", 2, 2, Some(Amount::whole(2))),
        row("deposit", 1, 3, Some(Amount::whole(2))),
        row("withdrawal", 1, 4, Some(Amount::new(15, 1).unwrap())),
        row("withdrawal", 2, 5, Some(Amount::whole(3))),
        row("dispute", 2, 2, None),
        row("chargeback", 2, 2, None),
        row("deposit", 2, 6, Some(Amount::whole(9))),
    ];
    let mut outcomes = Vec::new();
    for r in rows.iter() {
        outcomes.push(process_record(&mut accounts, r));
    }
    assert!(matches!(outcomes[0], RecordOutcome::Applied));
    assert!(matches!(outcomes[3], RecordOutcome::Applied));
    assert!(matches!(
        outcomes[4],
        RecordOutcome::Rejected(TransactionProcessingError::AvailableAmountTooLow(_, _))
    ));
    assert!(matches!(outcomes[6], RecordOutcome::Applied));
    assert!(matches!(
        outcomes[7],
        RecordOutcome::Rejected(TransactionProcessingError::AccountIsFrozen)
    ));
    assert_eq!(accounts.len(), 2);
    assert_eq!(accounts[&1].available().units(), 15_000);
    assert_eq!(accounts[&1].held().units(), 0);
    assert!(!accounts[&1].frozen());
    assert_eq!(accounts[&2].available().units(), 0);
    assert_eq!(accounts[&2].held().units(), 0);
    assert!(accounts[&2].frozen());
    assert_eq!(accounts[&2].deposit(2).unwrap().0, TransactionState::Chargeback);
}

#[test]
fn same_id_is_free_on_another_account() {
    let mut accounts: HashMap<ClientId, AccountProfile> = HashMap::new();
    let first = process_record(&mut accounts, &row("deposit", 1, 1, Some(Amount::whole(1))));
    let second = process_record(&mut accounts, &row("deposit", 2, 1, Some(Amount::whole(1))));
    let third = process_record(&mut accounts, &row("deposit", 1, 1, Some(Amount::whole(1))));
    assert!(matches!(first, RecordOutcome::Applied));
    assert!(matches!(second, RecordOutcome::Applied));
    assert!(matches!(
        third,
        RecordOutcome::Rejected(TransactionProcessingError::InvalidTransactionId(1))
    ));
}

#[test]
fn too_large_deposit_changes_nothing() {
    let mut accounts: HashMap<ClientId, AccountProfile> = HashMap::new();
    let first = process_record(&mut accounts, &row("deposit", 1, 1, Some(Amount::largest())));
    assert!(matches!(first, RecordOutcome::Applied));
    let second = process_record(&mut accounts, &row("deposit", 1, 2, Some(Amount::new(1, 4).unwrap())));
    assert!(matches!(second, RecordOutcome::TooLarge));
    assert_eq!(accounts[&1].available(), Amount::largest());
    assert_eq!(accounts[&1].deposit_count(), 1);
    // The identifier was not consumed.
    let third = process_record(&mut accounts, &row("withdrawal", 1, 2, Some(Amount::whole(1))));
    assert!(matches!(third, RecordOutcome::Applied));
}
