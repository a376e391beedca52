use account_ledger::amount::Amount;
use account_ledger::types::{
    AccountProfile, Transaction, TransactionProcessingError, TransactionState,
};

fn state_of(profile: &AccountProfile, id: u32) -> TransactionState {
    profile.deposit(id).unwrap().0
}

#[test]
fn test_transaction_processing() {
    let mut profile = AccountProfile::default();

    // Deposit
    let res = profile.process_transaction(1, Transaction::Deposit(Amount::whole(10)));
    assert!(res.is_ok());
    assert_eq!(profile.available(), Amount::whole(10));
    assert_eq!(profile.held(), Amount::whole(0));
    assert!(profile.deposit(1).is_some());
    assert_eq!(profile.frozen(), false);

    let res = profile.process_transaction(1, Transaction::Deposit(Amount::whole(10)));
    assert!(res.is_err());

    let res = profile.process_transaction(2, Transaction::Deposit(Amount::whole(5)));
    assert!(res.is_ok());
    assert_eq!(profile.available(), Amount::whole(15));
    assert_eq!(profile.held(), Amount::whole(0));
    assert_eq!(profile.deposit_count(), 2);
    assert_eq!(profile.frozen(), false);

    // Withdrawal
    let res = profile.process_transaction(3, Transaction::Withdrawal(Amount::whole(2)));
    assert!(res.is_ok());
    assert_eq!(profile.available(), Amount::whole(13));
    assert_eq!(profile.held(), Amount::whole(0));
    assert_eq!(profile.deposit_count(), 2);
    assert_eq!(profile.frozen(), false);

    // Dispute -> Resolve
    let res = profile.process_transaction(1, Transaction::Dispute);
    assert!(res.is_ok());
    assert_eq!(profile.available(), Amount::whole(3));
    assert_eq!(profile.held(), Amount::whole(10));
    assert_eq!(state_of(&profile, 1), TransactionState::UnderDispute);
    assert_eq!(profile.frozen(), false);

    let res = profile.process_transaction(1, Transaction::Dispute);
    assert!(res.is_err());

    let res = profile.process_transaction(3, Transaction::Dispute);
    assert!(res.is_err());

    let res = profile.process_transaction(1, Transaction::Resolve);
    assert!(res.is_ok());
    assert_eq!(profile.available(), Amount::whole(13));
    assert_eq!(profile.held(), Amount::whole(0));
    assert_eq!(state_of(&profile, 1), TransactionState::Normal);
    assert_eq!(profile.frozen(), false);

    let res = profile.process_transaction(1, Transaction::Resolve);
    assert!(res.is_err());

    // Dispute -> ChargeBack
    let res = profile.process_transaction(2, Transaction::Dispute);
    assert!(res.is_ok());
    assert_eq!(profile.available(), Amount::whole(8));
    assert_eq!(profile.held(), Amount::whole(5));
    assert_eq!(state_of(&profile, 2), TransactionState::UnderDispute);
    assert_eq!(profile.frozen(), false);

    let res = profile.process_transaction(2, Transaction::Chargeback);
    assert!(res.is_ok());
    assert_eq!(profile.available(), Amount::whole(8));
    assert_eq!(profile.held(), Amount::whole(0));
    assert_eq!(state_of(&profile, 2), TransactionState::Chargeback);
    assert_eq!(profile.frozen(), true);

    let res = profile.process_transaction(4, Transaction::Deposit(Amount::whole(20)));
    assert!(res.is_err());
}

#[test]
fn test_dispute_after_withdrawal() {
    let mut profile = AccountProfile::default();

    let res = profile.process_transaction(1, Transaction::Deposit(Amount::whole(10)));
    assert!(res.is_ok());

    let res = profile.process_transaction(2, Transaction::Withdrawal(Amount::whole(10)));
    assert!(res.is_ok());

    let res = profile.process_transaction(1, Transaction::Dispute);
    assert!(res.is_err());
}

#[test]
fn test_duplicated_id() {
    let mut profile = AccountProfile::default();

    let res = profile.process_transaction(1, Transaction::Deposit(Amount::whole(10)));
    assert!(res.is_ok());

    let res = profile.process_transaction(1, Transaction::Withdrawal(Amount::whole(10)));
    assert!(res.is_err());
}

fn after_deposits_and_withdrawal() -> AccountProfile {
    let mut profile = AccountProfile::default();
    assert!(profile.process_transaction(1, Transaction::Deposit(Amount::whole(10))).is_ok());
    assert!(profile.process_transaction(2, Transaction::Deposit(Amount::whole(5))).is_ok());
    assert!(profile.process_transaction(3, Transaction::Withdrawal(Amount::whole(2))).is_ok());
    profile
}

#[test]
fn deposits_then_withdrawal() {
    let profile = after_deposits_and_withdrawal();
    assert_eq!(profile.available().units(), 130_000);
    assert_eq!(profile.held().units(), 0);
    assert!(!profile.frozen());
    assert_eq!(profile.total().unwrap().units(), 130_000);
}

#[test]
fn dispute_then_resolve() {
    let mut profile = after_deposits_and_withdrawal();
    assert!(profile.process_transaction(1, Transaction::Dispute).is_ok());
    assert_eq!(profile.available().units(), 30_000);
    assert_eq!(profile.held().units(), 100_000);
    assert!(profile.process_transaction(1, Transaction::Resolve).is_ok());
    assert_eq!(profile.available().units(), 130_000);
    assert_eq!(profile.held().units(), 0);
    assert_eq!(state_of(&profile, 1), TransactionState::Normal);
}

#[test]
fn dispute_then_chargeback_freezes() {
    let mut profile = after_deposits_and_withdrawal();
    assert!(profile.process_transaction(1, Transaction::Dispute).is_ok());
    assert!(profile.process_transaction(1, Transaction::Resolve).is_ok());
    assert!(profile.process_transaction(2, Transaction::Dispute).is_ok());
    assert_eq!(profile.available().units(), 80_000);
    assert_eq!(profile.held().units(), 50_000);
    assert!(profile.process_transaction(2, Transaction::Chargeback).is_ok());
    assert_eq!(profile.available().units(), 80_000);
    assert_eq!(profile.held().units(), 0);
    assert!(profile.frozen());
    assert_eq!(state_of(&profile, 2), TransactionState::Chargeback);

    let further = [
        (9, Transaction::Deposit(Amount::whole(1))),
        (10, Transaction::Withdrawal(Amount::whole(1))),
        (1, Transaction::Dispute),
        (2, Transaction::Resolve),
        (2, Transaction::Chargeback),
    ];
    for (id, transaction) in further {
        let res = profile.process_transaction(id, transaction);
        assert!(matches!(res, Err(TransactionProcessingError::AccountIsFrozen)));
        assert_eq!(profile.available().units(), 80_000);
        assert_eq!(profile.held().units(), 0);
        assert_eq!(profile.deposit_count(), 2);
        assert!(profile.frozen());
    }
    assert_eq!(state_of(&profile, 1), TransactionState::Normal);
    assert_eq!(state_of(&profile, 2), TransactionState::Chargeback);
    assert!(profile.deposit(9).is_none());
}

#[test]
fn dispute_of_withdrawn_funds_is_rejected() {
    let mut profile = AccountProfile::default();
    assert!(profile.process_transaction(1, Transaction::Deposit(Amount::whole(10))).is_ok());
    assert!(profile.process_transaction(2, Transaction::Withdrawal(Amount::whole(10))).is_ok());
    assert_eq!(profile.available().units(), 0);
    match profile.process_transaction(1, Transaction::Dispute) {
        Err(TransactionProcessingError::AvailableAmountTooLow(have, want)) => {
            assert_eq!(have, Amount::whole(0));
            assert_eq!(want, Amount::whole(10));
        }
        other => panic!("unexpected: {:?}", other),
    }
    assert_eq!(state_of(&profile, 1), TransactionState::Normal);
    assert_eq!(profile.available().units(), 0);
    assert_eq!(profile.held().units(), 0);
}

#[test]
fn reused_id_is_rejected() {
    let mut profile = AccountProfile::default();
    assert!(profile.process_transaction(1, Transaction::Deposit(Amount::whole(10))).is_ok());
    let res = profile.process_transaction(1, Transaction::Withdrawal(Amount::whole(5)));
    assert!(matches!(res, Err(TransactionProcessingError::InvalidTransactionId(1))));
    assert_eq!(profile.available().units(), 100_000);
}

#[test]
fn withdrawal_id_cannot_become_a_deposit() {
    let mut profile = AccountProfile::default();
    assert!(profile.process_transaction(1, Transaction::Deposit(Amount::whole(10))).is_ok());
    assert!(profile.process_transaction(2, Transaction::Withdrawal(Amount::whole(4))).is_ok());
    assert!(profile.process_transaction(3, Transaction::Deposit(Amount::whole(1))).is_ok());
    let res = profile.process_transaction(2, Transaction::Deposit(Amount::whole(7)));
    assert!(matches!(res, Err(TransactionProcessingError::InvalidTransactionId(2))));
    assert_eq!(profile.available().units(), 70_000);
    assert!(profile.deposit(2).is_none());
}

#[test]
fn rejected_withdrawal_consumes_its_id() {
    let mut profile = AccountProfile::default();
    assert!(profile.process_transaction(1, Transaction::Deposit(Amount::whole(3))).is_ok());
    match profile.process_transaction(2, Transaction::Withdrawal(Amount::whole(5))) {
        Err(TransactionProcessingError::AvailableAmountTooLow(have, want)) => {
            assert_eq!(have.units(), 30_000);
            assert_eq!(want.units(), 50_000);
        }
        other => panic!("unexpected: {:?}", other),
    }
    assert_eq!(profile.available().units(), 30_000);
    let res = profile.process_transaction(2, Transaction::Deposit(Amount::whole(1)));
    assert!(matches!(res, Err(TransactionProcessingError::InvalidTransactionId(2))));
    let res = profile.process_transaction(2, Transaction::Withdrawal(Amount::whole(1)));
    assert!(matches!(res, Err(TransactionProcessingError::InvalidTransactionId(2))));
    assert_eq!(profile.available().units(), 30_000);
}

#[test]
fn second_dispute_is_rejected_by_state() {
    let mut profile = AccountProfile::default();
    assert!(profile.process_transaction(1, Transaction::Deposit(Amount::whole(10))).is_ok());
    assert!(profile.process_transaction(1, Transaction::Dispute).is_ok());
    let res = profile.process_transaction(1, Transaction::Dispute);
    assert!(matches!(res, Err(TransactionProcessingError::InvalidTransactionState)));
    assert_eq!(profile.available().units(), 0);
    assert_eq!(profile.held().units(), 100_000);
}

#[test]
fn unknown_deposit_is_rejected_by_id() {
    let mut profile = AccountProfile::default();
    assert!(profile.process_transaction(1, Transaction::Deposit(Amount::whole(10))).is_ok());
    for transaction in [Transaction::Dispute, Transaction::Resolve, Transaction::Chargeback] {
        let res = profile.process_transaction(7, transaction);
        assert!(matches!(res, Err(TransactionProcessingError::InvalidTransactionId(7))));
    }
    assert_eq!(profile.available().units(), 100_000);
    assert!(!profile.frozen());
}

#[test]
fn resolve_and_chargeback_need_a_dispute() {
    let mut profile = AccountProfile::default();
    assert!(profile.process_transaction(1, Transaction::Deposit(Amount::whole(10))).is_ok());
    let res = profile.process_transaction(1, Transaction::Resolve);
    assert!(matches!(res, Err(TransactionProcessingError::InvalidTransactionState)));
    let res = profile.process_transaction(1, Transaction::Chargeback);
    assert!(matches!(res, Err(TransactionProcessingError::InvalidTransactionState)));
    assert!(!profile.frozen());
    assert_eq!(profile.available().units(), 100_000);
    assert_eq!(profile.held().units(), 0);
}

#[test]
fn balances_stay_non_negative_and_conserved() {
    let mut profile = AccountProfile::default();
    let steps = [
        (1, Transaction::Deposit(Amount::new(12_345, 4).unwrap())),
        (2, Transaction::Deposit(Amount::new(25, 1).unwrap())),
        (3, Transaction::Withdrawal(Amount::new(1, 0).unwrap())),
        (4, Transaction::Withdrawal(Amount::whole(100))),
        (2, Transaction::Dispute),
        (1, Transaction::Dispute),
        (1, Transaction::Resolve),
        (5, Transaction::Deposit(Amount::new(5, 3).unwrap())),
        (2, Transaction::Chargeback),
        (6, Transaction::Deposit(Amount::whole(1))),
    ];
    let mut expected_total: i128 = 0;
    for (id, transaction) in steps {
        assert!(profile.has_room_for(id, &transaction));
        let charged = match transaction {
            Transaction::Chargeback => profile.deposit(id).map(|record| record.1.units()),
            _ => None,
        };
        let res = profile.process_transaction(id, transaction);
        if res.is_ok() {
            match transaction {
                Transaction::Deposit(amount) => expected_total += amount.units(),
                Transaction::Withdrawal(amount) => expected_total -= amount.units(),
                Transaction::Chargeback => expected_total -= charged.unwrap(),
                _ => {}
            }
        }
        assert!(profile.available().units() >= 0);
        assert!(profile.held().units() >= 0);
        assert_eq!(profile.total().unwrap().units(), expected_total);
    }
    // 1.2345 + 2.5 - 1 + 0.005 - 2.5
    assert_eq!(profile.available().units(), 2_395);
    assert_eq!(profile.held().units(), 0);
    assert_eq!(expected_total, 2_395);
    assert!(profile.frozen());
}

#[test]
fn new_account_is_empty() {
    let profile = AccountProfile::default();
    assert_eq!(profile.available().units(), 0);
    assert_eq!(profile.held().units(), 0);
    assert_eq!(profile.total().unwrap().units(), 0);
    assert_eq!(profile.deposit_count(), 0);
    assert!(!profile.frozen());
    assert_eq!(TransactionState::default(), TransactionState::Normal);
}

#[test]
fn deposit_of_zero_is_accepted() {
    let mut profile = AccountProfile::default();
    assert!(profile.process_transaction(1, Transaction::Deposit(Amount::zero())).is_ok());
    assert_eq!(profile.available().units(), 0);
    assert!(profile.process_transaction(1, Transaction::Dispute).is_ok());
    assert!(profile.process_transaction(1, Transaction::Chargeback).is_ok());
    assert!(profile.frozen());
    assert_eq!(profile.held().units(), 0);
}

#[test]
fn deposit_beyond_the_limit_has_no_room() {
    let mut profile = AccountProfile::default();
    let largest = Amount::largest();
    assert!(profile.has_room_for(1, &Transaction::Deposit(largest)));
    assert!(profile.process_transaction(1, Transaction::Deposit(largest)).is_ok());
    assert_eq!(profile.available(), largest);
    let one_unit = Amount::new(1, 4).unwrap();
    assert!(!profile.has_room_for(2, &Transaction::Deposit(one_unit)));
    // A deposit that the ledger rejects anyway needs no room.
    assert!(profile.has_room_for(1, &Transaction::Deposit(one_unit)));
    assert!(profile.has_room_for(2, &Transaction::Deposit(Amount::zero())));
    assert!(profile.has_room_for(2, &Transaction::Withdrawal(largest)));
    assert!(profile.process_transaction(2, Transaction::Withdrawal(largest)).is_ok());
    assert_eq!(profile.available().units(), 0);
    assert!(profile.has_room_for(3, &Transaction::Deposit(one_unit)));
}
