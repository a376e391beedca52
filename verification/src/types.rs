//! The values that the ledger takes and gives.

use crate::amount::Amount;
use crate::model::{Operation, Rejection};
use std::collections::{HashMap, HashSet};
use vstd::prelude::*;

verus! {

/// The identifier of a client.
pub type ClientId = u16;

/// The identifier of a transaction.
pub type TransactionId = u32;

/// A transaction without the fields that every record shares (client and
/// transaction identifier).
#[derive(Debug, Clone, Copy)]
pub enum Transaction {
    Deposit(Amount),
    Withdrawal(Amount),
    Dispute,
    Resolve,
    Chargeback,
}

impl View for Transaction {
    type V = Operation;

    open spec fn view(&self) -> Operation {
        match *self {
            Transaction::Deposit(amount) => Operation::Deposit(amount@),
            Transaction::Withdrawal(amount) => Operation::Withdrawal(amount@),
            Transaction::Dispute => Operation::Dispute,
            Transaction::Resolve => Operation::Resolve,
            Transaction::Chargeback => Operation::Chargeback,
        }
    }
}

/// The dispute state of an accepted deposit. `Chargeback` is final.
#[derive(Debug, Clone, Copy, PartialEq, Eq)]
pub enum TransactionState {
    Normal,
    UnderDispute,
    Chargeback,
}

impl Default for TransactionState {
    fn default() -> (r: TransactionState)
        ensures
            r == TransactionState::Normal,
    {
        TransactionState::Normal
    }
}

/// What the ledger keeps for one client: the two balances, every accepted
/// deposit with its dispute state and amount, the identifiers that deposits
/// and withdrawals have consumed, and whether the account is frozen.
#[derive(Debug)]
pub struct AccountProfile {
    pub(crate) available: Amount,
    pub(crate) held: Amount,
    pub(crate) deposit_transactions: HashMap<TransactionId, (TransactionState, Amount)>,
    pub(crate) transaction_ids: HashSet<TransactionId>,
    pub(crate) frozen: bool,
}

/// One record of the input: a type tag, the client, the transaction
/// identifier, and an amount where the record has one.
#[derive(Debug)]
pub struct CsvInputRow {
    pub transaction_type: String,
    pub client: ClientId,
    pub tx: TransactionId,
    pub amount: Option<Amount>,
}

/// Why the ledger rejected a transaction.
#[derive(Debug, Clone, Copy)]
pub enum TransactionProcessingError {
    /// The account is frozen.
    AccountIsFrozen,
    /// The identifier was used before (deposit, withdrawal), or names no
    /// deposit (dispute, resolve, chargeback).
    InvalidTransactionId(TransactionId),
    /// The available balance, and the larger amount that was asked of it.
    AvailableAmountTooLow(Amount, Amount),
    /// The deposit is not in the state that the transaction needs.
    InvalidTransactionState,
}

impl View for TransactionProcessingError {
    type V = Rejection;

    open spec fn view(&self) -> Rejection {
        match *self {
            TransactionProcessingError::AccountIsFrozen => Rejection::AccountIsFrozen,
            TransactionProcessingError::InvalidTransactionId(id) => Rejection::InvalidTransactionId(
                id,
            ),
            TransactionProcessingError::AvailableAmountTooLow(have, want) => {
                Rejection::AvailableAmountTooLow(have@, want@)
            },
            TransactionProcessingError::InvalidTransactionState => {
                Rejection::InvalidTransactionState
            },
        }
    }
}

/// Why a record is no transaction.
#[derive(Debug, Clone, Copy, PartialEq, Eq)]
pub enum TransactionParsingError {
    /// A deposit or a withdrawal without an amount.
    MissingAmount,
    /// A type that is none of the five.
    InvalidType,
}

} // verus!
