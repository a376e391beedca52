//! The accounts of all clients, and what one record of the input does to
//! them.

use crate::amount::UNIT_LIMIT;
use crate::model::AccountModel;
use crate::transaction::{parse_transaction, parsed};
use crate::types::{
    AccountProfile, ClientId, CsvInputRow, Transaction, TransactionParsingError,
    TransactionProcessingError,
};
use std::collections::HashMap;
use vstd::prelude::*;

verus! {

broadcast use vstd::std_specs::hash::group_hash_axioms;

/// What became of a record.
#[derive(Debug, Clone, Copy)]
pub enum RecordOutcome {
    /// The ledger accepted the transaction.
    Applied,
    /// The ledger rejected the transaction.
    Rejected(TransactionProcessingError),
    /// The record is no transaction.
    Malformed(TransactionParsingError),
    /// The deposit would take the balances of the account beyond what an
    /// amount can hold. Nothing was done.
    TooLarge,
}

/// Whether every account is well-formed.
pub open spec fn all_wf(accounts: Map<ClientId, AccountProfile>) -> bool {
    forall|client: ClientId| #[trigger]
        accounts.contains_key(client) ==> accounts[client].wf()
}

/// The account of `client` as the ledger sees it: the one that is kept, or
/// a new one for a client that has none yet.
pub open spec fn account_of(accounts: Map<ClientId, AccountProfile>, client: ClientId) -> AccountModel {
    if accounts.contains_key(client) {
        accounts[client]@
    } else {
        AccountModel::empty()
    }
}

/// Applies one record to the accounts. A record that is a transaction goes
/// to the account of its client, which is created where the client has none
/// yet; whether the ledger accepts or rejects it, the other accounts stay as
/// they are. A record that is no transaction changes nothing, and neither
/// does a deposit that is too large.
pub fn process_record(accounts: &mut HashMap<ClientId, AccountProfile>, row: &CsvInputRow) -> (r:
    RecordOutcome)
    requires
        all_wf(old(accounts)@),
    ensures
        all_wf(final(accounts)@),
        match parsed(row.transaction_type@, row.amount) {
            Err(e) => r == RecordOutcome::Malformed(e) && final(accounts)@ == old(accounts)@,
            Ok(transaction) => {
                let before = account_of(old(accounts)@, row.client);
                if before.can_hold(row.tx, transaction@, UNIT_LIMIT as int) {
                    &&& final(accounts)@.dom() == old(accounts)@.dom().insert(row.client)
                    &&& forall|other: ClientId|
                        other != row.client && #[trigger] old(accounts)@.contains_key(other)
                            ==> final(accounts)@[other] == old(accounts)@[other]
                    &&& final(accounts)@[row.client]@ == before.next(row.tx, transaction@)
                    &&& match before.outcome(row.tx, transaction@) {
                        Ok(()) => r == RecordOutcome::Applied,
                        Err(e) => r matches RecordOutcome::Rejected(rejection) && rejection@ == e,
                    }
                } else {
                    r == RecordOutcome::TooLarge && final(accounts)@ == old(accounts)@
                }
            },
        },
{
    let transaction = match parse_transaction(row) {
        Err(e) => {
            return RecordOutcome::Malformed(e);
        },
        Ok(transaction) => transaction,
    };
    let mut account = match accounts.remove(&row.client) {
        Some(account) => account,
        None => AccountProfile::default(),
    };
    let r = if account.has_room_for(row.tx, &transaction) {
        match account.process_transaction(row.tx, transaction) {
            Ok(()) => RecordOutcome::Applied,
            Err(e) => RecordOutcome::Rejected(e),
        }
    } else {
        proof {
            if !old(accounts)@.contains_key(row.client) {
                if let Transaction::Deposit(amount) = transaction {
                    use_type_invariant(&amount);
                    amount.lemma_wf();
                }
            }
        }
        RecordOutcome::TooLarge
    };
    accounts.insert(row.client, account);
    proof {
        if r is TooLarge {
            assert(final(accounts)@ =~= old(accounts)@);
        } else {
            assert(final(accounts)@.dom() =~= old(accounts)@.dom().insert(row.client));
        }
    }
    r
}

} // verus!
