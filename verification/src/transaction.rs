//! The ledger of one account, and the reading of a record as a transaction.

use crate::amount::{Amount, UNIT_LIMIT};
use crate::model::{
    disputed_at, id_limit, lemma_apply_inv, lemma_disputed_bounds, lemma_empty_inv, AccountModel,
    Operation, Rejection,
};
use crate::types::{
    AccountProfile, CsvInputRow, Transaction, TransactionId, TransactionParsingError,
    TransactionProcessingError, TransactionState,
};
use std::collections::{HashMap, HashSet};
use vstd::prelude::*;

verus! {

broadcast use vstd::std_specs::hash::group_hash_axioms;

/// A stored deposit with its amount in ten-thousandths.
pub open spec fn record_view(record: (TransactionState, Amount)) -> (TransactionState, int) {
    (record.0, record.1@)
}

/// What a call of the ledger returned, with amounts in ten-thousandths.
pub open spec fn outcome_view(r: Result<(), TransactionProcessingError>) -> Result<(), Rejection> {
    match r {
        Ok(()) => Ok(()),
        Err(e) => Err(e@),
    }
}

impl View for AccountProfile {
    type V = AccountModel;

    closed spec fn view(&self) -> AccountModel {
        AccountModel {
            available: self.available@,
            held: self.held@,
            deposits: self.deposit_transactions@.map_values(
                |record: (TransactionState, Amount)| record_view(record),
            ),
            used_ids: self.transaction_ids@,
            frozen: self.frozen,
        }
    }
}

impl Default for AccountProfile {
    /// The account before its first transaction.
    fn default() -> (r: AccountProfile)
        ensures
            r.wf(),
            r@ == AccountModel::empty(),
    {
        let r = AccountProfile {
            available: Amount::zero(),
            held: Amount::zero(),
            deposit_transactions: HashMap::new(),
            transaction_ids: HashSet::new(),
            frozen: false,
        };
        proof {
            lemma_empty_inv();
            assert(r@.deposits =~= Map::empty());
        }
        r
    }
}

impl AccountProfile {
    /// What every method keeps: the stored amounts are amounts, the account
    /// satisfies the invariant of its model, and available and held together
    /// stay below `UNIT_LIMIT`.
    pub closed spec fn wf(&self) -> bool {
        &&& self.available.wf()
        &&& self.held.wf()
        &&& forall|id: TransactionId| #[trigger]
            self.deposit_transactions@.contains_key(id)
                ==> self.deposit_transactions@[id].1.wf()
        &&& self@.inv()
        &&& self@.total() < UNIT_LIMIT
    }

    /// What a well-formed account promises of its model.
    pub proof fn lemma_wf(&self)
        requires
            self.wf(),
        ensures
            self@.inv(),
            self@.total() < UNIT_LIMIT,
    {
    }

    /// Whether the account can hold what the transaction leaves: a deposit
    /// that the ledger accepts must keep available and held together below
    /// `UNIT_LIMIT`. Every other transaction can be held.
    pub open spec fn can_hold(&self, id: TransactionId, transaction: Transaction) -> bool {
        self@.can_hold(id, transaction@, UNIT_LIMIT as int)
    }

    /// Whether the account can hold what the transaction leaves.
    pub fn has_room_for(&self, id: TransactionId, transaction: &Transaction) -> (b: bool)
        ensures
            b == self.can_hold(id, *transaction),
    {
        match transaction {
            Transaction::Deposit(amount) => {
                proof {
                    use_type_invariant(amount);
                    amount.lemma_wf();
                    use_type_invariant(&self.available);
                    self.available.lemma_wf();
                    use_type_invariant(&self.held);
                    self.held.lemma_wf();
                }
                if self.frozen || self.transaction_ids.contains(&id) {
                    true
                } else {
                    match self.available.checked_add(self.held) {
                        None => false,
                        Some(total) => total.checked_add(*amount).is_some(),
                    }
                }
            },
            _ => true,
        }
    }

    /// The available balance.
    pub fn available(&self) -> (r: Amount)
        ensures
            r@ == self@.available,
    {
        self.available
    }

    /// The held balance.
    pub fn held(&self) -> (r: Amount)
        ensures
            r@ == self@.held,
    {
        self.held
    }

    /// Available and held together, or `None` where the sum is too large to
    /// be an amount, which it never is on a well-formed account.
    pub fn total(&self) -> (r: Option<Amount>)
        ensures
            r is Some <==> self@.total() < UNIT_LIMIT,
            r matches Some(sum) ==> sum@ == self@.total(),
            self.wf() ==> r is Some,
    {
        self.available.checked_add(self.held)
    }

    /// Whether the account is frozen.
    pub fn frozen(&self) -> (r: bool)
        ensures
            r == self@.frozen,
    {
        self.frozen
    }

    /// The state and the amount of the deposit `id`, if there is one.
    pub fn deposit(&self, id: TransactionId) -> (r: Option<(TransactionState, Amount)>)
        ensures
            r is Some <==> self@.deposits.contains_key(id),
            r matches Some(record) ==> self@.deposits[id] == record_view(record),
    {
        match self.deposit_transactions.get(&id) {
            None => None,
            Some(record) => Some(*record),
        }
    }

    /// The number of deposits.
    pub fn deposit_count(&self) -> (n: usize)
        ensures
            n == self@.deposits.len(),
    {
        proof {
            assert(self@.deposits.dom() =~= self.deposit_transactions@.dom());
        }
        self.deposit_transactions.len()
    }

    /// Applies the transaction `(id, transaction)`: returns `Ok(())` and
    /// changes the account where the transaction is accepted, and returns
    /// why it is not where it is rejected. A rejected transaction leaves the
    /// account as it was, but for a withdrawal that found too little
    /// available: its identifier is consumed.
    pub fn process_transaction(&mut self, id: TransactionId, transaction: Transaction) -> (r:
        Result<(), TransactionProcessingError>)
        requires
            old(self).wf(),
            old(self).can_hold(id, transaction),
        ensures
            final(self).wf(),
            final(self)@.inv(),
            final(self)@ == old(self)@.next(id, transaction@),
            outcome_view(r) == old(self)@.outcome(id, transaction@),
            r is Err && !(transaction is Withdrawal && r matches Err(
                TransactionProcessingError::AvailableAmountTooLow(_, _),
            )) ==> *final(self) == *old(self),
    {
        if self.frozen {
            return Err(TransactionProcessingError::AccountIsFrozen);
        }
        proof {
            self.lemma_amounts(id);
        }
        match transaction {
            Transaction::Deposit(amount) => {
                proof {
                    use_type_invariant(&amount);
                    amount.lemma_wf();
                }
                match self.validate_unique_id(id) {
                    Err(e) => {
                        return Err(e);
                    },
                    Ok(()) => {},
                }
                self.deposit_transactions.insert(id, (TransactionState::Normal, amount));
                self.available = self.available.plus(amount);
            },
            Transaction::Withdrawal(amount) => {
                proof {
                    use_type_invariant(&amount);
                    amount.lemma_wf();
                }
                match self.validate_unique_id(id) {
                    Err(e) => {
                        return Err(e);
                    },
                    Ok(()) => {},
                }
                if self.available.less_than(amount) {
                    proof {
                        self.lemma_stepped(*old(self), id, transaction@);
                    }
                    return Err(
                        TransactionProcessingError::AvailableAmountTooLow(self.available, amount),
                    );
                }
                self.available = self.available.minus(amount);
            },
            Transaction::Dispute => {
                let available = self.available;
                let (state, amount) = match self.get_deposit_transaction(id) {
                    Err(e) => {
                        return Err(e);
                    },
                    Ok(record) => record,
                };
                match state {
                    TransactionState::Normal => {},
                    _ => {
                        return Err(TransactionProcessingError::InvalidTransactionState);
                    },
                }
                if available.less_than(amount) {
                    return Err(
                        TransactionProcessingError::AvailableAmountTooLow(available, amount),
                    );
                }
                self.deposit_transactions.insert(id, (TransactionState::UnderDispute, amount));
                self.available = self.available.minus(amount);
                self.held = self.held.plus(amount);
            },
            Transaction::Resolve => {
                let (state, amount) = match self.get_deposit_transaction(id) {
                    Err(e) => {
                        return Err(e);
                    },
                    Ok(record) => record,
                };
                match state {
                    TransactionState::UnderDispute => {},
                    _ => {
                        return Err(TransactionProcessingError::InvalidTransactionState);
                    },
                }
                self.deposit_transactions.insert(id, (TransactionState::Normal, amount));
                self.available = self.available.plus(amount);
                self.held = self.held.minus(amount);
            },
            Transaction::Chargeback => {
                let (state, amount) = match self.get_deposit_transaction(id) {
                    Err(e) => {
                        return Err(e);
                    },
                    Ok(record) => record,
                };
                match state {
                    TransactionState::UnderDispute => {},
                    _ => {
                        return Err(TransactionProcessingError::InvalidTransactionState);
                    },
                }
                self.deposit_transactions.insert(id, (TransactionState::Chargeback, amount));
                self.held = self.held.minus(amount);
                self.frozen = true;
            },
        }
        proof {
            let expected = old(self)@.next(id, transaction@);
            assert(self@.deposits =~= expected.deposits);
            assert(self@.used_ids =~= expected.used_ids);
            self.lemma_stepped(*old(self), id, transaction@);
        }
        Ok(())
    }

    /// The deposit `id` with its state and amount, or the error for an
    /// identifier that names no deposit.
    fn get_deposit_transaction(&self, id: TransactionId) -> (r: Result<
        (TransactionState, Amount),
        TransactionProcessingError,
    >)
        ensures
            self.deposit_transactions@.contains_key(id) ==> r == Ok::<
                (TransactionState, Amount),
                TransactionProcessingError,
            >(self.deposit_transactions@[id]),
            !self.deposit_transactions@.contains_key(id) ==> r == Err::<
                (TransactionState, Amount),
                TransactionProcessingError,
            >(TransactionProcessingError::InvalidTransactionId(id)),
    {
        match self.deposit_transactions.get(&id) {
            None => Err(TransactionProcessingError::InvalidTransactionId(id)),
            Some(record) => Ok(*record),
        }
    }

    /// Consumes the identifier `id`, or returns the error for one that was
    /// consumed before.
    fn validate_unique_id(&mut self, id: TransactionId) -> (r: Result<
        (),
        TransactionProcessingError,
    >)
        ensures
            final(self).available == old(self).available,
            final(self).held == old(self).held,
            final(self).deposit_transactions == old(self).deposit_transactions,
            final(self).frozen == old(self).frozen,
            old(self).transaction_ids@.contains(id) ==> *final(self) == *old(self) && r == Err::<
                (),
                TransactionProcessingError,
            >(TransactionProcessingError::InvalidTransactionId(id)),
            !old(self).transaction_ids@.contains(id) ==> final(self).transaction_ids@ == old(
                self,
            ).transaction_ids@.insert(id) && r == Ok::<(), TransactionProcessingError>(()),
    {
        if self.transaction_ids.contains(&id) {
            return Err(TransactionProcessingError::InvalidTransactionId(id));
        }
        self.transaction_ids.insert(id);
        Ok(())
    }

    /// What the model says of the stored deposit `id`, and how its amount
    /// stands to the held balance.
    proof fn lemma_amounts(&self, id: TransactionId)
        requires
            self.wf(),
        ensures
            self.available.wf(),
            self.held.wf(),
            0 <= self.available@,
            0 <= self.held@,
            self.available@ + self.held@ < UNIT_LIMIT,
            self@.deposits.contains_key(id) == self.deposit_transactions@.contains_key(id),
            self.deposit_transactions@.contains_key(id) ==> {
                &&& self.deposit_transactions@[id].1.wf()
                &&& self@.deposits[id] == record_view(self.deposit_transactions@[id])
                &&& 0 <= self.deposit_transactions@[id].1@
                &&& self.deposit_transactions@[id].0 == TransactionState::UnderDispute
                    ==> self.deposit_transactions@[id].1@ <= self.held@
            },
    {
        let deposits = self@.deposits;
        assert forall|other: TransactionId| 0 <= #[trigger] disputed_at(deposits, other) by {}
        lemma_disputed_bounds(deposits, id, id_limit());
    }

    /// An account whose fields are what the model's next account asks for is
    /// well-formed.
    proof fn lemma_stepped(&self, before: AccountProfile, id: TransactionId, op: Operation)
        requires
            before.wf(),
            op.valid(),
            self.available.wf(),
            self.held.wf(),
            self@ =~= before@.next(id, op),
            self@.total() < UNIT_LIMIT,
            forall|other: TransactionId| #[trigger]
                self.deposit_transactions@.contains_key(other)
                    ==> self.deposit_transactions@[other].1.wf(),
        ensures
            self.wf(),
    {
        lemma_apply_inv(before@, id, op);
    }
}

/// The transaction that a record with the type tag `tag` and the amount
/// `amount` stands for. The tag is compared as it is: case matters, and
/// nothing is trimmed. A dispute, a resolution or a chargeback ignores the
/// amount.
pub open spec fn parsed(tag: Seq<char>, amount: Option<Amount>) -> Result<
    Transaction,
    TransactionParsingError,
> {
    if tag == "deposit"@ {
        match amount {
            Some(a) => Ok(Transaction::Deposit(a)),
            None => Err(TransactionParsingError::MissingAmount),
        }
    } else if tag == "withdrawal"@ {
        match amount {
            Some(a) => Ok(Transaction::Withdrawal(a)),
            None => Err(TransactionParsingError::MissingAmount),
        }
    } else if tag == "dispute"@ {
        Ok(Transaction::Dispute)
    } else if tag == "resolve"@ {
        Ok(Transaction::Resolve)
    } else if tag == "chargeback"@ {
        Ok(Transaction::Chargeback)
    } else {
        Err(TransactionParsingError::InvalidType)
    }
}

/// Whether the type tag of `row` is `name`.
fn has_type(row: &CsvInputRow, name: &str) -> (r: bool)
    ensures
        r == (row.transaction_type@ == name@),
{
    row.transaction_type == name.to_owned()
}

/// Reads a record as a transaction.
pub fn parse_transaction(row: &CsvInputRow) -> (r: Result<Transaction, TransactionParsingError>)
    ensures
        r == parsed(row.transaction_type@, row.amount),
{
    if has_type(row, "deposit") {
        match row.amount {
            Some(amount) => Ok(Transaction::Deposit(amount)),
            None => Err(TransactionParsingError::MissingAmount),
        }
    } else if has_type(row, "withdrawal") {
        match row.amount {
            Some(amount) => Ok(Transaction::Withdrawal(amount)),
            None => Err(TransactionParsingError::MissingAmount),
        }
    } else if has_type(row, "dispute") {
        Ok(Transaction::Dispute)
    } else if has_type(row, "resolve") {
        Ok(Transaction::Resolve)
    } else if has_type(row, "chargeback") {
        Ok(Transaction::Chargeback)
    } else {
        Err(TransactionParsingError::InvalidType)
    }
}

} // verus!
