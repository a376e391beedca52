//! The account as mathematics: balances are integers (ten-thousandths), the
//! deposits a map, the consumed identifiers a set, and a transaction a
//! function from one account to the next.

use crate::types::{TransactionId, TransactionState};
use vstd::prelude::*;

verus! {

/// A transaction with its amount in ten-thousandths.
pub enum Operation {
    Deposit(int),
    Withdrawal(int),
    Dispute,
    Resolve,
    Chargeback,
}

impl Operation {
    /// Whether the amount that the operation carries, if any, is not
    /// negative.
    pub open spec fn valid(self) -> bool {
        match self {
            Operation::Deposit(amount) => 0 <= amount,
            Operation::Withdrawal(amount) => 0 <= amount,
            _ => true,
        }
    }
}

/// Why a transaction is rejected, with amounts in ten-thousandths.
pub enum Rejection {
    AccountIsFrozen,
    InvalidTransactionId(TransactionId),
    AvailableAmountTooLow(int, int),
    InvalidTransactionState,
}

/// The deposits of an account: state and amount, by transaction identifier.
pub type Deposits = Map<TransactionId, (TransactionState, int)>;

/// One account.
pub struct AccountModel {
    /// What can be spent or disputed.
    pub available: int,
    /// What is under dispute.
    pub held: int,
    /// The accepted deposits.
    pub deposits: Deposits,
    /// The identifiers that a deposit or a withdrawal has consumed.
    pub used_ids: Set<TransactionId>,
    /// Whether a chargeback has closed the account.
    pub frozen: bool,
}

/// One more than the largest transaction identifier.
pub open spec fn id_limit() -> nat {
    0x1_0000_0000
}

/// What the deposit `id` adds to the held balance: its amount while it is
/// under dispute, else nothing.
pub open spec fn disputed_at(deposits: Deposits, id: TransactionId) -> int {
    if deposits.contains_key(id) && deposits[id].0 == TransactionState::UnderDispute {
        deposits[id].1
    } else {
        0
    }
}

/// The amounts under dispute among the deposits with an identifier below
/// `bound`.
pub open spec fn disputed_below(deposits: Deposits, bound: nat) -> int
    decreases bound,
{
    if bound == 0 {
        0
    } else {
        disputed_below(deposits, (bound - 1) as nat) + disputed_at(
            deposits,
            (bound - 1) as TransactionId,
        )
    }
}

/// The amounts under dispute among all deposits.
pub open spec fn disputed_total(deposits: Deposits) -> int {
    disputed_below(deposits, id_limit())
}

impl AccountModel {
    /// The account before its first transaction.
    pub open spec fn empty() -> AccountModel {
        AccountModel {
            available: 0,
            held: 0,
            deposits: Map::empty(),
            used_ids: Set::empty(),
            frozen: false,
        }
    }

    /// Available and held together.
    pub open spec fn total(self) -> int {
        self.available + self.held
    }

    /// A deposit of `amount` under the identifier `id`, on an account that is
    /// not frozen.
    pub open spec fn deposit(self, id: TransactionId, amount: int) -> (
        AccountModel,
        Result<(), Rejection>,
    ) {
        if self.used_ids.contains(id) {
            (self, Err(Rejection::InvalidTransactionId(id)))
        } else {
            (
                AccountModel {
                    available: self.available + amount,
                    deposits: self.deposits.insert(id, (TransactionState::Normal, amount)),
                    used_ids: self.used_ids.insert(id),
                    ..self
                },
                Ok(()),
            )
        }
    }

    /// A withdrawal of `amount` under the identifier `id`, on an account that
    /// is not frozen. A fresh identifier is consumed even where the funds do
    /// not suffice.
    pub open spec fn withdraw(self, id: TransactionId, amount: int) -> (
        AccountModel,
        Result<(), Rejection>,
    ) {
        if self.used_ids.contains(id) {
            (self, Err(Rejection::InvalidTransactionId(id)))
        } else if self.available < amount {
            (
                AccountModel { used_ids: self.used_ids.insert(id), ..self },
                Err(Rejection::AvailableAmountTooLow(self.available, amount)),
            )
        } else {
            (
                AccountModel {
                    available: self.available - amount,
                    used_ids: self.used_ids.insert(id),
                    ..self
                },
                Ok(()),
            )
        }
    }

    /// A dispute of the deposit `id`, on an account that is not frozen.
    pub open spec fn dispute(self, id: TransactionId) -> (AccountModel, Result<(), Rejection>) {
        if !self.deposits.contains_key(id) {
            (self, Err(Rejection::InvalidTransactionId(id)))
        } else if self.deposits[id].0 != TransactionState::Normal {
            (self, Err(Rejection::InvalidTransactionState))
        } else if self.available < self.deposits[id].1 {
            (self, Err(Rejection::AvailableAmountTooLow(self.available, self.deposits[id].1)))
        } else {
            (
                AccountModel {
                    available: self.available - self.deposits[id].1,
                    held: self.held + self.deposits[id].1,
                    deposits: self.deposits.insert(
                        id,
                        (TransactionState::UnderDispute, self.deposits[id].1),
                    ),
                    ..self
                },
                Ok(()),
            )
        }
    }

    /// The resolution of the dispute of the deposit `id`, on an account that
    /// is not frozen.
    pub open spec fn resolve(self, id: TransactionId) -> (AccountModel, Result<(), Rejection>) {
        if !self.deposits.contains_key(id) {
            (self, Err(Rejection::InvalidTransactionId(id)))
        } else if self.deposits[id].0 != TransactionState::UnderDispute {
            (self, Err(Rejection::InvalidTransactionState))
        } else {
            (
                AccountModel {
                    available: self.available + self.deposits[id].1,
                    held: self.held - self.deposits[id].1,
                    deposits: self.deposits.insert(
                        id,
                        (TransactionState::Normal, self.deposits[id].1),
                    ),
                    ..self
                },
                Ok(()),
            )
        }
    }

    /// The chargeback of the disputed deposit `id`, on an account that is not
    /// frozen. It freezes the account.
    pub open spec fn chargeback(self, id: TransactionId) -> (AccountModel, Result<(), Rejection>) {
        if !self.deposits.contains_key(id) {
            (self, Err(Rejection::InvalidTransactionId(id)))
        } else if self.deposits[id].0 != TransactionState::UnderDispute {
            (self, Err(Rejection::InvalidTransactionState))
        } else {
            (
                AccountModel {
                    held: self.held - self.deposits[id].1,
                    deposits: self.deposits.insert(
                        id,
                        (TransactionState::Chargeback, self.deposits[id].1),
                    ),
                    frozen: true,
                    ..self
                },
                Ok(()),
            )
        }
    }

    /// The account after the transaction `(id, op)`, and whether the
    /// transaction was accepted. A frozen account rejects everything and
    /// stays as it is.
    pub open spec fn apply(self, id: TransactionId, op: Operation) -> (
        AccountModel,
        Result<(), Rejection>,
    ) {
        if self.frozen {
            (self, Err(Rejection::AccountIsFrozen))
        } else {
            match op {
                Operation::Deposit(amount) => self.deposit(id, amount),
                Operation::Withdrawal(amount) => self.withdraw(id, amount),
                Operation::Dispute => self.dispute(id),
                Operation::Resolve => self.resolve(id),
                Operation::Chargeback => self.chargeback(id),
            }
        }
    }

    /// The account after the transaction `(id, op)`.
    pub open spec fn next(self, id: TransactionId, op: Operation) -> AccountModel {
        self.apply(id, op).0
    }

    /// Whether the transaction `(id, op)` is accepted, and if not, why.
    pub open spec fn outcome(self, id: TransactionId, op: Operation) -> Result<(), Rejection> {
        self.apply(id, op).1
    }

    /// Whether the balances stay below `limit` after the transaction
    /// `(id, op)`: only an accepted deposit can take them there.
    pub open spec fn can_hold(self, id: TransactionId, op: Operation, limit: int) -> bool {
        match op {
            Operation::Deposit(amount) => self.outcome(id, op) is Ok ==> self.total() + amount
                < limit,
            _ => true,
        }
    }

    /// The account after the transactions `txs`, in their order.
    pub open spec fn run(self, txs: Seq<(TransactionId, Operation)>) -> AccountModel
        decreases txs.len(),
    {
        if txs.len() == 0 {
            self
        } else {
            self.next(txs[0].0, txs[0].1).run(txs.drop_first())
        }
    }

    /// What holds of every account that transactions have led to: no balance
    /// is negative, no deposit is, every deposit's identifier is consumed,
    /// and the held balance is what is under dispute.
    pub open spec fn inv(self) -> bool {
        &&& 0 <= self.available
        &&& 0 <= self.held
        &&& forall|id: TransactionId| #[trigger]
            self.deposits.contains_key(id) ==> 0 <= self.deposits[id].1
        &&& forall|id: TransactionId| #[trigger]
            self.deposits.contains_key(id) ==> self.used_ids.contains(id)
        &&& self.held == disputed_total(self.deposits)
    }
}

/// Whether every operation of `txs` is valid.
pub open spec fn all_valid(txs: Seq<(TransactionId, Operation)>) -> bool {
    forall|i: int| 0 <= i < txs.len() ==> (#[trigger] txs[i]).1.valid()
}

/// Two sets of deposits that differ at most at `id` hold the same under
/// dispute but for what `id` adds.
pub proof fn lemma_disputed_change(before: Deposits, after: Deposits, id: TransactionId, bound: nat)
    requires
        bound <= id_limit(),
        forall|other: TransactionId|
            other != id ==> #[trigger] disputed_at(after, other) == disputed_at(before, other),
    ensures
        disputed_below(after, bound) == disputed_below(before, bound) + if id < bound {
            disputed_at(after, id) - disputed_at(before, id)
        } else {
            0
        },
    decreases bound,
{
    if bound > 0 {
        lemma_disputed_change(before, after, id, (bound - 1) as nat);
    }
}

/// Where no deposit is negative, what is under dispute is not negative, and
/// not below any single disputed deposit.
pub proof fn lemma_disputed_bounds(deposits: Deposits, id: TransactionId, bound: nat)
    requires
        bound <= id_limit(),
        forall|other: TransactionId| 0 <= #[trigger] disputed_at(deposits, other),
    ensures
        0 <= disputed_below(deposits, bound),
        id < bound ==> disputed_at(deposits, id) <= disputed_below(deposits, bound),
    decreases bound,
{
    if bound > 0 {
        lemma_disputed_bounds(deposits, id, (bound - 1) as nat);
    }
}

/// No deposits, nothing under dispute.
pub proof fn lemma_disputed_empty(bound: nat)
    ensures
        disputed_below(Map::empty(), bound) == 0,
    decreases bound,
{
    if bound > 0 {
        lemma_disputed_empty((bound - 1) as nat);
    }
}

/// The account before its first transaction satisfies the invariant.
pub proof fn lemma_empty_inv()
    ensures
        AccountModel::empty().inv(),
{
    lemma_disputed_empty(id_limit());
}

/// A transaction with a valid operation keeps the invariant.
pub proof fn lemma_apply_inv(account: AccountModel, id: TransactionId, op: Operation)
    requires
        account.inv(),
        op.valid(),
    ensures
        account.next(id, op).inv(),
{
    let after = account.next(id, op);
    assert forall|other: TransactionId| 0 <= #[trigger] disputed_at(account.deposits, other) by {}
    lemma_disputed_bounds(account.deposits, id, id_limit());
    assert forall|other: TransactionId| other != id implies #[trigger] disputed_at(
        after.deposits,
        other,
    ) == disputed_at(account.deposits, other) by {}
    lemma_disputed_change(account.deposits, after.deposits, id, id_limit());
}

} // verus!
