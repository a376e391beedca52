//! What holds of every account, whatever transactions it has seen. Each law
//! is stated of the model, which the ledger is proved to follow step by
//! step.

use crate::model::{all_valid, lemma_apply_inv, lemma_empty_inv, AccountModel, Operation, Rejection};
use crate::types::TransactionId;
use vstd::prelude::*;

verus! {

/// What the transaction `(id, op)` deposits: the amount of an accepted
/// deposit, else nothing.
pub open spec fn deposited_by(account: AccountModel, id: TransactionId, op: Operation) -> int {
    match op {
        Operation::Deposit(amount) if account.outcome(id, op) is Ok => amount,
        _ => 0,
    }
}

/// What the transaction `(id, op)` withdraws: the amount of an accepted
/// withdrawal, else nothing.
pub open spec fn withdrawn_by(account: AccountModel, id: TransactionId, op: Operation) -> int {
    match op {
        Operation::Withdrawal(amount) if account.outcome(id, op) is Ok => amount,
        _ => 0,
    }
}

/// What the transaction `(id, op)` charges back: the amount of the deposit
/// that an accepted chargeback removes, else nothing.
pub open spec fn charged_back_by(account: AccountModel, id: TransactionId, op: Operation) -> int {
    match op {
        Operation::Chargeback if account.outcome(id, op) is Ok => account.deposits[id].1,
        _ => 0,
    }
}

/// The sum of the accepted deposits among `txs`, applied in order to
/// `account`.
pub open spec fn deposited(account: AccountModel, txs: Seq<(TransactionId, Operation)>) -> int
    decreases txs.len(),
{
    if txs.len() == 0 {
        0
    } else {
        deposited_by(account, txs[0].0, txs[0].1) + deposited(
            account.next(txs[0].0, txs[0].1),
            txs.drop_first(),
        )
    }
}

/// The sum of the accepted withdrawals among `txs`, applied in order to
/// `account`.
pub open spec fn withdrawn(account: AccountModel, txs: Seq<(TransactionId, Operation)>) -> int
    decreases txs.len(),
{
    if txs.len() == 0 {
        0
    } else {
        withdrawn_by(account, txs[0].0, txs[0].1) + withdrawn(
            account.next(txs[0].0, txs[0].1),
            txs.drop_first(),
        )
    }
}

/// The sum of the amounts that accepted chargebacks among `txs` remove,
/// applied in order to `account`.
pub open spec fn charged_back(account: AccountModel, txs: Seq<(TransactionId, Operation)>) -> int
    decreases txs.len(),
{
    if txs.len() == 0 {
        0
    } else {
        charged_back_by(account, txs[0].0, txs[0].1) + charged_back(
            account.next(txs[0].0, txs[0].1),
            txs.drop_first(),
        )
    }
}

/// Transactions with valid operations keep the invariant of the account.
pub proof fn lemma_run_inv(account: AccountModel, txs: Seq<(TransactionId, Operation)>)
    requires
        account.inv(),
        all_valid(txs),
    ensures
        account.run(txs).inv(),
    decreases txs.len(),
{
    if txs.len() > 0 {
        assert(txs[0].1.valid());
        lemma_apply_inv(account, txs[0].0, txs[0].1);
        let rest = txs.drop_first();
        assert forall|i: int| 0 <= i < rest.len() implies (#[trigger] rest[i]).1.valid() by {
            assert(rest[i] == txs[i + 1]);
        }
        lemma_run_inv(account.next(txs[0].0, txs[0].1), rest);
    }
}

/// Non-negative balances: whatever transactions a new account has seen,
/// neither its available nor its held balance is negative.
pub proof fn lemma_balances_never_negative(txs: Seq<(TransactionId, Operation)>)
    requires
        all_valid(txs),
    ensures
        0 <= AccountModel::empty().run(txs).available,
        0 <= AccountModel::empty().run(txs).held,
{
    lemma_empty_inv();
    lemma_run_inv(AccountModel::empty(), txs);
}

/// Conservation, one step: a transaction changes available and held
/// together by what it deposits, less what it withdraws or charges back.
pub proof fn lemma_step_conserves(account: AccountModel, id: TransactionId, op: Operation)
    ensures
        account.next(id, op).total() == account.total() + deposited_by(account, id, op)
            - withdrawn_by(account, id, op) - charged_back_by(account, id, op),
{
}

/// Conservation: after any transactions, available and held together are
/// what they were, plus the accepted deposits, less the accepted
/// withdrawals and the amounts that accepted chargebacks removed.
pub proof fn lemma_conservation(account: AccountModel, txs: Seq<(TransactionId, Operation)>)
    ensures
        account.run(txs).total() == account.total() + deposited(account, txs) - withdrawn(
            account,
            txs,
        ) - charged_back(account, txs),
    decreases txs.len(),
{
    if txs.len() > 0 {
        lemma_step_conserves(account, txs[0].0, txs[0].1);
        lemma_conservation(account.next(txs[0].0, txs[0].1), txs.drop_first());
    }
}

/// Conservation for a new account: available and held together are the
/// accepted deposits, less the accepted withdrawals and the amounts that
/// accepted chargebacks removed.
pub proof fn lemma_conservation_from_empty(txs: Seq<(TransactionId, Operation)>)
    ensures
        AccountModel::empty().run(txs).total() == deposited(AccountModel::empty(), txs)
            - withdrawn(AccountModel::empty(), txs) - charged_back(AccountModel::empty(), txs),
{
    lemma_conservation(AccountModel::empty(), txs);
}

/// A consumed identifier stays consumed.
pub proof fn lemma_used_ids_grow(
    account: AccountModel,
    txs: Seq<(TransactionId, Operation)>,
    id: TransactionId,
)
    requires
        account.used_ids.contains(id),
    ensures
        account.run(txs).used_ids.contains(id),
    decreases txs.len(),
{
    if txs.len() > 0 {
        lemma_used_ids_grow(account.next(txs[0].0, txs[0].1), txs.drop_first(), id);
    }
}

/// Identifier exclusivity: once a deposit or a withdrawal under `id` was
/// accepted, every later deposit or withdrawal under `id` is rejected,
/// whatever happened in between: as a reuse of the identifier, or because
/// the account is frozen by then.
pub proof fn lemma_id_exclusive(
    account: AccountModel,
    id: TransactionId,
    first: Operation,
    between: Seq<(TransactionId, Operation)>,
    second: Operation,
)
    requires
        first is Deposit || first is Withdrawal,
        second is Deposit || second is Withdrawal,
        account.outcome(id, first) is Ok,
    ensures
        account.next(id, first).run(between).outcome(id, second) == Err::<(), Rejection>(
            Rejection::InvalidTransactionId(id),
        ) || account.next(id, first).run(between).outcome(id, second) == Err::<(), Rejection>(
            Rejection::AccountIsFrozen,
        ),
{
    lemma_used_ids_grow(account.next(id, first), between, id);
}

/// Frozen terminality, one step: a frozen account rejects every transaction
/// as frozen, and stays as it is.
pub proof fn lemma_frozen_rejects(account: AccountModel, id: TransactionId, op: Operation)
    requires
        account.frozen,
    ensures
        account.outcome(id, op) == Err::<(), Rejection>(Rejection::AccountIsFrozen),
        account.next(id, op) == account,
{
}

/// Frozen terminality: no transactions change a frozen account.
pub proof fn lemma_frozen_forever(account: AccountModel, txs: Seq<(TransactionId, Operation)>)
    requires
        account.frozen,
    ensures
        account.run(txs) == account,
    decreases txs.len(),
{
    if txs.len() > 0 {
        lemma_frozen_rejects(account, txs[0].0, txs[0].1);
        lemma_frozen_forever(account, txs.drop_first());
    }
}

/// The account freezes by an accepted chargeback and in no other way.
pub proof fn lemma_frozen_by_chargeback(account: AccountModel, id: TransactionId, op: Operation)
    requires
        !account.frozen,
    ensures
        account.next(id, op).frozen <==> op is Chargeback && account.outcome(id, op) is Ok,
{
}

/// A dispute that follows an accepted dispute of the same deposit is
/// rejected: the deposit is not in the state for it.
pub proof fn lemma_dispute_twice(account: AccountModel, id: TransactionId)
    requires
        account.outcome(id, Operation::Dispute) is Ok,
    ensures
        account.next(id, Operation::Dispute).outcome(id, Operation::Dispute) == Err::<
            (),
            Rejection,
        >(Rejection::InvalidTransactionState),
{
}

} // verus!
