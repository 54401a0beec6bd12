//! What the engine guarantees over several transactions, proved from the
//! outcome [`handled`] that [`crate::engine::PaymentEngine::handle_transaction`]
//! ensures.

use crate::account::client_account_ops::added;
use crate::account::client_account_ops::subtracted;
use crate::account::ClientAccount;
use crate::engine::payment_engine::handled;
use crate::engine::payment_engine::Ledger;
use crate::engine::payment_engine::PaymentEngineError;
use crate::engine::disputable_transaction::DisputableTransactionKind;
use crate::money::lemma_representable_at;
use crate::money::lemma_whole_at_sum;
use crate::money::max_scale;
use crate::money::Money;
use crate::transaction::Chargeback;
use crate::transaction::ClientId;
use crate::transaction::Deposit;
use crate::transaction::Dispute;
use crate::transaction::Resolve;
use crate::transaction::Transaction;
use crate::transaction::TransactionId;
use crate::transaction::Withdrawal;
use vstd::prelude::*;

verus! {

/// After `mid = before + amount` succeeded, taking `amount` back out of `mid`
/// succeeds too: there is enough, and a decimal holds the difference, `before`.
proof fn lemma_debit_after_credit(before: Money, amount: Money, mid: Money)
    requires
        before.wf(),
        amount.wf(),
        added(before, amount, mid),
    ensures
        mid.value() >= amount.value(),
        mid.difference_fits(amount),
{
    before.lemma_value_non_negative();
    let t = max_scale(mid.spec_scale(), amount.spec_scale());
    mid.lemma_value_whole(t);
    amount.lemma_value_whole(t);
    lemma_whole_at_sum(mid.value(), amount.value(), t);
    before.lemma_value_whole(before.spec_scale());
    lemma_representable_at(before.value(), before.spec_scale(), t);
}

/// After `mid = before - amount` succeeded, adding `amount` back to `mid`
/// succeeds too: a decimal holds the sum, `before`.
proof fn lemma_credit_after_debit(before: Money, amount: Money, mid: Money)
    requires
        before.wf(),
        amount.wf(),
        subtracted(before, amount, mid),
    ensures
        mid.sum_fits(amount),
{
    let t = max_scale(mid.spec_scale(), amount.spec_scale());
    mid.lemma_value_whole(t);
    amount.lemma_value_whole(t);
    lemma_whole_at_sum(mid.value(), amount.value(), t);
    before.lemma_value_whole(before.spec_scale());
    lemma_representable_at(before.value(), before.spec_scale(), t);
}

/// A refused transaction with an account unlocked and of the right client that
/// names no record of that client is refused as not found, and changes nothing.
pub proof fn lemma_unknown_transaction_is_not_found(
    ledger: Ledger,
    account: ClientAccount,
    tx: Transaction,
    r: Result<(), PaymentEngineError>,
    ledger2: Ledger,
    account2: ClientAccount,
)
    requires
        handled(ledger, account, tx, r, ledger2, account2),
        tx is Dispute || tx is Resolve || tx is Chargeback,
        account@.client_id == tx.spec_client_id(),
        !account@.locked,
        !ledger.contains_key((tx.spec_client_id(), tx.spec_id())),
    ensures
        r == Err::<(), PaymentEngineError>(PaymentEngineError::TransactionNotFound { id: tx.spec_id() }),
        account2 == account,
        ledger2 == ledger,
{
}

/// A locked account refuses every transaction of its client, and nothing changes.
pub proof fn lemma_locked_account_refuses_everything(
    ledger: Ledger,
    account: ClientAccount,
    tx: Transaction,
    r: Result<(), PaymentEngineError>,
    ledger2: Ledger,
    account2: ClientAccount,
)
    requires
        handled(ledger, account, tx, r, ledger2, account2),
        account@.client_id == tx.spec_client_id(),
        account@.locked,
    ensures
        r == Err::<(), PaymentEngineError>(
            PaymentEngineError::ClientAccountLocked { client_account: account, tx },
        ),
        account2 == account,
        ledger2 == ledger,
{
}

/// Withdrawing more than the available funds is refused for insufficient funds
/// and changes nothing.
pub proof fn lemma_overdraft_is_refused(
    ledger: Ledger,
    account: ClientAccount,
    w: Withdrawal,
    r: Result<(), PaymentEngineError>,
    ledger2: Ledger,
    account2: ClientAccount,
)
    requires
        handled(ledger, account, Transaction::Withdrawal(w), r, ledger2, account2),
        account@.client_id == w.client_id,
        !account@.locked,
        w.amount@.value() > account@.available.value(),
    ensures
        r == Err::<(), PaymentEngineError>(
            PaymentEngineError::ClientAccount(
                crate::account::ClientAccountError::InsufficientFunds {
                    client_account: account,
                    amount: w.amount,
                },
            ),
        ),
        account2 == account,
        ledger2 == ledger,
{
}

/// Handling a transaction of one client never touches the records of another:
/// the same transaction id may be used by both, independently.
pub proof fn lemma_other_clients_records_untouched(
    ledger: Ledger,
    account: ClientAccount,
    tx: Transaction,
    r: Result<(), PaymentEngineError>,
    ledger2: Ledger,
    account2: ClientAccount,
    other: ClientId,
    id: TransactionId,
)
    requires
        handled(ledger, account, tx, r, ledger2, account2),
        other != tx.spec_client_id(),
    ensures
        ledger2.contains_key((other, id)) == ledger.contains_key((other, id)),
        ledger.contains_key((other, id)) ==> ledger2[(other, id)] == ledger[(other, id)],
{
}

/// A dispute that succeeded cannot be repeated: the second one is refused as
/// already disputed, and neither the account nor the records change again.
pub proof fn lemma_second_dispute_is_refused(
    ledger: Ledger,
    account: ClientAccount,
    d: Dispute,
    r1: Result<(), PaymentEngineError>,
    ledger1: Ledger,
    account1: ClientAccount,
    r2: Result<(), PaymentEngineError>,
    ledger2: Ledger,
    account2: ClientAccount,
)
    requires
        handled(ledger, account, Transaction::Dispute(d), r1, ledger1, account1),
        r1 is Ok,
        handled(ledger1, account1, Transaction::Dispute(d), r2, ledger2, account2),
    ensures
        r2 == Err::<(), PaymentEngineError>(
            PaymentEngineError::TransactionAlreadyDisputed {
                client_account: account1,
                tx: Transaction::Dispute(d),
            },
        ),
        account2 == account1,
        ledger2 == ledger1,
{
}

/// Disputing a deposit and then resolving the dispute is a round trip: once the
/// dispute succeeded, the resolve succeeds too, the available and held funds
/// end where they were before the dispute, and the record is as it was.
pub proof fn lemma_resolve_undoes_dispute(
    ledger1: Ledger,
    account1: ClientAccount,
    d: Dispute,
    r2: Result<(), PaymentEngineError>,
    ledger2: Ledger,
    account2: ClientAccount,
    r3: Result<(), PaymentEngineError>,
    ledger3: Ledger,
    account3: ClientAccount,
)
    requires
        account1.wf(),
        ledger1.contains_key((d.client_id, d.id)),
        ledger1[(d.client_id, d.id)].kind == DisputableTransactionKind::Deposit,
        ledger1[(d.client_id, d.id)].amount@.wf(),
        handled(ledger1, account1, Transaction::Dispute(d), r2, ledger2, account2),
        r2 is Ok,
        handled(
            ledger2,
            account2,
            Transaction::Resolve(Resolve { client_id: d.client_id, id: d.id }),
            r3,
            ledger3,
            account3,
        ),
    ensures
        r3 is Ok,
        account3@.available.value() == account1@.available.value(),
        account3@.held.value() == account1@.held.value(),
        account3@.locked == account1@.locked,
        ledger3[(d.client_id, d.id)] == ledger1[(d.client_id, d.id)],
{
    let amount = ledger1[(d.client_id, d.id)].amount@;
    lemma_credit_after_debit(account1@.available, amount, account2@.available);
    lemma_debit_after_credit(account1@.held, amount, account2@.held);
}

/// Disputing a deposit and then charging it back reverses the deposit: once the
/// dispute succeeded, the chargeback succeeds too, the held funds return to
/// their value before the dispute, the available funds end the amount below
/// theirs, and the account is locked, so that it refuses everything after.
pub proof fn lemma_chargeback_reverses_deposit(
    ledger1: Ledger,
    account1: ClientAccount,
    d: Dispute,
    r2: Result<(), PaymentEngineError>,
    ledger2: Ledger,
    account2: ClientAccount,
    r3: Result<(), PaymentEngineError>,
    ledger3: Ledger,
    account3: ClientAccount,
)
    requires
        account1.wf(),
        ledger1.contains_key((d.client_id, d.id)),
        ledger1[(d.client_id, d.id)].kind == DisputableTransactionKind::Deposit,
        ledger1[(d.client_id, d.id)].amount@.wf(),
        handled(ledger1, account1, Transaction::Dispute(d), r2, ledger2, account2),
        r2 is Ok,
        handled(
            ledger2,
            account2,
            Transaction::Chargeback(Chargeback { client_id: d.client_id, id: d.id }),
            r3,
            ledger3,
            account3,
        ),
    ensures
        r3 is Ok,
        account3@.held.value() == account1@.held.value(),
        account3@.available.value() == account1@.available.value()
            - ledger1[(d.client_id, d.id)].amount@.value(),
        account3@.locked,
{
    let amount = ledger1[(d.client_id, d.id)].amount@;
    lemma_debit_after_credit(account1@.held, amount, account2@.held);
}

/// Disputing a withdrawal and then charging it back refunds it: once the
/// dispute succeeded, the chargeback succeeds wherever a decimal holds the
/// refunded balance, the available funds go up by the amount, the hold is
/// released, and the account is locked.
pub proof fn lemma_chargeback_refunds_withdrawal(
    ledger1: Ledger,
    account1: ClientAccount,
    d: Dispute,
    r2: Result<(), PaymentEngineError>,
    ledger2: Ledger,
    account2: ClientAccount,
    r3: Result<(), PaymentEngineError>,
    ledger3: Ledger,
    account3: ClientAccount,
)
    requires
        account1.wf(),
        ledger1.contains_key((d.client_id, d.id)),
        ledger1[(d.client_id, d.id)].kind == DisputableTransactionKind::Withdrawal,
        ledger1[(d.client_id, d.id)].amount@.wf(),
        account1@.available.sum_fits(ledger1[(d.client_id, d.id)].amount@),
        handled(ledger1, account1, Transaction::Dispute(d), r2, ledger2, account2),
        r2 is Ok,
        handled(
            ledger2,
            account2,
            Transaction::Chargeback(Chargeback { client_id: d.client_id, id: d.id }),
            r3,
            ledger3,
            account3,
        ),
    ensures
        r3 is Ok,
        account3@.available.value() == account1@.available.value()
            + ledger1[(d.client_id, d.id)].amount@.value(),
        account3@.held.value() == account1@.held.value(),
        account3@.locked,
{
    let amount = ledger1[(d.client_id, d.id)].amount@;
    lemma_debit_after_credit(account1@.held, amount, account2@.held);
}

/// Right after a withdrawal, disputing it and charging it back succeed wherever
/// the held funds can take the amount, and refund it: the available funds are
/// back at their value before the withdrawal, and the account is locked.
pub proof fn lemma_withdrawal_dispute_chargeback_refunds(
    ledger0: Ledger,
    account0: ClientAccount,
    w: Withdrawal,
    r1: Result<(), PaymentEngineError>,
    ledger1: Ledger,
    account1: ClientAccount,
    r2: Result<(), PaymentEngineError>,
    ledger2: Ledger,
    account2: ClientAccount,
    r3: Result<(), PaymentEngineError>,
    ledger3: Ledger,
    account3: ClientAccount,
)
    requires
        account0.wf(),
        w.amount@.wf(),
        handled(ledger0, account0, Transaction::Withdrawal(w), r1, ledger1, account1),
        r1 is Ok,
        handled(
            ledger1,
            account1,
            Transaction::Dispute(Dispute { client_id: w.client_id, id: w.id }),
            r2,
            ledger2,
            account2,
        ),
        handled(
            ledger2,
            account2,
            Transaction::Chargeback(Chargeback { client_id: w.client_id, id: w.id }),
            r3,
            ledger3,
            account3,
        ),
        account0@.held.sum_fits(w.amount@),
    ensures
        r2 is Ok,
        r3 is Ok,
        account3@.available.value() == account1@.available.value() + w.amount@.value(),
        account3@.available.value() == account0@.available.value(),
        account3@.held.value() == account1@.held.value(),
        account3@.locked,
{
    lemma_credit_after_debit(account0@.available, w.amount@, account1@.available);
    lemma_chargeback_refunds_withdrawal(
        ledger1,
        account1,
        Dispute { client_id: w.client_id, id: w.id },
        r2,
        ledger2,
        account2,
        r3,
        ledger3,
        account3,
    );
}

} // verus!
