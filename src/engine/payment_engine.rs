//! The state machine that applies one transaction to its client's account.

use crate::account::client_account_ops::added;
use crate::account::client_account_ops::credit_error;
use crate::account::client_account_ops::debit_error;
use crate::account::client_account_ops::deposit_post;
use crate::account::client_account_ops::hold_post;
use crate::account::client_account_ops::settled;
use crate::account::client_account_ops::subtracted;
use crate::account::client_account_ops::unhold_and_deposit_post;
use crate::account::client_account_ops::withdraw_and_hold_post;
use crate::account::client_account_ops::withdraw_post;
use crate::account::AccountView;
use crate::account::ClientAccount;
use crate::account::ClientAccountError;
use crate::engine::disputable_transaction::record_of;
use crate::engine::disputable_transaction::DisputableTransaction;
use crate::engine::disputable_transaction::DisputableTransactionKind;
use crate::transaction::ClientId;
use crate::transaction::Transaction;
use crate::transaction::TransactionId;
use std::collections::HashMap;
use vstd::prelude::*;

verus! {

/// Where the record of transaction `id` of `client` is kept: client and
/// transaction ids packed into one integer.
pub open spec fn ledger_key(client: ClientId, id: TransactionId) -> u64 {
    ((client.0 as int) * 0x1_0000_0000 + (id.0 as int)) as u64
}

/// Two records share a key only if they share client and transaction id.
pub proof fn lemma_ledger_key_injective(c1: ClientId, t1: TransactionId, c2: ClientId, t2: TransactionId)
    ensures
        ledger_key(c1, t1) == ledger_key(c2, t2) ==> c1 == c2 && t1 == t2,
{
    assert(0 <= (c1.0 as int) * 0x1_0000_0000 + (t1.0 as int) <= u64::MAX) by (nonlinear_arith)
        requires
            0 <= c1.0 <= u16::MAX,
            0 <= t1.0 <= u32::MAX,
    ;
    assert(0 <= (c2.0 as int) * 0x1_0000_0000 + (t2.0 as int) <= u64::MAX) by (nonlinear_arith)
        requires
            0 <= c2.0 <= u16::MAX,
            0 <= t2.0 <= u32::MAX,
    ;
    let a1 = c1.0 as int;
    let a2 = c2.0 as int;
    let b1 = t1.0 as int;
    let b2 = t2.0 as int;
    assert(a1 * 0x1_0000_0000 + b1 == a2 * 0x1_0000_0000 + b2 ==> a1 == a2) by (nonlinear_arith)
        requires
            0 <= b1 < 0x1_0000_0000,
            0 <= b2 < 0x1_0000_0000,
    ;
}

/// Why a transaction was refused.
#[derive(Debug)]
pub enum PaymentEngineError {
    /// The transaction belongs to another client than the account given.
    UnrelatedTransaction { client_account: ClientAccount, tx: Transaction },
    /// The account is locked.
    ClientAccountLocked { client_account: ClientAccount, tx: Transaction },
    /// No deposit or withdrawal of this client has the id referred to.
    TransactionNotFound { id: TransactionId },
    /// The transaction referred to is disputed already.
    TransactionAlreadyDisputed { client_account: ClientAccount, tx: Transaction },
    /// The transaction referred to is not disputed.
    TransactionNotDisputed { client_account: ClientAccount, tx: Transaction },
    /// The account refused the mutation.
    ClientAccount(ClientAccountError),
}

/// The records of disputable transactions, by client and transaction id.
pub type Ledger = Map<(ClientId, TransactionId), DisputableTransaction>;

/// Applies transactions to accounts, remembering the deposits and withdrawals
/// that can be disputed.
pub struct PaymentEngine {
    disputable_txs: HashMap<u64, DisputableTransaction>,
}

impl View for PaymentEngine {
    type V = Ledger;

    closed spec fn view(&self) -> Ledger {
        Map::new(
            |k: (ClientId, TransactionId)| self.disputable_txs@.contains_key(ledger_key(k.0, k.1)),
            |k: (ClientId, TransactionId)| self.disputable_txs@[ledger_key(k.0, k.1)],
        )
    }
}

/// The account's own error inside an engine result.
pub open spec fn account_result(r: Result<(), PaymentEngineError>) -> Result<(), ClientAccountError> {
    match r {
        Err(PaymentEngineError::ClientAccount(e)) => Err(e),
        _ => Ok(()),
    }
}

/// `r` succeeded or failed in the account.
pub open spec fn ok_or_account_error(r: Result<(), PaymentEngineError>) -> bool {
    r is Ok || r matches Err(PaymentEngineError::ClientAccount(_))
}

/// The ledger after a transaction that ends in `r`: `updated` if it succeeded.
pub open spec fn ledger_after(r: Result<(), PaymentEngineError>, before: Ledger, updated: Ledger) -> Ledger {
    if r is Ok {
        updated
    } else {
        before
    }
}

/// What a chargeback does to the account: it reverses the disputed transaction
/// (takes a deposit's amount out of the held funds; refunds a withdrawal's
/// amount to the available funds and releases its hold) and locks the account.
pub open spec fn chargeback_post(
    record: DisputableTransaction,
    before: ClientAccount,
    r: Result<(), ClientAccountError>,
    after: ClientAccount,
) -> bool {
    let amount = record.amount;
    if record.kind == DisputableTransactionKind::Deposit {
        &&& settled(r, debit_error(before@.held, before, amount), None, before, after)
        &&& r is Ok ==> {
            &&& subtracted(before@.held, amount@, after@.held)
            &&& after@ == (AccountView { held: after@.held, locked: true, ..before@ })
        }
    } else {
        &&& settled(
            r,
            credit_error(before@.available, before, amount),
            debit_error(before@.held, before, amount),
            before,
            after,
        )
        &&& r is Ok ==> {
            &&& added(before@.available, amount@, after@.available)
            &&& subtracted(before@.held, amount@, after@.held)
            &&& after@ == (AccountView {
                available: after@.available,
                held: after@.held,
                locked: true,
                ..before@
            })
        }
    }
}

/// The outcome of handling `tx` on `account` with the records `ledger`: the
/// result `r`, the records `ledger2` and the account `account2` afterwards.
pub open spec fn handled(
    ledger: Ledger,
    account: ClientAccount,
    tx: Transaction,
    r: Result<(), PaymentEngineError>,
    ledger2: Ledger,
    account2: ClientAccount,
) -> bool {
    let key = (tx.spec_client_id(), tx.spec_id());
    let unchanged = ledger2 == ledger && account2 == account;
    if account@.client_id != tx.spec_client_id() {
        &&& r == Err::<(), PaymentEngineError>(
            PaymentEngineError::UnrelatedTransaction { client_account: account, tx },
        )
        &&& unchanged
    } else if account@.locked {
        &&& r == Err::<(), PaymentEngineError>(
            PaymentEngineError::ClientAccountLocked { client_account: account, tx },
        )
        &&& unchanged
    } else {
        match tx {
            Transaction::Deposit(t) => {
                &&& ok_or_account_error(r)
                &&& deposit_post(account, t.amount, account_result(r), account2)
                &&& ledger2 == ledger_after(r, ledger, ledger.insert(key, record_of(tx)->0))
            },
            Transaction::Withdrawal(t) => {
                &&& ok_or_account_error(r)
                &&& withdraw_post(account, t.amount, account_result(r), account2)
                &&& ledger2 == ledger_after(r, ledger, ledger.insert(key, record_of(tx)->0))
            },
            _ => if !ledger.contains_key(key) {
                &&& r == Err::<(), PaymentEngineError>(
                    PaymentEngineError::TransactionNotFound { id: tx.spec_id() },
                )
                &&& unchanged
            } else {
                let record = ledger[key];
                match tx {
                    Transaction::Dispute(_) => if record.is_disputed {
                        &&& r == Err::<(), PaymentEngineError>(
                            PaymentEngineError::TransactionAlreadyDisputed {
                                client_account: account,
                                tx,
                            },
                        )
                        &&& unchanged
                    } else {
                        &&& ok_or_account_error(r)
                        &&& if record.kind == DisputableTransactionKind::Deposit {
                            withdraw_and_hold_post(account, record.amount, account_result(r), account2)
                        } else {
                            hold_post(account, record.amount, account_result(r), account2)
                        }
                        &&& ledger2 == ledger_after(
                            r,
                            ledger,
                            ledger.insert(key, DisputableTransaction { is_disputed: true, ..record }),
                        )
                    },
                    _ => if !record.is_disputed {
                        &&& r == Err::<(), PaymentEngineError>(
                            PaymentEngineError::TransactionNotDisputed { client_account: account, tx },
                        )
                        &&& unchanged
                    } else {
                        &&& ok_or_account_error(r)
                        &&& if tx is Resolve {
                            unhold_and_deposit_post(account, record.amount, account_result(r), account2)
                        } else {
                            chargeback_post(record, account, account_result(r), account2)
                        }
                        &&& ledger2 == ledger_after(
                            r,
                            ledger,
                            ledger.insert(key, DisputableTransaction { is_disputed: false, ..record }),
                        )
                    },
                }
            },
        }
    }
}

impl PaymentEngine {
    /// An engine with no records.
    pub fn new() -> (r: PaymentEngine)
        ensures
            r@ == Ledger::empty(),
    {
        let r = PaymentEngine { disputable_txs: HashMap::new() };
        assert(r@ =~= Ledger::empty());
        r
    }

    /// Applies `tx` to `client_account`, the account of the transaction's client.
    ///
    /// A deposit or withdrawal moves the available funds and, once applied,
    /// leaves a record that can be disputed. A dispute freezes the amount of the
    /// record it names: a deposit's amount moves from the available to the held
    /// funds, a withdrawal's amount is held in addition. A resolve moves the
    /// amount from the held back to the available funds. A chargeback reverses
    /// the transaction and locks the account. A refused transaction leaves the
    /// account and the records as they were.
    pub fn handle_transaction(&mut self, client_account: &mut ClientAccount, tx: Transaction) -> (r:
        Result<(), PaymentEngineError>)
        ensures
            handled(old(self)@, *old(client_account), tx, r, final(self)@, *final(client_account)),
    {
        if client_account.client_id() != tx.client_id() {
            return Err(
                PaymentEngineError::UnrelatedTransaction { client_account: *client_account, tx },
            );
        }
        if client_account.is_locked() {
            return Err(
                PaymentEngineError::ClientAccountLocked { client_account: *client_account, tx },
            );
        }
        let client_id = client_account.client_id();
        match tx {
            Transaction::Deposit(deposit) => {
                if let Err(e) = crate::account::deposit(client_account, deposit.amount) {
                    return Err(PaymentEngineError::ClientAccount(e));
                }
            },
            Transaction::Withdrawal(withdrawal) => {
                if let Err(e) = crate::account::withdraw(client_account, withdrawal.amount) {
                    return Err(PaymentEngineError::ClientAccount(e));
                }
            },
            Transaction::Dispute(dispute) => {
                let record = self.get_disputable_transaction(client_id, dispute.id)?;
                if record.is_disputed {
                    return Err(
                        PaymentEngineError::TransactionAlreadyDisputed {
                            client_account: *client_account,
                            tx,
                        },
                    );
                }
                let moved = if record.is_deposit() {
                    crate::account::withdraw_and_hold(client_account, record.amount)
                } else {
                    crate::account::hold(client_account, record.amount)
                };
                if let Err(e) = moved {
                    return Err(PaymentEngineError::ClientAccount(e));
                }
                self.put(client_id, dispute.id, DisputableTransaction { is_disputed: true, ..record });
            },
            Transaction::Resolve(resolve) => {
                let record = self.get_disputable_transaction(client_id, resolve.id)?;
                if !record.is_disputed {
                    return Err(
                        PaymentEngineError::TransactionNotDisputed {
                            client_account: *client_account,
                            tx,
                        },
                    );
                }
                if let Err(e) = crate::account::unhold_and_deposit(client_account, record.amount) {
                    return Err(PaymentEngineError::ClientAccount(e));
                }
                self.put(client_id, resolve.id, DisputableTransaction { is_disputed: false, ..record });
            },
            Transaction::Chargeback(chargeback) => {
                let record = self.get_disputable_transaction(client_id, chargeback.id)?;
                if !record.is_disputed {
                    return Err(
                        PaymentEngineError::TransactionNotDisputed {
                            client_account: *client_account,
                            tx,
                        },
                    );
                }
                let reversed = if record.is_deposit() {
                    crate::account::unhold(client_account, record.amount)
                } else {
                    crate::account::deposit_and_unhold(client_account, record.amount)
                };
                if let Err(e) = reversed {
                    return Err(PaymentEngineError::ClientAccount(e));
                }
                crate::account::lock(client_account);
                self.put(
                    client_id,
                    chargeback.id,
                    DisputableTransaction { is_disputed: false, ..record },
                );
            },
        }
        if let Some(record) = DisputableTransaction::from_transaction(tx) {
            self.put(client_id, tx.id(), record);
        }
        Ok(())
    }

    /// Sets the record of transaction `id` of `client_id` to `record`.
    fn put(&mut self, client_id: ClientId, id: TransactionId, record: DisputableTransaction)
        ensures
            final(self)@ == old(self)@.insert((client_id, id), record),
    {
        let key: u64 = (client_id.0 as u64) * 0x1_0000_0000 + (id.0 as u64);
        self.disputable_txs.insert(key, record);
        proof {
            assert forall|k: (ClientId, TransactionId)|
                #![trigger final(self)@.contains_key(k)]
                ledger_key(k.0, k.1) == key ==> k == (client_id, id) by {
                lemma_ledger_key_injective(k.0, k.1, client_id, id);
            }
            assert(final(self)@ =~= old(self)@.insert((client_id, id), record));
        }
    }

    /// The record of transaction `id` of `client_id`, or `TransactionNotFound`.
    fn get_disputable_transaction(&self, client_id: ClientId, id: TransactionId) -> (r: Result<
        DisputableTransaction,
        PaymentEngineError,
    >)
        ensures
            self@.contains_key((client_id, id)) ==> r == Ok::<
                DisputableTransaction,
                PaymentEngineError,
            >(self@[(client_id, id)]),
            !self@.contains_key((client_id, id)) ==> r == Err::<
                DisputableTransaction,
                PaymentEngineError,
            >(PaymentEngineError::TransactionNotFound { id }),
    {
        let key: u64 = (client_id.0 as u64) * 0x1_0000_0000 + (id.0 as u64);
        match self.disputable_txs.get(&key) {
            Some(record) => Ok(*record),
            None => Err(PaymentEngineError::TransactionNotFound { id }),
        }
    }
}

impl Default for PaymentEngine {
    fn default() -> (r: PaymentEngine)
        ensures
            r@ == Ledger::empty(),
    {
        PaymentEngine::new()
    }
}

} // verus!
