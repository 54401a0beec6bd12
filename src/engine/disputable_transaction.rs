//! The record kept of a deposit or withdrawal so that it can be disputed.

use crate::transaction::PositiveAmount;
use crate::transaction::Transaction;
use crate::transaction::TransactionId;
use vstd::prelude::*;

verus! {

/// Which kind of transaction a record stands for.
#[derive(Clone, Copy, Debug, PartialEq, Eq, Structural)]
pub enum DisputableTransactionKind {
    Deposit,
    Withdrawal,
}

impl DisputableTransactionKind {
    /// Whether the record stands for a deposit.
    pub fn is_deposit(self) -> (r: bool)
        ensures
            r == (self == DisputableTransactionKind::Deposit),
    {
        match self {
            DisputableTransactionKind::Deposit => true,
            DisputableTransactionKind::Withdrawal => false,
        }
    }
}

/// A deposit or withdrawal that was applied, and whether it is disputed now.
#[derive(Clone, Copy, Debug)]
pub struct DisputableTransaction {
    pub id: TransactionId,
    pub amount: PositiveAmount,
    pub is_disputed: bool,
    pub kind: DisputableTransactionKind,
}

/// The record a transaction leaves once applied: an undisputed one for a
/// deposit or a withdrawal, none for the other kinds.
pub open spec fn record_of(tx: Transaction) -> Option<DisputableTransaction> {
    match tx {
        Transaction::Deposit(t) => Some(
            DisputableTransaction {
                id: t.id,
                amount: t.amount,
                is_disputed: false,
                kind: DisputableTransactionKind::Deposit,
            },
        ),
        Transaction::Withdrawal(t) => Some(
            DisputableTransaction {
                id: t.id,
                amount: t.amount,
                is_disputed: false,
                kind: DisputableTransactionKind::Withdrawal,
            },
        ),
        _ => None,
    }
}

impl DisputableTransaction {
    /// Whether the record stands for a deposit.
    pub fn is_deposit(&self) -> (r: bool)
        ensures
            r == (self.kind == DisputableTransactionKind::Deposit),
    {
        self.kind.is_deposit()
    }

    /// The record a transaction leaves once applied, if any.
    pub fn from_transaction(tx: Transaction) -> (r: Option<DisputableTransaction>)
        ensures
            r == record_of(tx),
    {
        match tx {
            Transaction::Deposit(t) => Some(
                DisputableTransaction {
                    id: t.id,
                    amount: t.amount,
                    is_disputed: false,
                    kind: DisputableTransactionKind::Deposit,
                },
            ),
            Transaction::Withdrawal(t) => Some(
                DisputableTransaction {
                    id: t.id,
                    amount: t.amount,
                    is_disputed: false,
                    kind: DisputableTransactionKind::Withdrawal,
                },
            ),
            _ => None,
        }
    }
}

} // verus!
