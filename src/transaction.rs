//! The transactions a ledger replays.

use crate::money::Money;
use vstd::prelude::*;

verus! {

/// Identifies a client and its account.
#[derive(Clone, Copy, Debug, PartialEq, Eq, Structural, Hash, PartialOrd, Ord)]
pub struct ClientId(pub u16);

/// Identifies a transaction within the stream of one client.
#[derive(Clone, Copy, Debug, PartialEq, Eq, Structural, Hash)]
pub struct TransactionId(pub u32);

/// A non-negative amount carried by a deposit or a withdrawal.
#[derive(Clone, Copy, Debug)]
pub struct PositiveAmount(Money);

impl View for PositiveAmount {
    type V = Money;

    closed spec fn view(&self) -> Money {
        self.0
    }
}

impl PositiveAmount {
    /// The amount worth `value`.
    pub fn new(value: Money) -> (r: PositiveAmount)
        ensures
            r@ == value,
    {
        PositiveAmount(value)
    }

    /// The decimal value.
    pub fn as_inner(&self) -> (r: Money)
        ensures
            r == self@,
    {
        self.0
    }
}

/// Credits `amount` to a client's available funds.
#[derive(Clone, Copy, Debug)]
pub struct Deposit {
    pub client_id: ClientId,
    pub id: TransactionId,
    pub amount: PositiveAmount,
}

impl Deposit {
    /// The amount credited.
    pub fn amount(&self) -> (r: PositiveAmount)
        ensures
            r == self.amount,
    {
        self.amount
    }
}

/// Debits `amount` from a client's available funds.
#[derive(Clone, Copy, Debug)]
pub struct Withdrawal {
    pub client_id: ClientId,
    pub id: TransactionId,
    pub amount: PositiveAmount,
}

impl Withdrawal {
    /// The amount debited.
    pub fn amount(&self) -> (r: PositiveAmount)
        ensures
            r == self.amount,
    {
        self.amount
    }
}

/// Contests the earlier deposit or withdrawal `id` of the same client.
#[derive(Clone, Copy, Debug, PartialEq, Eq, Structural)]
pub struct Dispute {
    pub client_id: ClientId,
    pub id: TransactionId,
}

/// Settles the dispute of transaction `id` in the client's favour.
#[derive(Clone, Copy, Debug, PartialEq, Eq, Structural)]
pub struct Resolve {
    pub client_id: ClientId,
    pub id: TransactionId,
}

/// Settles the dispute of transaction `id` against the client, locking the account.
#[derive(Clone, Copy, Debug, PartialEq, Eq, Structural)]
pub struct Chargeback {
    pub client_id: ClientId,
    pub id: TransactionId,
}

/// One entry of a client's transaction stream.
#[derive(Clone, Copy, Debug)]
pub enum Transaction {
    Deposit(Deposit),
    Withdrawal(Withdrawal),
    Dispute(Dispute),
    Resolve(Resolve),
    Chargeback(Chargeback),
}

/// The kind of transaction a row of a transaction log names.
#[derive(Clone, Copy, Debug, PartialEq, Eq, Structural)]
pub enum TransactionKind {
    Deposit,
    Withdrawal,
    Dispute,
    Resolve,
    Chargeback,
}

/// Why a row of a transaction log does not make a transaction.
#[derive(Clone, Copy, Debug, PartialEq, Eq, Structural)]
pub enum TransactionRowError {
    /// A deposit or withdrawal without an amount.
    MissingAmount,
}

/// The transaction a row makes: deposits and withdrawals need an amount;
/// disputes, resolves and chargebacks ignore one.
pub open spec fn transaction_of_row(
    kind: TransactionKind,
    client_id: ClientId,
    id: TransactionId,
    amount: Option<PositiveAmount>,
) -> Result<Transaction, TransactionRowError> {
    match (kind, amount) {
        (TransactionKind::Deposit, Some(amount)) => Ok(
            Transaction::Deposit(Deposit { client_id, id, amount }),
        ),
        (TransactionKind::Withdrawal, Some(amount)) => Ok(
            Transaction::Withdrawal(Withdrawal { client_id, id, amount }),
        ),
        (TransactionKind::Dispute, _) => Ok(Transaction::Dispute(Dispute { client_id, id })),
        (TransactionKind::Resolve, _) => Ok(Transaction::Resolve(Resolve { client_id, id })),
        (TransactionKind::Chargeback, _) => Ok(Transaction::Chargeback(Chargeback { client_id, id })),
        _ => Err(TransactionRowError::MissingAmount),
    }
}

impl Transaction {
    /// The transaction a row of a transaction log makes, from the row's fields.
    pub fn from_row(
        kind: TransactionKind,
        client_id: ClientId,
        id: TransactionId,
        amount: Option<PositiveAmount>,
    ) -> (r: Result<Transaction, TransactionRowError>)
        ensures
            r == transaction_of_row(kind, client_id, id, amount),
    {
        match kind {
            TransactionKind::Deposit => match amount {
                Some(amount) => Ok(Transaction::Deposit(Deposit { client_id, id, amount })),
                None => Err(TransactionRowError::MissingAmount),
            },
            TransactionKind::Withdrawal => match amount {
                Some(amount) => Ok(Transaction::Withdrawal(Withdrawal { client_id, id, amount })),
                None => Err(TransactionRowError::MissingAmount),
            },
            TransactionKind::Dispute => Ok(Transaction::Dispute(Dispute { client_id, id })),
            TransactionKind::Resolve => Ok(Transaction::Resolve(Resolve { client_id, id })),
            TransactionKind::Chargeback => Ok(Transaction::Chargeback(Chargeback { client_id, id })),
        }
    }

    /// The transaction's own id, or for a dispute, resolve or chargeback the id it refers to.
    pub open spec fn spec_id(self) -> TransactionId {
        match self {
            Transaction::Deposit(t) => t.id,
            Transaction::Withdrawal(t) => t.id,
            Transaction::Dispute(t) => t.id,
            Transaction::Resolve(t) => t.id,
            Transaction::Chargeback(t) => t.id,
        }
    }

    /// The client the transaction belongs to.
    pub open spec fn spec_client_id(self) -> ClientId {
        match self {
            Transaction::Deposit(t) => t.client_id,
            Transaction::Withdrawal(t) => t.client_id,
            Transaction::Dispute(t) => t.client_id,
            Transaction::Resolve(t) => t.client_id,
            Transaction::Chargeback(t) => t.client_id,
        }
    }

    /// The transaction's id, or the id it refers to.
    pub fn id(&self) -> (r: TransactionId)
        ensures
            r == self.spec_id(),
    {
        match self {
            Transaction::Deposit(t) => t.id,
            Transaction::Withdrawal(t) => t.id,
            Transaction::Dispute(t) => t.id,
            Transaction::Resolve(t) => t.id,
            Transaction::Chargeback(t) => t.id,
        }
    }

    /// The client the transaction belongs to.
    pub fn client_id(&self) -> (r: ClientId)
        ensures
            r == self.spec_client_id(),
    {
        match self {
            Transaction::Deposit(t) => t.client_id,
            Transaction::Withdrawal(t) => t.client_id,
            Transaction::Dispute(t) => t.client_id,
            Transaction::Resolve(t) => t.client_id,
            Transaction::Chargeback(t) => t.client_id,
        }
    }
}

} // verus!
