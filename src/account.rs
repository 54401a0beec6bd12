//! Client accounts: balances, their checked mutations, and the registry that
//! creates an account on the first reference to a client.

use crate::money::Money;
use crate::transaction::ClientId;
use crate::transaction::PositiveAmount;
use std::collections::HashMap;
use vstd::prelude::*;

pub mod client_account_ops;

pub use client_account_ops::deposit;
pub use client_account_ops::deposit_and_unhold;
pub use client_account_ops::hold;
pub use client_account_ops::lock;
pub use client_account_ops::unhold;
pub use client_account_ops::unhold_and_deposit;
pub use client_account_ops::withdraw;
pub use client_account_ops::withdraw_and_hold;
pub use client_account_ops::ClientAccountError;

verus! {

/// The state of an account as the contracts speak of it.
pub struct AccountView {
    pub client_id: ClientId,
    pub available: Money,
    pub held: Money,
    pub locked: bool,
}

/// One client's balances.
#[derive(Clone, Copy, Debug)]
pub struct ClientAccount {
    client_id: ClientId,
    available: Money,
    held: Money,
    locked: bool,
}

impl View for ClientAccount {
    type V = AccountView;

    closed spec fn view(&self) -> AccountView {
        AccountView {
            client_id: self.client_id,
            available: self.available,
            held: self.held,
            locked: self.locked,
        }
    }
}

impl ClientAccount {
    /// Both balances lie in a decimal's range.
    pub open spec fn wf(self) -> bool {
        self@.available.wf() && self@.held.wf()
    }

    /// A fresh account: zero balances, unlocked.
    pub fn new(client_id: ClientId) -> (r: ClientAccount)
        ensures
            r.wf(),
            r@.client_id == client_id,
            r@.available.value() == 0,
            r@.available.spec_scale() == 0,
            r@.held.value() == 0,
            r@.held.spec_scale() == 0,
            !r@.locked,
    {
        ClientAccount { client_id, available: Money::zero(), held: Money::zero(), locked: false }
    }

    /// The client the account belongs to.
    pub fn client_id(&self) -> (r: ClientId)
        ensures
            r == self@.client_id,
    {
        self.client_id
    }

    /// The funds that can be withdrawn now.
    pub fn available(&self) -> (r: Money)
        ensures
            r == self@.available,
    {
        self.available
    }

    /// The funds frozen by open disputes.
    pub fn held(&self) -> (r: Money)
        ensures
            r == self@.held,
    {
        self.held
    }

    /// Whether a chargeback has locked the account.
    pub fn is_locked(&self) -> (r: bool)
        ensures
            r == self@.locked,
    {
        self.locked
    }

    /// Whether a chargeback has locked the account.
    pub fn locked(&self) -> (r: bool)
        ensures
            r == self@.locked,
    {
        self.locked
    }

    /// `available + held`, or `None` where the sum cannot be held exactly.
    pub fn total(&self) -> (r: Option<Money>)
        ensures
            r is Some <==> self@.available.sum_fits(self@.held),
            r matches Some(t) ==> t.wf() && t.value() == self@.available.value()
                + self@.held.value(),
    {
        self.available.checked_add(&self.held)
    }

    /// Adds `amount` to the available funds.
    pub fn deposit(&mut self, amount: PositiveAmount) -> (r: Result<(), ClientAccountError>)
        ensures
            client_account_ops::deposit_post(*old(self), amount, r, *final(self)),
    {
        client_account_ops::deposit(self, amount)
    }

    /// Takes `amount` from the available funds.
    pub fn withdraw(&mut self, amount: PositiveAmount) -> (r: Result<(), ClientAccountError>)
        ensures
            client_account_ops::withdraw_post(*old(self), amount, r, *final(self)),
    {
        client_account_ops::withdraw(self, amount)
    }

    /// Adds `amount` to the held funds.
    pub fn hold(&mut self, amount: PositiveAmount) -> (r: Result<(), ClientAccountError>)
        ensures
            client_account_ops::hold_post(*old(self), amount, r, *final(self)),
    {
        client_account_ops::hold(self, amount)
    }

    /// Takes `amount` from the held funds.
    pub fn unhold(&mut self, amount: PositiveAmount) -> (r: Result<(), ClientAccountError>)
        ensures
            client_account_ops::unhold_post(*old(self), amount, r, *final(self)),
    {
        client_account_ops::unhold(self, amount)
    }

    /// Moves `amount` from the available to the held funds, all or nothing.
    pub fn withdraw_and_hold(&mut self, amount: PositiveAmount) -> (r: Result<(), ClientAccountError>)
        ensures
            client_account_ops::withdraw_and_hold_post(*old(self), amount, r, *final(self)),
    {
        client_account_ops::withdraw_and_hold(self, amount)
    }

    /// Moves `amount` from the held back to the available funds, all or nothing.
    pub fn unhold_and_deposit(&mut self, amount: PositiveAmount) -> (r: Result<(), ClientAccountError>)
        ensures
            client_account_ops::unhold_and_deposit_post(*old(self), amount, r, *final(self)),
    {
        client_account_ops::unhold_and_deposit(self, amount)
    }

    /// Adds `amount` to the available funds and takes it from the held funds, all
    /// or nothing.
    pub fn deposit_and_unhold(&mut self, amount: PositiveAmount) -> (r: Result<(), ClientAccountError>)
        ensures
            client_account_ops::deposit_and_unhold_post(*old(self), amount, r, *final(self)),
    {
        client_account_ops::deposit_and_unhold(self, amount)
    }

    /// Locks the account.
    pub fn lock(&mut self)
        ensures
            final(self)@ == (AccountView { locked: true, ..old(self)@ }),
    {
        client_account_ops::lock(self)
    }
}

/// The accounts of all clients seen so far, by client id.
pub struct ClientsAccounts(HashMap<u16, ClientAccount>);

/// Accounts keyed by the number inside each client id, rekeyed by the client id itself.
spec fn by_client_id(m: Map<u16, ClientAccount>) -> Map<ClientId, ClientAccount> {
    Map::new(|c: ClientId| m.contains_key(c.0), |c: ClientId| m[c.0])
}

/// Storing an account under a client's number stores it under that client.
proof fn lemma_by_client_id_insert(m: Map<u16, ClientAccount>, client_id: ClientId)
    ensures
        forall|a: ClientAccount| #[trigger]
            by_client_id(m.insert(client_id.0, a)) == by_client_id(m).insert(client_id, a),
{
    assert forall|a: ClientAccount| #[trigger]
        by_client_id(m.insert(client_id.0, a)) == by_client_id(m).insert(client_id, a) by {
        assert forall|c: ClientId| #![trigger m.contains_key(c.0)] c.0 == client_id.0 ==> c
            == client_id by {}
        assert(by_client_id(m.insert(client_id.0, a)) =~= by_client_id(m).insert(client_id, a));
    }
}

impl View for ClientsAccounts {
    type V = Map<ClientId, ClientAccount>;

    closed spec fn view(&self) -> Map<ClientId, ClientAccount> {
        by_client_id(self.0@)
    }
}

impl ClientsAccounts {
    /// No accounts.
    pub fn new() -> (r: ClientsAccounts)
        ensures
            r@ == Map::<ClientId, ClientAccount>::empty(),
    {
        let r = ClientsAccounts(HashMap::new());
        assert(r@ =~= Map::<ClientId, ClientAccount>::empty());
        r
    }

    /// The account of `client_id`, created with zero balances and unlocked if
    /// the client has none yet.
    pub fn get_or_create_new_account(&mut self, client_id: ClientId) -> (r: &mut ClientAccount)
        ensures
            old(self)@.contains_key(client_id) ==> *r == old(self)@[client_id],
            !old(self)@.contains_key(client_id) ==> {
                &&& r.wf()
                &&& r@.client_id == client_id
                &&& r@.available.value() == 0
                &&& r@.available.spec_scale() == 0
                &&& r@.held.value() == 0
                &&& r@.held.spec_scale() == 0
                &&& !r@.locked
            },
            final(self)@ == old(self)@.insert(client_id, *final(r)),
    {
        let fresh = ClientAccount::new(client_id);
        proof {
            lemma_by_client_id_insert(self.0@, client_id);
        }
        self.0.entry(client_id.0).or_insert(fresh)
    }

    /// The accounts, keyed by the number inside each client id.
    pub fn as_inner(&self) -> (r: &HashMap<u16, ClientAccount>)
        ensures
            forall|c: ClientId| #[trigger] self@.contains_key(c) <==> r@.contains_key(c.0),
            forall|c: ClientId| self@.contains_key(c) ==> #[trigger] self@[c] == r@[c.0],
    {
        &self.0
    }
}

impl Default for ClientsAccounts {
    fn default() -> (r: ClientsAccounts)
        ensures
            r@ == Map::<ClientId, ClientAccount>::empty(),
    {
        ClientsAccounts::new()
    }
}

} // verus!
