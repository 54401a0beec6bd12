//! Checked mutations of a [`ClientAccount`].
//!
//! Each one either succeeds whole or fails and leaves the account as it was:
//! the new balances are computed and checked first, and written together.

use crate::account::AccountView;
use crate::account::ClientAccount;
use crate::money::max_scale;
use crate::money::Money;
use crate::transaction::PositiveAmount;
use vstd::prelude::*;

verus! {

/// Why a mutation of an account was refused.
#[derive(Debug)]
pub enum ClientAccountError {
    /// No decimal can hold a new balance exactly.
    OperationOverflow { client_account: ClientAccount, amount: PositiveAmount },
    /// The balance to debit is smaller than the amount.
    InsufficientFunds { client_account: ClientAccount, amount: PositiveAmount },
}

/// `after` is worth `before + amount`, at a scale no larger than theirs.
pub open spec fn added(before: Money, amount: Money, after: Money) -> bool {
    &&& after.wf()
    &&& after.value() == before.value() + amount.value()
    &&& after.spec_scale() <= max_scale(before.spec_scale(), amount.spec_scale())
}

/// `after` is worth `before - amount`, at a scale no larger than theirs.
pub open spec fn subtracted(before: Money, amount: Money, after: Money) -> bool {
    &&& after.wf()
    &&& after.value() == before.value() - amount.value()
    &&& after.spec_scale() <= max_scale(before.spec_scale(), amount.spec_scale())
}

/// The overflow error for `amount` on the account as it was.
pub open spec fn overflow(account: ClientAccount, amount: PositiveAmount) -> ClientAccountError {
    ClientAccountError::OperationOverflow { client_account: account, amount }
}

/// The insufficient-funds error for `amount` on the account as it was.
pub open spec fn insufficient(account: ClientAccount, amount: PositiveAmount) -> ClientAccountError {
    ClientAccountError::InsufficientFunds { client_account: account, amount }
}

/// Why debiting `amount` from `balance` fails, if it does.
pub open spec fn debit_error(balance: Money, account: ClientAccount, amount: PositiveAmount) -> Option<
    ClientAccountError,
> {
    if balance.value() < amount@.value() {
        Some(insufficient(account, amount))
    } else if !balance.difference_fits(amount@) {
        Some(overflow(account, amount))
    } else {
        None
    }
}

/// Why crediting `amount` to `balance` fails, if it does.
pub open spec fn credit_error(balance: Money, account: ClientAccount, amount: PositiveAmount) -> Option<
    ClientAccountError,
> {
    if !balance.sum_fits(amount@) {
        Some(overflow(account, amount))
    } else {
        None
    }
}

/// `r` is the result of a mutation checked in two steps: it fails with the
/// `first` error if there is one, else with the `second`, leaving the account
/// unchanged either way, and succeeds if there is neither.
pub open spec fn settled(
    r: Result<(), ClientAccountError>,
    first: Option<ClientAccountError>,
    second: Option<ClientAccountError>,
    before: ClientAccount,
    after: ClientAccount,
) -> bool {
    match (first, second) {
        (Some(e), _) => r == Err::<(), ClientAccountError>(e) && after == before,
        (None, Some(e)) => r == Err::<(), ClientAccountError>(e) && after == before,
        (None, None) => r is Ok,
    }
}

/// What `deposit` leaves behind: the result `r` and the account `after`.
pub open spec fn deposit_post(
    before: ClientAccount,
    amount: PositiveAmount,
    r: Result<(), ClientAccountError>,
    after: ClientAccount,
) -> bool {
    &&& settled(
        r,
        credit_error(before@.available, before, amount),
        None,
        before,
        after,
    )
    &&& r is Ok ==> {
        &&& added(before@.available, amount@, after@.available)
        &&& after@ == (AccountView {
            available: after@.available,
            ..before@
        })
    }
}

/// What `withdraw` leaves behind: the result `r` and the account `after`.
pub open spec fn withdraw_post(
    before: ClientAccount,
    amount: PositiveAmount,
    r: Result<(), ClientAccountError>,
    after: ClientAccount,
) -> bool {
    &&& settled(
        r,
        debit_error(before@.available, before, amount),
        None,
        before,
        after,
    )
    &&& r is Ok ==> {
        &&& subtracted(before@.available, amount@, after@.available)
        &&& after@ == (AccountView {
            available: after@.available,
            ..before@
        })
    }
}

/// What `hold` leaves behind: the result `r` and the account `after`.
pub open spec fn hold_post(
    before: ClientAccount,
    amount: PositiveAmount,
    r: Result<(), ClientAccountError>,
    after: ClientAccount,
) -> bool {
    &&& settled(
        r,
        credit_error(before@.held, before, amount),
        None,
        before,
        after,
    )
    &&& r is Ok ==> {
        &&& added(before@.held, amount@, after@.held)
        &&& after@ == (AccountView {
            held: after@.held,
            ..before@
        })
    }
}

/// What `unhold` leaves behind: the result `r` and the account `after`.
pub open spec fn unhold_post(
    before: ClientAccount,
    amount: PositiveAmount,
    r: Result<(), ClientAccountError>,
    after: ClientAccount,
) -> bool {
    &&& settled(
        r,
        debit_error(before@.held, before, amount),
        None,
        before,
        after,
    )
    &&& r is Ok ==> {
        &&& subtracted(before@.held, amount@, after@.held)
        &&& after@ == (AccountView {
            held: after@.held,
            ..before@
        })
    }
}

/// What `withdraw_and_hold` leaves behind: the result `r` and the account `after`.
pub open spec fn withdraw_and_hold_post(
    before: ClientAccount,
    amount: PositiveAmount,
    r: Result<(), ClientAccountError>,
    after: ClientAccount,
) -> bool {
    &&& settled(
        r,
        debit_error(before@.available, before, amount),
        credit_error(before@.held, before, amount),
        before,
        after,
    )
    &&& r is Ok ==> {
        &&& subtracted(before@.available, amount@, after@.available)
        &&& added(before@.held, amount@, after@.held)
        &&& after@ == (AccountView {
            available: after@.available,
            held: after@.held,
            ..before@
        })
    }
}

/// What `unhold_and_deposit` leaves behind: the result `r` and the account `after`.
pub open spec fn unhold_and_deposit_post(
    before: ClientAccount,
    amount: PositiveAmount,
    r: Result<(), ClientAccountError>,
    after: ClientAccount,
) -> bool {
    &&& settled(
        r,
        debit_error(before@.held, before, amount),
        credit_error(before@.available, before, amount),
        before,
        after,
    )
    &&& r is Ok ==> {
        &&& subtracted(before@.held, amount@, after@.held)
        &&& added(before@.available, amount@, after@.available)
        &&& after@ == (AccountView {
            held: after@.held,
            available: after@.available,
            ..before@
        })
    }
}

/// What `deposit_and_unhold` leaves behind: the result `r` and the account `after`.
pub open spec fn deposit_and_unhold_post(
    before: ClientAccount,
    amount: PositiveAmount,
    r: Result<(), ClientAccountError>,
    after: ClientAccount,
) -> bool {
    &&& settled(
        r,
        credit_error(before@.available, before, amount),
        debit_error(before@.held, before, amount),
        before,
        after,
    )
    &&& r is Ok ==> {
        &&& added(before@.available, amount@, after@.available)
        &&& subtracted(before@.held, amount@, after@.held)
        &&& after@ == (AccountView {
            available: after@.available,
            held: after@.held,
            ..before@
        })
    }
}

/// The overflow error for `amount` on the account as it is.
fn overflow_error(client_account: &ClientAccount, amount: PositiveAmount) -> (r: ClientAccountError)
    ensures
        r == overflow(*client_account, amount),
{
    ClientAccountError::OperationOverflow { client_account: *client_account, amount }
}

/// The insufficient-funds error for `amount` on the account as it is.
fn insufficient_funds_error(client_account: &ClientAccount, amount: PositiveAmount) -> (r:
    ClientAccountError)
    ensures
        r == insufficient(*client_account, amount),
{
    ClientAccountError::InsufficientFunds { client_account: *client_account, amount }
}

/// `account.available + amount`, checked.
fn checked_add_to_available(client_account: &ClientAccount, amount: PositiveAmount) -> (r: Result<
    Money,
    ClientAccountError,
>)
    ensures
        match credit_error(client_account@.available, *client_account, amount) {
            Some(e) => r == Err::<Money, ClientAccountError>(e),
            None => r matches Ok(v) && added(client_account@.available, amount@, v),
        },
{
    match client_account.available.checked_add(&amount.as_inner()) {
        Some(v) => Ok(v),
        None => Err(overflow_error(client_account, amount)),
    }
}

/// `account.available - amount`, checked.
fn checked_sub_from_available(client_account: &ClientAccount, amount: PositiveAmount) -> (r: Result<
    Money,
    ClientAccountError,
>)
    ensures
        match debit_error(client_account@.available, *client_account, amount) {
            Some(e) => r == Err::<Money, ClientAccountError>(e),
            None => r matches Ok(v) && subtracted(client_account@.available, amount@, v),
        },
{
    let value = amount.as_inner();
    if client_account.available.less_than(&value) {
        return Err(insufficient_funds_error(client_account, amount));
    }
    match client_account.available.checked_sub(&value) {
        Some(v) => Ok(v),
        None => Err(overflow_error(client_account, amount)),
    }
}

/// `account.held + amount`, checked.
fn checked_add_to_held(client_account: &ClientAccount, amount: PositiveAmount) -> (r: Result<
    Money,
    ClientAccountError,
>)
    ensures
        match credit_error(client_account@.held, *client_account, amount) {
            Some(e) => r == Err::<Money, ClientAccountError>(e),
            None => r matches Ok(v) && added(client_account@.held, amount@, v),
        },
{
    match client_account.held.checked_add(&amount.as_inner()) {
        Some(v) => Ok(v),
        None => Err(overflow_error(client_account, amount)),
    }
}

/// `account.held - amount`, checked.
fn checked_sub_from_held(client_account: &ClientAccount, amount: PositiveAmount) -> (r: Result<
    Money,
    ClientAccountError,
>)
    ensures
        match debit_error(client_account@.held, *client_account, amount) {
            Some(e) => r == Err::<Money, ClientAccountError>(e),
            None => r matches Ok(v) && subtracted(client_account@.held, amount@, v),
        },
{
    let value = amount.as_inner();
    if client_account.held.less_than(&value) {
        return Err(insufficient_funds_error(client_account, amount));
    }
    match client_account.held.checked_sub(&value) {
        Some(v) => Ok(v),
        None => Err(overflow_error(client_account, amount)),
    }
}

/// Adds `amount` to the available funds.
pub fn deposit(client_account: &mut ClientAccount, amount: PositiveAmount) -> (r: Result<
    (),
    ClientAccountError,
>)
    ensures
        deposit_post(*old(client_account), amount, r, *final(client_account)),
{
    client_account.available = checked_add_to_available(client_account, amount)?;
    Ok(())
}

/// Takes `amount` from the available funds, which must hold at least that much.
pub fn withdraw(client_account: &mut ClientAccount, amount: PositiveAmount) -> (r: Result<
    (),
    ClientAccountError,
>)
    ensures
        withdraw_post(*old(client_account), amount, r, *final(client_account)),
{
    client_account.available = checked_sub_from_available(client_account, amount)?;
    Ok(())
}

/// Adds `amount` to the held funds, leaving the available funds alone.
pub fn hold(client_account: &mut ClientAccount, amount: PositiveAmount) -> (r: Result<
    (),
    ClientAccountError,
>)
    ensures
        hold_post(*old(client_account), amount, r, *final(client_account)),
{
    client_account.held = checked_add_to_held(client_account, amount)?;
    Ok(())
}

/// Takes `amount` from the held funds, which must hold at least that much.
pub fn unhold(client_account: &mut ClientAccount, amount: PositiveAmount) -> (r: Result<
    (),
    ClientAccountError,
>)
    ensures
        unhold_post(*old(client_account), amount, r, *final(client_account)),
{
    client_account.held = checked_sub_from_held(client_account, amount)?;
    Ok(())
}

/// Moves `amount` from the available funds to the held funds, all or nothing.
pub fn withdraw_and_hold(client_account: &mut ClientAccount, amount: PositiveAmount) -> (r: Result<
    (),
    ClientAccountError,
>)
    ensures
        withdraw_and_hold_post(*old(client_account), amount, r, *final(client_account)),
{
    let new_available = checked_sub_from_available(client_account, amount)?;
    let new_held = checked_add_to_held(client_account, amount)?;
    client_account.available = new_available;
    client_account.held = new_held;
    Ok(())
}

/// Moves `amount` from the held funds back to the available funds, all or nothing.
pub fn unhold_and_deposit(client_account: &mut ClientAccount, amount: PositiveAmount) -> (r: Result<
    (),
    ClientAccountError,
>)
    ensures
        unhold_and_deposit_post(*old(client_account), amount, r, *final(client_account)),
{
    let new_held = checked_sub_from_held(client_account, amount)?;
    let new_available = checked_add_to_available(client_account, amount)?;
    client_account.held = new_held;
    client_account.available = new_available;
    Ok(())
}

/// Adds `amount` to the available funds and takes it from the held funds, all or
/// nothing; the available funds are checked first.
pub fn deposit_and_unhold(client_account: &mut ClientAccount, amount: PositiveAmount) -> (r: Result<
    (),
    ClientAccountError,
>)
    ensures
        deposit_and_unhold_post(*old(client_account), amount, r, *final(client_account)),
{
    let new_available = checked_add_to_available(client_account, amount)?;
    let new_held = checked_sub_from_held(client_account, amount)?;
    client_account.available = new_available;
    client_account.held = new_held;
    Ok(())
}

/// Sets the account's lock; locking twice changes nothing more.
pub fn lock(client_account: &mut ClientAccount)
    ensures
        final(client_account)@ == (AccountView { locked: true, ..old(client_account)@ }),
{
    client_account.locked = true;
}

} // verus!
