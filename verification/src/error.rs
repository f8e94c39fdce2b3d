//! The ways in which an operation of the ledger can be refused.

use vstd::prelude::*;

verus! {

/// Why an operation was refused. Every refusal leaves the ledger as it was.
#[derive(Clone, Copy, Debug, PartialEq, Eq, Structural)]
pub enum Error {
    /// The account holds less than the amount to take from it.
    InsufficientFunds,
    /// No order has the given id.
    InvalidOrderId,
    /// The order has been executed or cancelled already.
    InvalidOrderStatus,
    /// Only the owner of an order may cancel it.
    Unauthorized,
    /// The paying side of a transfer has no account.
    UserNotFound,
    /// The price that a limit order waits for has not been reached.
    PriceConditionNotMet,
    /// An amount of zero.
    InvalidAmount,
    /// A currency code that is not three upper-case letters.
    InvalidCurrency,
    /// A limit price that is zero or below.
    InvalidPrice,
    /// The anonymous identity may not execute orders.
    AnonymousNotAllowed,
    /// The owner of an order may not execute it.
    OwnerCannotExecute,
}

} // verus!
