//! Sequences of operations on the ledger, one after the other.

use crate::model::LedgerState;
use crate::order::OrderType;
use vstd::prelude::*;

verus! {

/// One operation with what it is given.
pub enum Step {
    Deposit { who: Seq<u8>, amount: u64, currency: Seq<char> },
    Place {
        who: Seq<u8>,
        from_currency: Seq<char>,
        to_currency: Seq<char>,
        from_amount: u64,
        to_amount: u64,
        order_type: OrderType,
        now: u64,
    },
    Transfer { from: Seq<u8>, to: Seq<u8>, amount: u64 },
    Execute { executor: Seq<u8>, order_id: u64, condition_met: bool },
    Cancel { who: Seq<u8>, order_id: u64 },
}

impl Step {
    /// Whether the operation ends well on the given ledger.
    pub open spec fn succeeds(self, ledger: LedgerState) -> bool {
        match self {
            Step::Deposit { who, amount, currency } => ledger.deposit(
                who,
                amount,
                currency,
            ).result.is_ok(),
            Step::Place {
                who,
                from_currency,
                to_currency,
                from_amount,
                to_amount,
                order_type,
                now,
            } => ledger.create(
                who,
                from_currency,
                to_currency,
                from_amount,
                to_amount,
                order_type,
                now,
            ).result.is_ok(),
            Step::Transfer { from, to, amount } => ledger.transfer(from, to, amount).result.is_ok(),
            Step::Execute { executor, order_id, condition_met } => ledger.settle(
                executor,
                order_id,
                condition_met,
            ).result.is_ok(),
            Step::Cancel { who, order_id } => ledger.cancel(who, order_id).result.is_ok(),
        }
    }

    /// The ledger that the operation leaves.
    pub open spec fn apply(self, ledger: LedgerState) -> LedgerState {
        match self {
            Step::Deposit { who, amount, currency } => ledger.deposit(who, amount, currency).state,
            Step::Place {
                who,
                from_currency,
                to_currency,
                from_amount,
                to_amount,
                order_type,
                now,
            } => ledger.create(
                who,
                from_currency,
                to_currency,
                from_amount,
                to_amount,
                order_type,
                now,
            ).state,
            Step::Transfer { from, to, amount } => ledger.transfer(from, to, amount).state,
            Step::Execute { executor, order_id, condition_met } => ledger.settle(
                executor,
                order_id,
                condition_met,
            ).state,
            Step::Cancel { who, order_id } => ledger.cancel(who, order_id).state,
        }
    }

    /// Whether the machine can carry the operation out on the given
    /// ledger: a deposit that ends well must leave the funds within 64
    /// bits, an order that is placed must find an id left, and its owner
    /// must be an identity.
    pub open spec fn feasible(self, ledger: LedgerState) -> bool {
        match self {
            Step::Deposit { amount, .. } => self.succeeds(ledger) ==> ledger.funds() + amount
                <= u64::MAX,
            Step::Place { who, .. } => self.succeeds(ledger) ==> ledger.last_id < u64::MAX
                && who.len() <= 29,
            _ => true,
        }
    }

    /// What the operation adds to the deposits: the amount of a deposit
    /// that ends well.
    pub open spec fn brings(self, ledger: LedgerState) -> nat {
        match self {
            Step::Deposit { amount, .. } => if self.succeeds(ledger) {
                amount as nat
            } else {
                0
            },
            _ => 0,
        }
    }

    /// Whether this is the execution of an order.
    pub open spec fn is_execution(self) -> bool {
        self is Execute
    }
}

/// The ledger after all the operations, in their order.
pub open spec fn run(start: LedgerState, steps: Seq<Step>) -> LedgerState
    decreases steps.len(),
{
    if steps.len() == 0 {
        start
    } else {
        steps.last().apply(run(start, steps.drop_last()))
    }
}

/// Whether the machine can carry out every one of the operations.
pub open spec fn feasible(start: LedgerState, steps: Seq<Step>) -> bool
    decreases steps.len(),
{
    steps.len() == 0 || (feasible(start, steps.drop_last()) && steps.last().feasible(
        run(start, steps.drop_last()),
    ))
}

/// The sum of the deposits that end well among the operations.
pub open spec fn brought(start: LedgerState, steps: Seq<Step>) -> nat
    decreases steps.len(),
{
    if steps.len() == 0 {
        0
    } else {
        brought(start, steps.drop_last()) + steps.last().brings(run(start, steps.drop_last()))
    }
}

/// Whether none of the operations is the execution of an order.
pub open spec fn without_execution(steps: Seq<Step>) -> bool {
    forall|i: int| 0 <= i < steps.len() ==> !(#[trigger] steps[i]).is_execution()
}

} // verus!
