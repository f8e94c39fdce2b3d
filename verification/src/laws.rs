//! What holds of the ledger whatever is done to it.

use crate::error::Error;
use crate::history::{brought, feasible, run, without_execution, Step};
use crate::identity::anonymous_bytes;
use crate::model::LedgerState;
use crate::order::{OrderType, SwapStatus};
use crate::validation::{is_currency_code, price_accepted};
use vstd::prelude::*;

verus! {

/// One operation that the machine can carry out keeps the ledger well
/// formed. It never turns the counter back, it adds to the deposits what
/// it brings, it leaves the ledger alone when it is refused, and only an
/// execution retires escrow.
pub proof fn law_step(ledger: LedgerState, step: Step)
    requires
        ledger.wf(),
        step.feasible(ledger),
    ensures
        step.apply(ledger).wf(),
        step.apply(ledger).last_id >= ledger.last_id,
        step.apply(ledger).deposited == ledger.deposited + step.brings(ledger),
        !step.succeeds(ledger) ==> step.apply(ledger) == ledger,
        !step.is_execution() ==> step.apply(ledger).retired == ledger.retired,
{
    match step {
        Step::Deposit { who, amount, currency } => {
            if step.succeeds(ledger) {
                ledger.lemma_deposit(who, amount, currency);
            }
        },
        Step::Place { who, from_currency, to_currency, from_amount, to_amount, order_type, now } => {
            if step.succeeds(ledger) {
                ledger.lemma_create(
                    who,
                    from_currency,
                    to_currency,
                    from_amount,
                    to_amount,
                    order_type,
                    now,
                );
            }
        },
        Step::Transfer { from, to, amount } => {
            ledger.lemma_transfer(from, to, amount);
        },
        Step::Execute { executor, order_id, condition_met } => {
            ledger.lemma_settle(executor, order_id, condition_met);
        },
        Step::Cancel { who, order_id } => {
            ledger.lemma_cancel(who, order_id);
        },
    }
}

/// Conservation of funds. After any sequence of operations that the machine
/// can carry out, the sum of all balances plus the escrow of all open
/// orders, plus the escrow that executions have retired, is the sum of all
/// deposits. Without executions nothing is retired.
pub proof fn law_conservation(start: LedgerState, steps: Seq<Step>)
    requires
        start.wf(),
        feasible(start, steps),
    ensures
        run(start, steps).wf(),
        run(start, steps).in_accounts() + run(start, steps).in_escrow() + run(start, steps).retired
            == run(start, steps).deposited,
        run(start, steps).deposited == start.deposited + brought(start, steps),
        run(start, steps).last_id >= start.last_id,
        without_execution(steps) ==> run(start, steps).retired == start.retired,
    decreases steps.len(),
{
    if steps.len() > 0 {
        let earlier = steps.drop_last();
        law_conservation(start, earlier);
        law_step(run(start, earlier), steps.last());
        if without_execution(steps) {
            assert(!steps[steps.len() - 1].is_execution());
            assert forall|i: int| 0 <= i < earlier.len() implies !(#[trigger] earlier[i]).is_execution() by {
                assert(earlier[i] == steps[i]);
            }
        }
    }
}

/// Conservation of funds on a ledger that starts empty: after deposits,
/// transfers, orders and cancellations, the sum of all balances plus the
/// escrow of all open orders is the sum of all deposits.
pub proof fn law_conservation_from_empty(steps: Seq<Step>)
    requires
        feasible(LedgerState::empty(), steps),
        without_execution(steps),
    ensures
        run(LedgerState::empty(), steps).in_accounts() + run(
            LedgerState::empty(),
            steps,
        ).in_escrow() == brought(LedgerState::empty(), steps),
{
    LedgerState::lemma_empty_wf();
    law_conservation(LedgerState::empty(), steps);
}

/// A deposit of an amount above zero in a currency, into a ledger with room
/// for it, succeeds and adds exactly the amount to the caller's balance and
/// so to the sum of all balances; no other balance, no order and no escrow
/// changes.
pub proof fn law_deposit_adds_exactly(
    ledger: LedgerState,
    who: Seq<u8>,
    amount: u64,
    currency: Seq<char>,
)
    requires
        ledger.wf(),
        amount > 0,
        is_currency_code(currency),
        ledger.funds() + amount <= u64::MAX,
    ensures
        ledger.deposit(who, amount, currency).result == Ok::<(), Error>(()),
        ledger.deposit(who, amount, currency).state.balance_of(who) == ledger.balance_of(who)
            + amount,
        forall|other: Seq<u8>|
            other != who ==> ledger.deposit(who, amount, currency).state.balance_of(other)
                == ledger.balance_of(other),
        ledger.deposit(who, amount, currency).state.in_accounts() == ledger.in_accounts() + amount,
        ledger.deposit(who, amount, currency).state.in_escrow() == ledger.in_escrow(),
        ledger.deposit(who, amount, currency).state.orders == ledger.orders,
{
    ledger.lemma_deposit(who, amount, currency);
    ledger.lemma_with_balance(who, (ledger.balance_of(who) + amount) as u64);
}

/// Only a deposit raises the funds of the ledger: after any other operation
/// the balances and the open escrow together are what they were, or less
/// where an execution retired escrow.
pub proof fn law_only_deposits_raise_funds(ledger: LedgerState, step: Step)
    requires
        ledger.wf(),
        step.feasible(ledger),
        !(step is Deposit),
    ensures
        step.apply(ledger).funds() <= ledger.funds(),
        !step.is_execution() ==> step.apply(ledger).funds() == ledger.funds(),
{
    law_step(ledger, step);
}

/// Where an order is placed, the sum of all balances falls by exactly the
/// offered amount and the open escrow rises by exactly the offered amount,
/// so together they stay what they were. An id must be left for the order:
/// ids are 64 bits.
pub proof fn law_order_moves_funds_into_escrow(
    ledger: LedgerState,
    who: Seq<u8>,
    from_currency: Seq<char>,
    to_currency: Seq<char>,
    from_amount: u64,
    to_amount: u64,
    order_type: OrderType,
    now: u64,
)
    requires
        ledger.wf(),
        ledger.last_id < u64::MAX,
        ledger.create(
            who,
            from_currency,
            to_currency,
            from_amount,
            to_amount,
            order_type,
            now,
        ).result.is_ok(),
    ensures
        ledger.create(
            who,
            from_currency,
            to_currency,
            from_amount,
            to_amount,
            order_type,
            now,
        ).state.in_accounts() == ledger.in_accounts() - from_amount,
        ledger.create(
            who,
            from_currency,
            to_currency,
            from_amount,
            to_amount,
            order_type,
            now,
        ).state.in_escrow() == ledger.in_escrow() + from_amount,
        ledger.create(
            who,
            from_currency,
            to_currency,
            from_amount,
            to_amount,
            order_type,
            now,
        ).state.funds() == ledger.funds(),
{
    let id = (ledger.last_id + 1) as u64;
    let made = ledger.create(who, from_currency, to_currency, from_amount, to_amount, order_type, now);
    let order = LedgerState::placed(
        id,
        who,
        from_currency,
        to_currency,
        from_amount,
        to_amount,
        order_type,
        now,
    );
    let paid = ledger.with_balance(who, (ledger.balance_of(who) - from_amount) as u64);
    ledger.lemma_with_balance(who, (ledger.balance_of(who) - from_amount) as u64);
    paid.lemma_with_order(order);
    assert(!ledger.orders.contains_key(id));
    assert(made.state.balances == paid.with_order(order).balances);
    assert(made.state.orders == paid.with_order(order).orders);
}

/// An order for more than the caller holds is refused and changes nothing.
/// Where the amounts, the currencies and the price are in order, the
/// refusal is for insufficient funds.
pub proof fn law_unaffordable_order(
    ledger: LedgerState,
    who: Seq<u8>,
    from_currency: Seq<char>,
    to_currency: Seq<char>,
    from_amount: u64,
    to_amount: u64,
    order_type: OrderType,
    now: u64,
)
    requires
        from_amount > ledger.balance_of(who),
    ensures
        ledger.create(
            who,
            from_currency,
            to_currency,
            from_amount,
            to_amount,
            order_type,
            now,
        ).state == ledger,
        ledger.create(
            who,
            from_currency,
            to_currency,
            from_amount,
            to_amount,
            order_type,
            now,
        ).result.is_err(),
        to_amount > 0 && is_currency_code(from_currency) && is_currency_code(to_currency)
            && price_accepted(order_type) ==> ledger.create(
            who,
            from_currency,
            to_currency,
            from_amount,
            to_amount,
            order_type,
            now,
        ).result == Err::<u64, Error>(Error::InsufficientFunds),
{
}

/// Cancelling an open order gives its owner exactly the offered amount
/// back and marks the order cancelled; no other balance and no other order
/// changes. Cancelling it again is refused for its status and changes
/// nothing, so nothing is refunded twice.
pub proof fn law_cancel_refunds_once(ledger: LedgerState, who: Seq<u8>, order_id: u64)
    requires
        ledger.wf(),
        ledger.orders.contains_key(order_id),
        ledger.orders[order_id].status == SwapStatus::Created,
        ledger.orders[order_id].owner == who,
    ensures
        ledger.cancel(who, order_id).result.is_ok(),
        ledger.cancel(who, order_id).state.balance_of(who) == ledger.balance_of(who)
            + ledger.orders[order_id].from_amount,
        forall|other: Seq<u8>|
            other != who ==> ledger.cancel(who, order_id).state.balance_of(other)
                == ledger.balance_of(other),
        ledger.cancel(who, order_id).state.orders == ledger.orders.insert(
            order_id,
            ledger.orders[order_id].with_status(SwapStatus::Cancelled),
        ),
        ledger.cancel(who, order_id).state.cancel(who, order_id) == ledger.cancel(
            who,
            order_id,
        ).state.refuse::<()>(Error::InvalidOrderStatus),
{
    ledger.lemma_cancel(who, order_id);
}

/// Executing an open market order moves exactly the wanted amount from the
/// executor to the owner, whatever the verdict on the price, and marks the
/// order executed; no other balance and no other order changes. Executing
/// it again is refused for its status and changes nothing.
pub proof fn law_market_execution(
    ledger: LedgerState,
    executor: Seq<u8>,
    order_id: u64,
    condition_met: bool,
    again: bool,
)
    requires
        ledger.wf(),
        ledger.orders.contains_key(order_id),
        ledger.orders[order_id].status == SwapStatus::Created,
        ledger.orders[order_id].order_type == OrderType::Market,
        executor != anonymous_bytes(),
        executor != ledger.orders[order_id].owner,
        ledger.balances.contains_key(executor),
        ledger.balance_of(executor) >= ledger.orders[order_id].to_amount,
    ensures
        ledger.settle(executor, order_id, condition_met).result.is_ok(),
        ledger.settle(executor, order_id, condition_met).state.balance_of(executor)
            == ledger.balance_of(executor) - ledger.orders[order_id].to_amount,
        ledger.settle(executor, order_id, condition_met).state.balance_of(
            ledger.orders[order_id].owner,
        ) == ledger.balance_of(ledger.orders[order_id].owner) + ledger.orders[order_id].to_amount,
        forall|other: Seq<u8>|
            other != executor && other != ledger.orders[order_id].owner ==> ledger.settle(
                executor,
                order_id,
                condition_met,
            ).state.balance_of(other) == ledger.balance_of(other),
        ledger.settle(executor, order_id, condition_met).state.orders == ledger.orders.insert(
            order_id,
            ledger.orders[order_id].with_status(SwapStatus::Executed),
        ),
        ledger.settle(executor, order_id, condition_met).state.settle(executor, order_id, again)
            == ledger.settle(executor, order_id, condition_met).state.refuse::<()>(
            Error::InvalidOrderStatus,
        ),
{
    ledger.lemma_transfer(executor, ledger.orders[order_id].owner, ledger.orders[order_id].to_amount);
}

/// The anonymous identity can execute no order: it is refused as such
/// whatever the id, and nothing changes.
pub proof fn law_nobody_cannot_execute(ledger: LedgerState, order_id: u64, condition_met: bool)
    ensures
        ledger.settle(anonymous_bytes(), order_id, condition_met) == ledger.refuse::<()>(
            Error::AnonymousNotAllowed,
        ),
{
}

/// The owner of an order can never execute it: the attempt is refused and
/// nothing changes. While the order is open and the owner is not the
/// anonymous identity, the refusal names the owner.
pub proof fn law_owner_cannot_execute(ledger: LedgerState, order_id: u64, condition_met: bool)
    requires
        ledger.orders.contains_key(order_id),
    ensures
        ledger.settle(ledger.orders[order_id].owner, order_id, condition_met).result.is_err(),
        ledger.settle(ledger.orders[order_id].owner, order_id, condition_met).state == ledger,
        ledger.orders[order_id].status == SwapStatus::Created && ledger.orders[order_id].owner
            != anonymous_bytes() ==> ledger.settle(
            ledger.orders[order_id].owner,
            order_id,
            condition_met,
        ).result == Err::<(), Error>(Error::OwnerCannotExecute),
{
}

/// The id of a new order is one more than the last and above the id of
/// every order in the ledger, so no order is replaced; a refused order
/// takes no id.
pub proof fn law_new_id_is_fresh(
    ledger: LedgerState,
    who: Seq<u8>,
    from_currency: Seq<char>,
    to_currency: Seq<char>,
    from_amount: u64,
    to_amount: u64,
    order_type: OrderType,
    now: u64,
)
    requires
        ledger.wf(),
        ledger.last_id < u64::MAX,
    ensures
        match ledger.create(
            who,
            from_currency,
            to_currency,
            from_amount,
            to_amount,
            order_type,
            now,
        ).result {
            Ok(id) => {
                &&& id == ledger.last_id + 1
                &&& !ledger.orders.contains_key(id)
                &&& forall|other: u64| #[trigger] ledger.orders.contains_key(other) ==> other < id
                &&& ledger.create(
                    who,
                    from_currency,
                    to_currency,
                    from_amount,
                    to_amount,
                    order_type,
                    now,
                ).state.last_id == id
            },
            Err(_) => ledger.create(
                who,
                from_currency,
                to_currency,
                from_amount,
                to_amount,
                order_type,
                now,
            ).state.last_id == ledger.last_id,
        },
{
}

/// Ids grow strictly: an order that is placed after another, with whatever
/// operations in between, gets the higher id.
pub proof fn law_ids_grow(ledger: LedgerState, first: Step, between: Seq<Step>, second: Step)
    requires
        ledger.wf(),
        first is Place,
        second is Place,
        first.feasible(ledger),
        first.succeeds(ledger),
        feasible(first.apply(ledger), between),
        second.feasible(run(first.apply(ledger), between)),
        second.succeeds(run(first.apply(ledger), between)),
    ensures
        second.apply(run(first.apply(ledger), between)).last_id > first.apply(ledger).last_id,
        first.apply(ledger).last_id > ledger.last_id,
{
    law_step(ledger, first);
    law_conservation(first.apply(ledger), between);
}

} // verus!
