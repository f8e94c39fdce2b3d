//! The ledger as a mathematical value, and what each operation makes of it.
//!
//! The engine's contracts say that it does to the stable structures exactly
//! what the functions of this file do to a `LedgerState`.

use crate::error::Error;
use crate::identity::anonymous_bytes;
use crate::order::{OrderType, OrderView, SwapStatus};
use crate::totals::{lemma_total_covers, lemma_total_covers_two, lemma_total_empty, lemma_total_insert, total};
use crate::validation::{is_currency_code, price_accepted};
use vstd::prelude::*;

verus! {

/// The balances as amounts to be summed.
pub open spec fn balance_amounts(balances: Map<Seq<u8>, u64>) -> Map<Seq<u8>, nat> {
    Map::new(|who: Seq<u8>| balances.contains_key(who), |who: Seq<u8>| balances[who] as nat)
}

/// What each order holds in escrow, as amounts to be summed.
pub open spec fn escrow_amounts(orders: Map<u64, OrderView>) -> Map<u64, nat> {
    Map::new(|id: u64| orders.contains_key(id), |id: u64| orders[id].escrow())
}

/// The balance that a map of balances gives an identity; one without an
/// account has none.
pub open spec fn balance_in(balances: Map<Seq<u8>, u64>, who: Seq<u8>) -> u64 {
    if balances.contains_key(who) {
        balances[who]
    } else {
        0
    }
}

/// All that the ledger knows.
pub struct LedgerState {
    /// The balance of every identity that has an account.
    pub balances: Map<Seq<u8>, u64>,
    /// Every order that was ever placed, by its id.
    pub orders: Map<u64, OrderView>,
    /// The id that was handed out last, 0 before the first.
    pub last_id: u64,
    /// The sum of all deposits so far.
    pub deposited: nat,
    /// The sum of the escrow of all orders that were executed: it was paid
    /// out to nobody.
    pub retired: nat,
}

/// How an operation ended and what it left behind.
pub struct Outcome<T> {
    pub result: Result<T, Error>,
    pub state: LedgerState,
}

impl LedgerState {
    /// The ledger before anything has happened.
    pub open spec fn empty() -> LedgerState {
        LedgerState {
            balances: Map::empty(),
            orders: Map::empty(),
            last_id: 0,
            deposited: 0,
            retired: 0,
        }
    }

    /// The balance of an identity; one without an account has none.
    pub open spec fn balance_of(self, who: Seq<u8>) -> u64 {
        balance_in(self.balances, who)
    }

    /// The sum of all balances.
    pub open spec fn in_accounts(self) -> nat {
        total(balance_amounts(self.balances))
    }

    /// The sum of the offered amounts of all open orders.
    pub open spec fn in_escrow(self) -> nat {
        total(escrow_amounts(self.orders))
    }

    /// All funds that the ledger holds, in accounts and in escrow.
    pub open spec fn funds(self) -> nat {
        self.in_accounts() + self.in_escrow()
    }

    /// What holds of the ledger at all times: it is finite, every order is
    /// stored under its own id, which the counter has reached, and is well
    /// formed, the funds fit 64 bits, and the funds are what was deposited
    /// less what was retired.
    pub open spec fn wf(self) -> bool {
        &&& self.balances.dom().finite()
        &&& self.orders.dom().finite()
        &&& forall|id: u64| #[trigger]
            self.orders.contains_key(id) ==> {
                &&& self.orders[id].id == id
                &&& 1 <= id <= self.last_id
                &&& self.orders[id].well_formed()
            }
        &&& self.funds() <= u64::MAX
        &&& self.funds() + self.retired == self.deposited
    }

    /// The same ledger with one balance set.
    pub open spec fn with_balance(self, who: Seq<u8>, balance: u64) -> LedgerState {
        LedgerState { balances: self.balances.insert(who, balance), ..self }
    }

    /// The same ledger with one order stored under its id.
    pub open spec fn with_order(self, order: OrderView) -> LedgerState {
        LedgerState { orders: self.orders.insert(order.id, order), ..self }
    }

    /// The operation is refused and the ledger stays as it is.
    pub open spec fn refuse<T>(self, error: Error) -> Outcome<T> {
        Outcome { result: Err(error), state: self }
    }

    /// The operation succeeds and leaves this ledger.
    pub open spec fn accept<T>(self, value: T) -> Outcome<T> {
        Outcome { result: Ok(value), state: self }
    }

    /// A deposit adds the amount to the caller's balance, opening the
    /// account if there is none. It is refused for an amount of zero, then
    /// for what is not a currency code.
    pub open spec fn deposit(self, who: Seq<u8>, amount: u64, currency: Seq<char>) -> Outcome<()> {
        if amount == 0 {
            self.refuse(Error::InvalidAmount)
        } else if !is_currency_code(currency) {
            self.refuse(Error::InvalidCurrency)
        } else {
            LedgerState {
                deposited: self.deposited + amount as nat,
                ..self.with_balance(who, (self.balance_of(who) + amount) as u64)
            }.accept(())
        }
    }

    /// A transfer moves the amount from one balance to another, opening the
    /// receiving account if there is none. Nothing moves for an amount of
    /// zero or between an identity and itself. It is refused where the
    /// paying side has no account, then where it holds too little.
    pub open spec fn transfer(self, from: Seq<u8>, to: Seq<u8>, amount: u64) -> Outcome<()> {
        if amount == 0 || from == to {
            self.accept(())
        } else if !self.balances.contains_key(from) {
            self.refuse(Error::UserNotFound)
        } else if self.balances[from] < amount {
            self.refuse(Error::InsufficientFunds)
        } else {
            self.with_balance(from, (self.balances[from] - amount) as u64).with_balance(
                to,
                (self.balance_of(to) + amount) as u64,
            ).accept(())
        }
    }

    /// The order that a caller places at a given time, under a given id.
    pub open spec fn placed(
        id: u64,
        who: Seq<u8>,
        from_currency: Seq<char>,
        to_currency: Seq<char>,
        from_amount: u64,
        to_amount: u64,
        order_type: OrderType,
        now: u64,
    ) -> OrderView {
        OrderView {
            id,
            owner: who,
            from_currency,
            to_currency,
            from_amount,
            to_amount,
            order_type,
            created_at: now,
            status: SwapStatus::Created,
        }
    }

    /// Why an order would be refused, if it would: for an amount of zero,
    /// then for what is not a currency code, then for a limit price that is
    /// too low, then where the caller holds less than the offered amount.
    pub open spec fn order_refusal(
        self,
        who: Seq<u8>,
        from_currency: Seq<char>,
        to_currency: Seq<char>,
        from_amount: u64,
        to_amount: u64,
        order_type: OrderType,
    ) -> Option<Error> {
        if from_amount == 0 || to_amount == 0 {
            Some(Error::InvalidAmount)
        } else if !is_currency_code(from_currency) || !is_currency_code(to_currency) {
            Some(Error::InvalidCurrency)
        } else if !price_accepted(order_type) {
            Some(Error::InvalidPrice)
        } else if self.balance_of(who) < from_amount {
            Some(Error::InsufficientFunds)
        } else {
            None
        }
    }

    /// Placing an order takes the offered amount from the caller's balance
    /// into escrow and stores the order under the next id. It is refused
    /// where `order_refusal` says so.
    pub open spec fn create(
        self,
        who: Seq<u8>,
        from_currency: Seq<char>,
        to_currency: Seq<char>,
        from_amount: u64,
        to_amount: u64,
        order_type: OrderType,
        now: u64,
    ) -> Outcome<u64> {
        match self.order_refusal(
            who,
            from_currency,
            to_currency,
            from_amount,
            to_amount,
            order_type,
        ) {
            Some(error) => self.refuse(error),
            None => {
                let id = (self.last_id + 1) as u64;
                LedgerState {
                    last_id: id,
                    ..self.with_balance(
                        who,
                        (self.balance_of(who) - from_amount) as u64,
                    ).with_order(
                        Self::placed(
                            id,
                            who,
                            from_currency,
                            to_currency,
                            from_amount,
                            to_amount,
                            order_type,
                            now,
                        ),
                    )
                }.accept(id)
            },
        }
    }

    /// Whether the order with the given id waits for a verdict on its price:
    /// it is an open limit order and the executor is somebody other than
    /// its owner.
    pub open spec fn needs_verdict(self, executor: Seq<u8>, order_id: u64) -> bool {
        &&& executor != anonymous_bytes()
        &&& self.orders.contains_key(order_id)
        &&& self.orders[order_id].status == SwapStatus::Created
        &&& executor != self.orders[order_id].owner
        &&& self.orders[order_id].order_type != OrderType::Market
    }

    /// Executing an order moves the wanted amount from the executor to the
    /// owner and marks the order executed; its escrow is retired. It is
    /// refused for the anonymous identity, then for an unknown id, then for
    /// an order that is no longer open, then for the owner, then for a
    /// limit order whose price condition does not hold, then where the
    /// transfer is refused.
    pub open spec fn settle(self, executor: Seq<u8>, order_id: u64, condition_met: bool) -> Outcome<()> {
        if executor == anonymous_bytes() {
            self.refuse(Error::AnonymousNotAllowed)
        } else if !self.orders.contains_key(order_id) {
            self.refuse(Error::InvalidOrderId)
        } else {
            let order = self.orders[order_id];
            if order.status != SwapStatus::Created {
                self.refuse(Error::InvalidOrderStatus)
            } else if executor == order.owner {
                self.refuse(Error::OwnerCannotExecute)
            } else if order.order_type != OrderType::Market && !condition_met {
                self.refuse(Error::PriceConditionNotMet)
            } else {
                let moved = self.transfer(executor, order.owner, order.to_amount);
                match moved.result {
                    Err(error) => self.refuse(error),
                    Ok(_) => LedgerState {
                        retired: self.retired + order.from_amount as nat,
                        ..moved.state.with_order(order.with_status(SwapStatus::Executed))
                    }.accept(()),
                }
            }
        }
    }

    /// Cancelling an order gives the escrow back to the owner and marks the
    /// order cancelled. It is refused for an unknown id, then for an order
    /// that is no longer open, then for anybody but the owner.
    pub open spec fn cancel(self, who: Seq<u8>, order_id: u64) -> Outcome<()> {
        if !self.orders.contains_key(order_id) {
            self.refuse(Error::InvalidOrderId)
        } else {
            let order = self.orders[order_id];
            if order.status != SwapStatus::Created {
                self.refuse(Error::InvalidOrderStatus)
            } else if who != order.owner {
                self.refuse(Error::Unauthorized)
            } else {
                self.with_balance(who, (self.balance_of(who) + order.from_amount) as u64).with_order(
                    order.with_status(SwapStatus::Cancelled),
                ).accept(())
            }
        }
    }

    /// The empty ledger is well formed and holds nothing.
    pub proof fn lemma_empty_wf()
        ensures
            Self::empty().wf(),
            Self::empty().funds() == 0,
    {
        let start = Self::empty();
        assert(balance_amounts(start.balances) =~= Map::empty());
        assert(escrow_amounts(start.orders) =~= Map::empty());
        lemma_total_empty::<Seq<u8>>();
        lemma_total_empty::<u64>();
    }

    /// No balance is more than the sum of all balances.
    pub proof fn lemma_balance_covered(self, who: Seq<u8>)
        requires
            self.balances.dom().finite(),
        ensures
            self.balance_of(who) <= self.in_accounts(),
    {
        let amounts = balance_amounts(self.balances);
        assert(amounts.dom() =~= self.balances.dom());
        if self.balances.contains_key(who) {
            lemma_total_covers(amounts, who);
        }
    }

    /// Two balances of different identities are together no more than the
    /// sum of all balances.
    pub proof fn lemma_two_balances_covered(self, one: Seq<u8>, other: Seq<u8>)
        requires
            self.balances.dom().finite(),
            one != other,
        ensures
            self.balance_of(one) + self.balance_of(other) <= self.in_accounts(),
    {
        let amounts = balance_amounts(self.balances);
        assert(amounts.dom() =~= self.balances.dom());
        if self.balances.contains_key(one) && self.balances.contains_key(other) {
            lemma_total_covers_two(amounts, one, other);
        } else {
            self.lemma_balance_covered(one);
            self.lemma_balance_covered(other);
        }
    }

    /// No order holds more in escrow than all orders together.
    pub proof fn lemma_escrow_covered(self, order_id: u64)
        requires
            self.orders.dom().finite(),
            self.orders.contains_key(order_id),
        ensures
            self.orders[order_id].escrow() <= self.in_escrow(),
    {
        let amounts = escrow_amounts(self.orders);
        assert(amounts.dom() =~= self.orders.dom());
        lemma_total_covers(amounts, order_id);
    }

    /// Setting one balance changes the sum of all balances by the
    /// difference to what the balance was, and nothing else.
    pub proof fn lemma_with_balance(self, who: Seq<u8>, balance: u64)
        requires
            self.balances.dom().finite(),
        ensures
            self.with_balance(who, balance).balances.dom().finite(),
            self.with_balance(who, balance).in_accounts() + self.balance_of(who)
                == self.in_accounts() + balance,
            self.with_balance(who, balance).in_escrow() == self.in_escrow(),
            self.with_balance(who, balance).balance_of(who) == balance,
            forall|other: Seq<u8>|
                other != who ==> self.with_balance(who, balance).balance_of(other)
                    == self.balance_of(other),
    {
        let amounts = balance_amounts(self.balances);
        assert(amounts.dom() =~= self.balances.dom());
        lemma_total_insert(amounts, who, balance as nat);
        assert(balance_amounts(self.balances.insert(who, balance)) =~= amounts.insert(
            who,
            balance as nat,
        ));
    }

    /// Storing an order changes the escrow by the difference to what was
    /// held under its id, and nothing else.
    pub proof fn lemma_with_order(self, order: OrderView)
        requires
            self.orders.dom().finite(),
        ensures
            self.with_order(order).orders.dom().finite(),
            self.with_order(order).in_escrow() + (if self.orders.contains_key(order.id) {
                self.orders[order.id].escrow()
            } else {
                0
            }) == self.in_escrow() + order.escrow(),
            self.with_order(order).in_accounts() == self.in_accounts(),
    {
        let amounts = escrow_amounts(self.orders);
        assert(amounts.dom() =~= self.orders.dom());
        lemma_total_insert(amounts, order.id, order.escrow());
        assert(escrow_amounts(self.orders.insert(order.id, order)) =~= amounts.insert(
            order.id,
            order.escrow(),
        ));
    }

    /// A deposit that the ledger has room for keeps it well formed and adds
    /// exactly the amount to its funds; a refused one changes nothing.
    pub proof fn lemma_deposit(self, who: Seq<u8>, amount: u64, currency: Seq<char>)
        requires
            self.wf(),
            self.funds() + amount <= u64::MAX,
        ensures
            self.deposit(who, amount, currency).state.wf(),
            self.balance_of(who) + amount <= u64::MAX,
            self.deposit(who, amount, currency).result.is_ok() ==> self.deposit(
                who,
                amount,
                currency,
            ).state.funds() == self.funds() + amount,
            self.deposit(who, amount, currency).result.is_err() ==> self.deposit(
                who,
                amount,
                currency,
            ).state == self,
    {
        self.lemma_balance_covered(who);
        if self.deposit(who, amount, currency).result.is_ok() {
            self.lemma_with_balance(who, (self.balance_of(who) + amount) as u64);
        }
    }

    /// A transfer keeps the ledger well formed and its funds the same; a
    /// refused one changes nothing.
    pub proof fn lemma_transfer(self, from: Seq<u8>, to: Seq<u8>, amount: u64)
        requires
            self.wf(),
        ensures
            self.transfer(from, to, amount).state.wf(),
            self.transfer(from, to, amount).state.funds() == self.funds(),
            self.transfer(from, to, amount).state.orders == self.orders,
            self.transfer(from, to, amount).state.in_accounts() == self.in_accounts(),
            from != to && self.balance_of(from) >= amount ==> self.balance_of(to) + amount
                <= u64::MAX,
            self.transfer(from, to, amount).result.is_err() ==> self.transfer(
                from,
                to,
                amount,
            ).state == self,
    {
        if from != to {
            self.lemma_two_balances_covered(from, to);
        }
        let moved = self.transfer(from, to, amount);
        if moved.state != self {
            let paid = self.with_balance(from, (self.balances[from] - amount) as u64);
            self.lemma_with_balance(from, (self.balances[from] - amount) as u64);
            paid.lemma_with_balance(to, (self.balance_of(to) + amount) as u64);
        }
    }

    /// Placing an order keeps the ledger well formed and its funds the
    /// same; a refused one changes nothing.
    pub proof fn lemma_create(
        self,
        who: Seq<u8>,
        from_currency: Seq<char>,
        to_currency: Seq<char>,
        from_amount: u64,
        to_amount: u64,
        order_type: OrderType,
        now: u64,
    )
        requires
            self.wf(),
            self.last_id < u64::MAX,
            who.len() <= 29,
        ensures
            self.create(
                who,
                from_currency,
                to_currency,
                from_amount,
                to_amount,
                order_type,
                now,
            ).state.wf(),
            self.create(
                who,
                from_currency,
                to_currency,
                from_amount,
                to_amount,
                order_type,
                now,
            ).state.funds() == self.funds(),
            self.create(
                who,
                from_currency,
                to_currency,
                from_amount,
                to_amount,
                order_type,
                now,
            ).result.is_err() ==> self.create(
                who,
                from_currency,
                to_currency,
                from_amount,
                to_amount,
                order_type,
                now,
            ).state == self,
    {
        let made = self.create(who, from_currency, to_currency, from_amount, to_amount, order_type, now);
        if made.result.is_ok() {
            let id = (self.last_id + 1) as u64;
            let order = Self::placed(
                id,
                who,
                from_currency,
                to_currency,
                from_amount,
                to_amount,
                order_type,
                now,
            );
            let paid = self.with_balance(who, (self.balance_of(who) - from_amount) as u64);
            self.lemma_with_balance(who, (self.balance_of(who) - from_amount) as u64);
            paid.lemma_with_order(order);
            assert(!self.orders.contains_key(id));
            assert(made.state.balances == paid.with_order(order).balances);
            assert(made.state.orders == paid.with_order(order).orders);
        }
    }

    /// Executing an order keeps the ledger well formed and retires exactly
    /// the order's escrow; a refused execution changes nothing.
    pub proof fn lemma_settle(self, executor: Seq<u8>, order_id: u64, condition_met: bool)
        requires
            self.wf(),
        ensures
            self.settle(executor, order_id, condition_met).state.wf(),
            self.settle(executor, order_id, condition_met).result.is_ok() ==> self.settle(
                executor,
                order_id,
                condition_met,
            ).state.funds() + self.orders[order_id].from_amount == self.funds(),
            self.settle(executor, order_id, condition_met).result.is_err() ==> self.settle(
                executor,
                order_id,
                condition_met,
            ).state == self,
    {
        let done = self.settle(executor, order_id, condition_met);
        if done.result.is_ok() {
            let order = self.orders[order_id];
            let moved = self.transfer(executor, order.owner, order.to_amount);
            self.lemma_transfer(executor, order.owner, order.to_amount);
            self.lemma_escrow_covered(order_id);
            moved.state.lemma_with_order(order.with_status(SwapStatus::Executed));
            assert(done.state.balances == moved.state.with_order(
                order.with_status(SwapStatus::Executed),
            ).balances);
            assert(done.state.orders == moved.state.with_order(
                order.with_status(SwapStatus::Executed),
            ).orders);
        }
    }

    /// Cancelling an order keeps the ledger well formed and its funds the
    /// same; a refused cancellation changes nothing.
    pub proof fn lemma_cancel(self, who: Seq<u8>, order_id: u64)
        requires
            self.wf(),
        ensures
            self.cancel(who, order_id).state.wf(),
            self.cancel(who, order_id).state.funds() == self.funds(),
            self.cancel(who, order_id).result.is_ok() ==> self.balance_of(who)
                + self.orders[order_id].from_amount <= u64::MAX,
            self.cancel(who, order_id).result.is_err() ==> self.cancel(who, order_id).state
                == self,
    {
        let done = self.cancel(who, order_id);
        if done.result.is_ok() {
            let order = self.orders[order_id];
            self.lemma_balance_covered(who);
            self.lemma_escrow_covered(order_id);
            let paid = self.with_balance(who, (self.balance_of(who) + order.from_amount) as u64);
            self.lemma_with_balance(who, (self.balance_of(who) + order.from_amount) as u64);
            paid.lemma_with_order(order.with_status(SwapStatus::Cancelled));
        }
    }
}

} // verus!
