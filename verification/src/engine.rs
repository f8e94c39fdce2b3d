//! The swap engine: deposits, and the life of a swap order from placing it
//! to executing or cancelling it.

use crate::accounts::AccountLedger;
use crate::book::{lists_orders, OrderStore};
use crate::counter::OrderCounter;
use crate::error::Error;
use crate::identity::Identity;
use crate::model::{escrow_amounts, LedgerState};
use crate::order::{CreateSwapOrderArgs, DepositArgs, OrderType, OrderView, SwapOrder, SwapStatus};
use crate::record::{lemma_well_formed_fits, price_field};
use crate::stable::{memory_fresh, stores_new, stores_open, LedgerMemory};
use crate::totals::{lemma_listed_total, lemma_sum_of_grows, sum_of};
use crate::validation::{is_valid_currency, validate_price};
use vstd::prelude::*;

verus! {

/// The region of the memory that holds the accounts.
pub const ACCOUNTS_REGION: u8 = 0;

/// The region of the memory that holds the orders.
pub const ORDERS_REGION: u8 = 1;

/// The region of the memory that holds the order counter.
pub const COUNTER_REGION: u8 = 2;

/// The ledger of accounts and orders, in stable memory. Each operation runs
/// from start to end on its own and either does all of its work or is
/// refused and does none.
pub struct SwapEngine {
    accounts: AccountLedger,
    orders: OrderStore,
    counter: OrderCounter,
    held: u64,
    memory: Option<LedgerMemory>,
    deposited: Ghost<nat>,
    retired: Ghost<nat>,
}

impl LedgerMemory {
    /// A memory for one ledger, with no engine on it yet. Off the Internet
    /// Computer it is new and empty. On it, it is the canister's one stable
    /// memory, so a canister makes one memory and one engine, once.
    pub fn new() -> (memory: Self) {
        memory_fresh()
    }
}

impl View for SwapEngine {
    type V = LedgerState;

    closed spec fn view(&self) -> LedgerState {
        LedgerState {
            balances: self.accounts@,
            orders: self.orders@,
            last_id: self.counter@,
            deposited: self.deposited@,
            retired: self.retired@,
        }
    }
}

/// The ledger that is taken up from what the stable structures hold: its
/// history is not known, so all that it holds counts as deposited and
/// nothing as retired.
pub open spec fn restored(
    balances: Map<Seq<u8>, u64>,
    orders: Map<u64, OrderView>,
    last_id: u64,
) -> LedgerState {
    let bare = LedgerState { balances, orders, last_id, deposited: 0, retired: 0 };
    LedgerState { deposited: bare.funds(), ..bare }
}

impl SwapEngine {
    /// The stored records can be read, and the engine knows how much the
    /// ledger holds.
    pub closed spec fn sound(&self) -> bool {
        self.orders.sound() && self.held == self@.funds()
    }

    /// Whether the engine holds the memory that its ledger is in. An engine
    /// that was made over a memory does; one that was put together from
    /// parts does not.
    pub closed spec fn keeps_memory(&self) -> bool {
        self.memory.is_some()
    }

    /// What holds of the engine between operations.
    pub open spec fn wf(&self) -> bool {
        self@.wf() && self.sound()
    }

    /// An engine with an empty ledger in the given memory. What the memory
    /// held is overwritten.
    pub fn new(memory: LedgerMemory) -> (engine: Self)
        ensures
            engine.wf(),
            engine.keeps_memory(),
            engine@ == LedgerState::empty(),
    {
        let (accounts, records, cell, memory) = stores_new(
            memory,
            ACCOUNTS_REGION,
            ORDERS_REGION,
            COUNTER_REGION,
            0,
        );
        let engine = SwapEngine {
            accounts: AccountLedger::over(accounts),
            orders: OrderStore::over(records),
            counter: OrderCounter::over(cell),
            held: 0,
            memory: Some(memory),
            deposited: Ghost(0),
            retired: Ghost(0),
        };
        proof {
            LedgerState::lemma_empty_wf();
            assert(engine.orders@ =~= Map::empty());
            assert(engine@ =~= LedgerState::empty());
        }
        engine
    }

    /// The engine over what the memory holds: an empty ledger where the
    /// memory is empty, else the ledger that an engine left there. The
    /// account ledger, the order store and the order counter that the memory
    /// holds are taken up and looked through once, as `resume` does: there is
    /// an engine exactly where they are a well-formed ledger together, and
    /// its ledger is then theirs.
    pub fn open(memory: LedgerMemory) -> (engine: Option<Self>)
        ensures
            exists|accounts: AccountLedger, orders: OrderStore, counter: OrderCounter|
                #![trigger restored(accounts@, orders@, counter@)]
                {
                    &&& engine.is_some() <==> orders.sound() && restored(
                        accounts@,
                        orders@,
                        counter@,
                    ).wf()
                    &&& engine.is_some() ==> engine.unwrap()@ == restored(
                        accounts@,
                        orders@,
                        counter@,
                    )
                },
            engine.is_some() ==> engine.unwrap().wf() && engine.unwrap().keeps_memory()
                && engine.unwrap()@.retired == 0 && engine.unwrap()@.deposited
                == engine.unwrap()@.funds(),
    {
        let (accounts, records, cell, memory) = stores_open(
            memory,
            ACCOUNTS_REGION,
            ORDERS_REGION,
            COUNTER_REGION,
            0,
        );
        let accounts = AccountLedger::over(accounts);
        let orders = OrderStore::over(records);
        let counter = OrderCounter::over(cell);
        let ghost held = restored(accounts@, orders@, counter@);
        let ghost sound = orders.sound();
        match Self::resume(accounts, orders, counter) {
            Some(resumed) => {
                let engine = SwapEngine { memory: Some(memory), ..resumed };
                assert(engine@ == held && sound && held.wf());
                Some(engine)
            },
            None => {
                assert(!(sound && held.wf()));
                None
            },
        }
    }

    /// The engine over an account ledger, an order store and an order
    /// counter, if together they are a well-formed ledger: every record can
    /// be read and holds a well-formed order with the id that it is stored
    /// under, no id is above the counter, and all funds fit 64 bits.
    pub fn resume(accounts: AccountLedger, orders: OrderStore, counter: OrderCounter) -> (engine:
        Option<Self>)
        ensures
            engine.is_some() <==> orders.sound() && restored(accounts@, orders@, counter@).wf(),
            engine.is_some() ==> engine.unwrap().wf() && !engine.unwrap().keeps_memory()
                && engine.unwrap()@ == restored(accounts@, orders@, counter@),
    {
        let ghost target = restored(accounts@, orders@, counter@);
        let in_accounts = match accounts.total() {
            Some(sum) => sum,
            None => {
                return None;
            },
        };
        let list = match orders.list() {
            Some(list) => list,
            None => {
                return None;
            },
        };
        let last_id = counter.last_id();
        let ghost keys = Seq::new(list@.len(), |i: int| list@[i].id);
        let ghost amounts = Seq::new(list@.len(), |i: int| list@[i]@.escrow());
        proof {
            orders.lemma_sound();
            assert forall|id: u64| #[trigger]
                escrow_amounts(orders@).contains_key(id) implies exists|i: int|
                0 <= i < keys.len() && #[trigger] keys[i] == id by {
                let i = choose|i: int|
                    #![trigger list@[i]]
                    0 <= i < list@.len() && list@[i].id == id;
                assert(keys[i] == id);
            }
            lemma_listed_total(keys, amounts, escrow_amounts(orders@));
            assert(orders@.dom() =~= escrow_amounts(orders@).dom());
        }
        let mut in_escrow: u64 = 0;
        let mut i: usize = 0;
        while i < list.len()
            invariant
                i <= list@.len(),
                lists_orders(list@, orders@),
                amounts.len() == list@.len(),
                forall|j: int| 0 <= j < list@.len() ==> amounts[j] == list@[j]@.escrow(),
                in_escrow == sum_of(amounts, i as nat),
                target.in_escrow() == sum_of(amounts, list@.len()),
                target == restored(accounts@, orders@, counter@),
                last_id == counter@,
                forall|j: int|
                    #![trigger list@[j]]
                    0 <= j < i ==> 1 <= list@[j].id <= last_id && list@[j]@.well_formed(),
            decreases list@.len() - i,
        {
            let order = &list[i];
            if order.id == 0 || order.id > last_id || !order.is_well_formed() {
                assert(orders@.contains_key(list@[i as int].id));
                return None;
            }
            if order.status == SwapStatus::Created {
                if order.from_amount > u64::MAX - in_escrow {
                    proof {
                        lemma_sum_of_grows(amounts, (i + 1) as nat, list@.len());
                    }
                    return None;
                }
                in_escrow = in_escrow + order.from_amount;
            }
            i += 1;
        }
        if in_escrow > u64::MAX - in_accounts {
            return None;
        }
        let engine = SwapEngine {
            accounts,
            orders,
            counter,
            held: in_accounts + in_escrow,
            memory: None,
            deposited: Ghost((in_accounts + in_escrow) as nat),
            retired: Ghost(0),
        };
        proof {
            assert(engine@ =~= target);
            assert forall|id: u64| #[trigger] target.orders.contains_key(id) implies target.orders[id].id
                == id && 1 <= id <= target.last_id && target.orders[id].well_formed() by {
                let j = choose|j: int|
                    #![trigger list@[j]]
                    0 <= j < list@.len() && list@[j].id == id;
                assert(list@[j]@.well_formed());
            }
        }
        Some(engine)
    }

    /// Gives the engine up and hands back the memory that its ledger is in,
    /// for another engine to take the ledger up from. An engine that was
    /// put together from parts holds no memory to hand back.
    pub fn into_memory(self) -> (memory: Option<LedgerMemory>)
        ensures
            memory.is_some() == self.keeps_memory(),
    {
        self.memory
    }

    /// Takes the engine apart into its account ledger, its order store and
    /// its order counter. They stay in the memory, which no engine can take
    /// up any more.
    pub fn into_parts(self) -> (parts: (AccountLedger, OrderStore, OrderCounter))
        requires
            self.wf(),
        ensures
            parts.0@ == self@.balances,
            parts.1@ == self@.orders,
            parts.1.sound(),
            parts.2@ == self@.last_id,
    {
        (self.accounts, self.orders, self.counter)
    }

    /// How much more the ledger can hold: all funds together fit 64 bits.
    pub fn room(&self) -> (room: u64)
        requires
            self.wf(),
        ensures
            room == u64::MAX - self@.funds(),
    {
        u64::MAX - self.held
    }

    /// The id of the order that was placed last, 0 before the first.
    pub fn last_order_id(&self) -> (id: u64)
        ensures
            id == self@.last_id,
    {
        self.counter.last_id()
    }

    /// Adds the amount to the caller's balance. The currency is checked and
    /// otherwise ignored: an identity has one balance.
    ///
    /// All funds of the ledger, balances and escrow together, stay within 64
    /// bits, so that every refund and every transfer has room. A deposit that
    /// is in order therefore needs as much room as its amount: see `room`.
    pub fn deposit(&mut self, caller: &Identity, args: DepositArgs) -> (result: Result<(), Error>)
        requires
            old(self).wf(),
            old(self)@.deposit(caller@, args.amount, args.currency@).result.is_ok() ==> old(
                self,
            )@.funds() + args.amount <= u64::MAX,
        ensures
            final(self).wf(),
            final(self).keeps_memory() == old(self).keeps_memory(),
            result == old(self)@.deposit(caller@, args.amount, args.currency@).result,
            final(self)@ == old(self)@.deposit(caller@, args.amount, args.currency@).state,
    {
        if args.amount == 0 {
            return Err(Error::InvalidAmount);
        }
        if !is_valid_currency(args.currency.as_str()) {
            return Err(Error::InvalidCurrency);
        }
        proof {
            old(self)@.lemma_deposit(caller@, args.amount, args.currency@);
        }
        self.accounts.credit(caller, args.amount);
        self.held = self.held + args.amount;
        self.deposited = Ghost(self.deposited@ + args.amount as nat);
        assert(self@ =~= old(self)@.deposit(caller@, args.amount, args.currency@).state);
        Ok(())
    }

    /// Why the order would be refused if the caller placed it now, or
    /// nothing where it would be placed.
    pub fn check_swap_order(&self, caller: &Identity, args: &CreateSwapOrderArgs) -> (refusal:
        Option<Error>)
        ensures
            refusal == self@.order_refusal(
                caller@,
                args.from_currency@,
                args.to_currency@,
                args.from_amount,
                args.to_amount,
                args.order_type,
            ),
    {
        if args.from_amount == 0 || args.to_amount == 0 {
            return Some(Error::InvalidAmount);
        }
        if !is_valid_currency(args.from_currency.as_str()) || !is_valid_currency(
            args.to_currency.as_str(),
        ) {
            return Some(Error::InvalidCurrency);
        }
        if validate_price(args.order_type).is_err() {
            return Some(Error::InvalidPrice);
        }
        if self.accounts.get_balance(caller) < args.from_amount {
            return Some(Error::InsufficientFunds);
        }
        None
    }

    /// Places an order for the caller at the given time: the offered amount
    /// leaves the caller's balance and is held in escrow, and the order is
    /// stored under a new id, which is returned. Ids are 64 bits, so an order
    /// that is in order needs an id to be left: see `last_order_id`.
    pub fn create_swap_order(
        &mut self,
        caller: &Identity,
        args: CreateSwapOrderArgs,
        now: u64,
    ) -> (result: Result<u64, Error>)
        requires
            old(self).wf(),
            old(self)@.create(
                caller@,
                args.from_currency@,
                args.to_currency@,
                args.from_amount,
                args.to_amount,
                args.order_type,
                now,
            ).result.is_ok() ==> old(self)@.last_id < u64::MAX,
        ensures
            final(self).wf(),
            final(self).keeps_memory() == old(self).keeps_memory(),
            result == old(self)@.create(
                caller@,
                args.from_currency@,
                args.to_currency@,
                args.from_amount,
                args.to_amount,
                args.order_type,
                now,
            ).result,
            final(self)@ == old(self)@.create(
                caller@,
                args.from_currency@,
                args.to_currency@,
                args.from_amount,
                args.to_amount,
                args.order_type,
                now,
            ).state,
    {
        match self.check_swap_order(caller, &args) {
            Some(error) => {
                return Err(error);
            },
            None => {},
        }
        if self.accounts.debit(caller, args.from_amount).is_err() {
            return Err(Error::InsufficientFunds);
        }
        proof {
            use_type_invariant(caller);
            old(self)@.lemma_create(
                caller@,
                args.from_currency@,
                args.to_currency@,
                args.from_amount,
                args.to_amount,
                args.order_type,
                now,
            );
        }
        let id = self.counter.next_id();
        let order = SwapOrder {
            id,
            owner: caller.clone(),
            from_currency: args.from_currency,
            to_currency: args.to_currency,
            from_amount: args.from_amount,
            to_amount: args.to_amount,
            order_type: args.order_type,
            created_at: now,
            status: SwapStatus::Created,
        };
        proof {
            lemma_well_formed_fits(order@);
        }
        self.orders.insert(&order);
        assert(self@ =~= old(self)@.create(
            caller@,
            args.from_currency@,
            args.to_currency@,
            args.from_amount,
            args.to_amount,
            args.order_type,
            now,
        ).state);
        Ok(id)
    }

    /// Moves the amount from one balance to another.
    pub fn transfer_funds(&mut self, from: &Identity, to: &Identity, amount: u64) -> (result:
        Result<(), Error>)
        requires
            old(self).wf(),
        ensures
            final(self).wf(),
            final(self).keeps_memory() == old(self).keeps_memory(),
            result == old(self)@.transfer(from@, to@, amount).result,
            final(self)@ == old(self)@.transfer(from@, to@, amount).state,
    {
        if amount == 0 {
            return Ok(());
        }
        if from.same_as(to) {
            return Ok(());
        }
        if self.accounts.find(from).is_none() {
            return Err(Error::UserNotFound);
        }
        if self.accounts.debit(from, amount).is_err() {
            return Err(Error::InsufficientFunds);
        }
        proof {
            old(self)@.lemma_transfer(from@, to@, amount);
        }
        self.accounts.credit(to, amount);
        assert(self@ =~= old(self)@.transfer(from@, to@, amount).state);
        Ok(())
    }

    /// The price that a verdict is needed on before the executor can settle
    /// the order: that of an open limit order of somebody else's.
    pub fn price_to_judge(&self, executor: &Identity, order_id: u64) -> (price: Option<u64>)
        requires
            self.wf(),
        ensures
            self@.needs_verdict(executor@, order_id) ==> price == Some(
                price_field(self@.orders[order_id].order_type),
            ),
            !self@.needs_verdict(executor@, order_id) ==> price.is_none(),
    {
        if executor.is_anonymous() {
            return None;
        }
        match self.orders.get(order_id) {
            None => None,
            Some(order) => {
                if order.status != SwapStatus::Created || executor.same_as(&order.owner) {
                    None
                } else {
                    match order.order_type {
                        OrderType::Market => None,
                        OrderType::Limit { price_bits } => Some(price_bits),
                    }
                }
            },
        }
    }

    /// Executes the order for the executor, given whether the price
    /// condition of a limit order holds: the wanted amount moves from the
    /// executor to the owner, and the order is marked executed. The verdict
    /// is not looked at for a market order.
    pub fn settle_swap_order(
        &mut self,
        executor: &Identity,
        order_id: u64,
        price_condition_met: bool,
    ) -> (result: Result<(), Error>)
        requires
            old(self).wf(),
        ensures
            final(self).wf(),
            final(self).keeps_memory() == old(self).keeps_memory(),
            result == old(self)@.settle(executor@, order_id, price_condition_met).result,
            final(self)@ == old(self)@.settle(executor@, order_id, price_condition_met).state,
    {
        if executor.is_anonymous() {
            return Err(Error::AnonymousNotAllowed);
        }
        let order = match self.orders.get(order_id) {
            Some(order) => order,
            None => {
                return Err(Error::InvalidOrderId);
            },
        };
        if order.status != SwapStatus::Created {
            return Err(Error::InvalidOrderStatus);
        }
        if executor.same_as(&order.owner) {
            return Err(Error::OwnerCannotExecute);
        }
        match order.order_type {
            OrderType::Market => {},
            OrderType::Limit { .. } => {
                if !price_condition_met {
                    return Err(Error::PriceConditionNotMet);
                }
            },
        }
        proof {
            old(self)@.lemma_settle(executor@, order_id, price_condition_met);
            old(self)@.lemma_escrow_covered(order_id);
        }
        match self.transfer_funds(executor, &order.owner, order.to_amount) {
            Ok(()) => {},
            Err(error) => {
                return Err(error);
            },
        }
        self.orders.update_status(order_id, SwapStatus::Executed);
        self.held = self.held - order.from_amount;
        self.retired = Ghost(self.retired@ + order.from_amount as nat);
        assert(self@ =~= old(self)@.settle(executor@, order_id, price_condition_met).state);
        Ok(())
    }

    /// Executes the order for the executor, asking the oracle whether the
    /// price condition holds where the order is a limit order that could be
    /// settled. The oracle is handed the bits of the limit price.
    pub fn execute_swap_order<F: Fn(u64) -> bool>(
        &mut self,
        executor: &Identity,
        order_id: u64,
        oracle: F,
    ) -> (result: Result<(), Error>)
        requires
            old(self).wf(),
            forall|price_bits: u64| call_requires(oracle, (price_bits,)),
        ensures
            final(self).wf(),
            final(self).keeps_memory() == old(self).keeps_memory(),
            exists|verdict: bool|
                {
                    &&& old(self)@.needs_verdict(executor@, order_id) ==> call_ensures(
                        oracle,
                        (price_field(old(self)@.orders[order_id].order_type),),
                        verdict,
                    )
                    &&& result == old(self)@.settle(executor@, order_id, verdict).result
                    &&& final(self)@ == old(self)@.settle(executor@, order_id, verdict).state
                },
    {
        let verdict = match self.price_to_judge(executor, order_id) {
            Some(price_bits) => oracle(price_bits),
            None => true,
        };
        self.settle_swap_order(executor, order_id, verdict)
    }

    /// Cancels the caller's order: the escrow goes back to the caller's
    /// balance, and the order is marked cancelled.
    pub fn cancel_swap_order(&mut self, caller: &Identity, order_id: u64) -> (result: Result<(), Error>)
        requires
            old(self).wf(),
        ensures
            final(self).wf(),
            final(self).keeps_memory() == old(self).keeps_memory(),
            result == old(self)@.cancel(caller@, order_id).result,
            final(self)@ == old(self)@.cancel(caller@, order_id).state,
    {
        let order = match self.orders.get(order_id) {
            Some(order) => order,
            None => {
                return Err(Error::InvalidOrderId);
            },
        };
        if order.status != SwapStatus::Created {
            return Err(Error::InvalidOrderStatus);
        }
        if !caller.same_as(&order.owner) {
            return Err(Error::Unauthorized);
        }
        proof {
            old(self)@.lemma_cancel(caller@, order_id);
        }
        self.accounts.credit(caller, order.from_amount);
        self.orders.update_status(order_id, SwapStatus::Cancelled);
        assert(self@ =~= old(self)@.cancel(caller@, order_id).state);
        Ok(())
    }

    /// The caller's balance, or nothing where the caller has no account.
    pub fn get_user_balance(&self, caller: &Identity) -> (balance: Option<u64>)
        ensures
            balance == if self@.balances.contains_key(caller@) {
                Some(self@.balances[caller@])
            } else {
                None
            },
    {
        self.accounts.find(caller)
    }

    /// The order with the given id, or nothing where there is none.
    pub fn get_swap_order(&self, order_id: u64) -> (order: Option<SwapOrder>)
        requires
            self.wf(),
        ensures
            self@.orders.contains_key(order_id) ==> order.is_some() && order.unwrap()@
                == self@.orders[order_id],
            !self@.orders.contains_key(order_id) ==> order.is_none(),
    {
        self.orders.get(order_id)
    }
}

} // verus!
