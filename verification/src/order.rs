//! Swap orders, and what a caller hands in to deposit funds or to place one.

use crate::identity::{anonymous_bytes, Identity};
use crate::validation::{is_currency_code, is_valid_currency, price_accepted, validate_price};
use vstd::prelude::*;

verus! {

/// How an order is to be settled.
#[derive(Clone, Copy, Debug, PartialEq, Eq, Structural)]
pub enum OrderType {
    /// At once, at whatever the price is.
    Market,
    /// Only once the price condition holds for the given price. The price is
    /// kept as the bits of its 64-bit IEEE 754 form.
    Limit { price_bits: u64 },
}

/// Where an order stands in its life.
#[derive(Clone, Copy, Debug, PartialEq, Eq, Structural)]
pub enum SwapStatus {
    /// Placed, with the offered amount held in escrow.
    Created,
    /// Settled by an executor. Nothing more happens to it.
    Executed,
    /// Withdrawn by its owner, the escrow refunded. Nothing more happens to it.
    Cancelled,
}

/// An order to swap `from_amount` of one currency for `to_amount` of another.
#[derive(Debug, PartialEq, Eq)]
pub struct SwapOrder {
    pub id: u64,
    pub owner: Identity,
    pub from_currency: String,
    pub to_currency: String,
    pub from_amount: u64,
    pub to_amount: u64,
    pub order_type: OrderType,
    pub created_at: u64,
    pub status: SwapStatus,
}

/// An order as a mathematical value.
pub struct OrderView {
    pub id: u64,
    pub owner: Seq<u8>,
    pub from_currency: Seq<char>,
    pub to_currency: Seq<char>,
    pub from_amount: u64,
    pub to_amount: u64,
    pub order_type: OrderType,
    pub created_at: u64,
    pub status: SwapStatus,
}

impl OrderView {
    /// What the order holds in escrow: the offered amount while the order is
    /// open, nothing once it has been executed or cancelled.
    pub open spec fn escrow(self) -> nat {
        if self.status == SwapStatus::Created {
            self.from_amount as nat
        } else {
            0
        }
    }

    /// The same order in another status.
    pub open spec fn with_status(self, status: SwapStatus) -> OrderView {
        OrderView { status, ..self }
    }

    /// What holds of every order that was placed: both amounts are positive,
    /// both currencies are currency codes, and a limit price is above zero.
    pub open spec fn well_formed(self) -> bool {
        &&& self.owner.len() <= 29
        &&& self.from_amount > 0
        &&& self.to_amount > 0
        &&& is_currency_code(self.from_currency)
        &&& is_currency_code(self.to_currency)
        &&& price_accepted(self.order_type)
    }
}

impl View for SwapOrder {
    type V = OrderView;

    open spec fn view(&self) -> OrderView {
        OrderView {
            id: self.id,
            owner: self.owner@,
            from_currency: self.from_currency@,
            to_currency: self.to_currency@,
            from_amount: self.from_amount,
            to_amount: self.to_amount,
            order_type: self.order_type,
            created_at: self.created_at,
            status: self.status,
        }
    }
}

impl SwapOrder {
    /// Whether the order is as every order is that was placed.
    pub fn is_well_formed(&self) -> (well_formed: bool)
        ensures
            well_formed == self@.well_formed(),
    {
        proof {
            use_type_invariant(&self.owner);
        }
        self.from_amount > 0 && self.to_amount > 0 && is_valid_currency(self.from_currency.as_str())
            && is_valid_currency(self.to_currency.as_str()) && validate_price(
            self.order_type,
        ).is_ok()
    }
}

impl Clone for SwapOrder {
    fn clone(&self) -> (copy: Self)
        ensures
            copy@ == self@,
    {
        SwapOrder {
            id: self.id,
            owner: self.owner.clone(),
            from_currency: self.from_currency.clone(),
            to_currency: self.to_currency.clone(),
            from_amount: self.from_amount,
            to_amount: self.to_amount,
            order_type: self.order_type,
            created_at: self.created_at,
            status: self.status,
        }
    }
}

impl Default for OrderType {
    fn default() -> (order_type: Self)
        ensures
            order_type == OrderType::Market,
    {
        OrderType::Market
    }
}

impl Default for SwapStatus {
    fn default() -> (status: Self)
        ensures
            status == SwapStatus::Created,
    {
        SwapStatus::Created
    }
}

/// The order that `SwapOrder::default` makes.
pub open spec fn blank_order() -> OrderView {
    OrderView {
        id: 0,
        owner: anonymous_bytes(),
        from_currency: Seq::empty(),
        to_currency: Seq::empty(),
        from_amount: 0,
        to_amount: 0,
        order_type: OrderType::Market,
        created_at: 0,
        status: SwapStatus::Created,
    }
}

impl Default for SwapOrder {
    /// A blank market order of nobody's, with id 0, no currencies and no
    /// amounts.
    fn default() -> (order: Self)
        ensures
            order@ == blank_order(),
    {
        SwapOrder {
            id: 0,
            owner: Identity::anonymous(),
            from_currency: String::default(),
            to_currency: String::default(),
            from_amount: 0,
            to_amount: 0,
            order_type: OrderType::default(),
            created_at: 0,
            status: SwapStatus::default(),
        }
    }
}

/// What a caller hands in to deposit funds.
#[derive(Debug, PartialEq, Eq)]
pub struct DepositArgs {
    pub amount: u64,
    pub currency: String,
}

/// What a caller hands in to place an order.
#[derive(Debug, PartialEq, Eq)]
pub struct CreateSwapOrderArgs {
    pub from_currency: String,
    pub to_currency: String,
    pub from_amount: u64,
    pub to_amount: u64,
    pub order_type: OrderType,
}

} // verus!
