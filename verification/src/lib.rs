//! A ledger of accounts and swap orders kept in stable memory.
//!
//! Users deposit funds, place swap orders whose offered amount is held in
//! escrow, and other users execute them or the owner cancels them. Every rule
//! of that life cycle is stated as a contract and proved.
//!
//! - [`engine`] is the way in: [`engine::SwapEngine`] carries out the
//!   operations on an account ledger ([`accounts`]), an order store
//!   ([`book`]) and an order counter ([`counter`]).
//! - [`model`] says what each operation does to the ledger as a mathematical
//!   value, [`history`] strings operations together, and [`laws`] proves what
//!   holds of every ledger: funds are conserved, nothing is refunded or
//!   settled twice, ids are never used again.
//! - [`validation`], [`identity`], [`order`] and [`error`] hold the values
//!   that go in and out; [`record`] is the form in which an order is stored.
//! - [`stable`] holds the stable structures themselves, which are taken on
//!   trust; [`totals`] is the arithmetic of sums over finite maps.

pub mod accounts;
pub mod book;
pub mod counter;
pub mod engine;
pub mod error;
pub mod history;
pub mod identity;
pub mod laws;
pub mod model;
pub mod order;
pub mod record;
pub mod stable;
pub mod totals;
pub mod validation;
