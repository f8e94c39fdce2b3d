//! The order counter: the source of order ids.

use crate::stable::{counter_get, counter_set, counter_value, CounterCell};
use vstd::prelude::*;

verus! {

/// The id that was handed out last, in stable memory. Ids only grow, so
/// none is handed out twice.
pub struct OrderCounter {
    cell: CounterCell,
}

impl View for OrderCounter {
    type V = u64;

    closed spec fn view(&self) -> u64 {
        counter_value(&self.cell)
    }
}

impl OrderCounter {
    /// The counter over a cell.
    pub(crate) fn over(cell: CounterCell) -> (counter: Self)
        ensures
            counter@ == counter_value(&cell),
    {
        OrderCounter { cell }
    }

    /// The id that was handed out last, 0 before the first.
    pub fn last_id(&self) -> (id: u64)
        ensures
            id == self@,
    {
        counter_get(&self.cell)
    }

    /// Hands out the next id: one more than the last.
    pub fn next_id(&mut self) -> (id: u64)
        requires
            old(self)@ < u64::MAX,
        ensures
            id == old(self)@ + 1,
            final(self)@ == id,
    {
        let id = counter_get(&self.cell) + 1;
        counter_set(&mut self.cell, id);
        id
    }
}

} // verus!
