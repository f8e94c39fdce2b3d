//! The order store: every order that was placed, by its id.

use crate::order::{OrderView, SwapOrder, SwapStatus};
use crate::record::{
    decode_order, fits_record, lemma_decode_encode, lemma_record_len, lemma_status_keeps_len,
};
use crate::stable::{lists_records, order_records, record_get, record_insert, record_list, RecordMap};
use vstd::prelude::*;

verus! {

/// The orders that a map of records holds.
pub open spec fn decoded(records: Map<u64, Seq<u8>>) -> Map<u64, OrderView> {
    Map::new(|id: u64| records.contains_key(id), |id: u64| decode_order(records[id]).unwrap())
}

/// Whether the list holds the orders, each of them once, from the lowest id
/// to the highest.
pub open spec fn lists_orders(list: Seq<SwapOrder>, orders: Map<u64, OrderView>) -> bool {
    &&& forall|i: int, j: int|
        #![trigger list[i], list[j]]
        0 <= i < j < list.len() ==> list[i].id < list[j].id
    &&& forall|i: int|
        #![trigger list[i]]
        0 <= i < list.len() ==> orders.contains_key(list[i].id) && orders[list[i].id] == list[i]@
    &&& forall|id: u64| #[trigger]
        orders.contains_key(id) ==> exists|i: int|
            #![trigger list[i]]
            0 <= i < list.len() && list[i].id == id
}

/// All orders, in stable memory. The store keeps what it is given: which
/// changes of status are allowed is for the engine to decide.
pub struct OrderStore {
    map: RecordMap,
}

impl View for OrderStore {
    type V = Map<u64, OrderView>;

    closed spec fn view(&self) -> Map<u64, OrderView> {
        decoded(order_records(&self.map))
    }
}

impl OrderStore {
    /// Every record in the store can be read, holds the id that it is
    /// stored under, and is no longer than the map can write.
    pub closed spec fn sound(&self) -> bool {
        forall|id: u64| #[trigger]
            order_records(&self.map).contains_key(id) ==> {
                &&& decode_order(order_records(&self.map)[id]).is_some()
                &&& decode_order(order_records(&self.map)[id]).unwrap().id == id
                &&& order_records(&self.map)[id].len() <= u32::MAX
            }
    }

    /// The store over a map of records.
    pub(crate) fn over(map: RecordMap) -> (store: Self)
        ensures
            store@ == decoded(order_records(&map)),
            order_records(&map) == Map::<u64, Seq<u8>>::empty() ==> store.sound(),
    {
        OrderStore { map }
    }

    /// In a sound store every order is stored under its own id, and its
    /// record fits.
    pub proof fn lemma_sound(&self)
        requires
            self.sound(),
        ensures
            forall|id: u64| #[trigger]
                self@.contains_key(id) ==> self@[id].id == id && fits_record(self@[id]),
    {
        assert forall|id: u64| #[trigger] self@.contains_key(id) implies self@[id].id == id
            && fits_record(self@[id]) by {
            lemma_record_len(order_records(&self.map)[id]);
        }
    }

    /// Stores the order under its id, in place of what was stored there.
    /// The record of the order must be no longer than the map can write:
    /// `to_bytes` gives it.
    pub fn insert(&mut self, order: &SwapOrder)
        requires
            old(self).sound(),
            fits_record(order@),
        ensures
            final(self).sound(),
            final(self)@ == old(self)@.insert(order.id, order@),
    {
        let record = order.to_bytes();
        proof {
            lemma_decode_encode(order@);
        }
        record_insert(&mut self.map, order.id, record);
        assert(self@ =~= old(self)@.insert(order.id, order@));
    }

    /// The order with the given id, or nothing where there is none.
    pub fn get(&self, id: u64) -> (found: Option<SwapOrder>)
        requires
            self.sound(),
        ensures
            self@.contains_key(id) ==> found.is_some() && found.unwrap()@ == self@[id],
            !self@.contains_key(id) ==> found.is_none(),
    {
        match record_get(&self.map, id) {
            Some(record) => SwapOrder::from_bytes(record.as_slice()),
            None => None,
        }
    }

    /// All orders from the lowest id to the highest, or nothing where the
    /// store is not sound.
    pub fn list(&self) -> (orders: Option<Vec<SwapOrder>>)
        ensures
            orders.is_some() <==> self.sound(),
            orders.is_some() ==> lists_orders(orders.unwrap()@, self@),
    {
        let entries = record_list(&self.map);
        let mut list: Vec<SwapOrder> = Vec::new();
        let mut i: usize = 0;
        while i < entries.len()
            invariant
                i <= entries@.len(),
                list@.len() == i,
                lists_records(entries@, order_records(&self.map)),
                forall|j: int|
                    #![trigger list@[j]]
                    0 <= j < i ==> list@[j].id == entries@[j].0 && decode_order(entries@[j].1@)
                        == Some(list@[j]@) && entries@[j].1@.len() <= u32::MAX,
            decreases entries@.len() - i,
        {
            if entries[i].1.len() as u64 > 0xFFFF_FFFF {
                assert(order_records(&self.map).contains_key(entries@[i as int].0));
                return None;
            }
            match SwapOrder::from_bytes(entries[i].1.as_slice()) {
                Some(order) => {
                    if order.id != entries[i].0 {
                        assert(order_records(&self.map).contains_key(entries@[i as int].0));
                        return None;
                    }
                    list.push(order);
                },
                None => {
                    assert(order_records(&self.map).contains_key(entries@[i as int].0));
                    return None;
                },
            }
            i += 1;
        }
        proof {
            let records = order_records(&self.map);
            assert forall|id: u64| #[trigger] records.contains_key(id) implies decode_order(
                records[id],
            ).is_some() && decode_order(records[id]).unwrap().id == id && records[id].len()
                <= u32::MAX && exists|j: int|
                #![trigger list@[j]]
                0 <= j < list@.len() && list@[j].id == id by {
                let j = choose|j: int|
                    #![trigger entries@[j]]
                    0 <= j < entries@.len() && entries@[j].0 == id;
                assert(list@[j].id == id);
            }
            assert forall|j: int|
                #![trigger list@[j]]
                0 <= j < list@.len() implies self@.contains_key(list@[j].id) && self@[list@[j].id]
                == list@[j]@ by {
                assert(records.contains_key(entries@[j].0));
            }
            assert forall|j: int, k: int|
                #![trigger list@[j], list@[k]]
                0 <= j < k < list@.len() implies list@[j].id < list@[k].id by {
                assert(entries@[j].0 < entries@[k].0);
            }
        }
        Some(list)
    }

    /// Sets the status of the order with the given id and says whether
    /// there is such an order.
    pub fn update_status(&mut self, id: u64, status: SwapStatus) -> (found: bool)
        requires
            old(self).sound(),
        ensures
            final(self).sound(),
            found == old(self)@.contains_key(id),
            found ==> final(self)@ == old(self)@.insert(id, old(self)@[id].with_status(status)),
            !found ==> final(self)@ == old(self)@,
    {
        match self.get(id) {
            Some(mut order) => {
                proof {
                    self.lemma_sound();
                    lemma_status_keeps_len(order@, status);
                }
                order.status = status;
                self.insert(&order);
                true
            },
            None => false,
        }
    }
}

} // verus!
