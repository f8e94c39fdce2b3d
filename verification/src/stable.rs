//! The structures in stable memory that hold the ledger, and what is taken on
//! trust about them. Nothing in this file is proved: each contract restates
//! what the stable-structures crate does.
//!
//! The structures are only what they are said to be over a memory that holds
//! nothing but what they wrote and that nothing else uses. `LedgerMemory`
//! stands for such a memory: it is made empty, it cannot be copied, it is
//! given away to the structures that are started or taken up in it, and it
//! is handed on to whoever holds them, to be kept until they are given up.

use candid::Principal;
use ic_stable_structures::memory_manager::{MemoryId, MemoryManager, VirtualMemory};
use ic_stable_structures::{Cell, DefaultMemoryImpl, StableBTreeMap};
use vstd::prelude::*;

verus! {

/// std's `RefCell`, which the vector-backed default memory is made of. It is
/// only carried through.
#[verifier::external_type_specification]
#[verifier::external_body]
#[verifier::reject_recursive_types(T)]
pub struct ExRefCell<T: ?Sized>(std::cell::RefCell<T>);

/// A memory for one ledger: one that holds nothing or what the structures
/// of a ledger wrote, and that nothing else uses.
pub struct LedgerMemory {
    memory: DefaultMemoryImpl,
}

/// `DefaultMemoryImpl::default`: a memory of its own. Off the Internet
/// Computer it is a new, empty vector. On it, it is the one stable memory of
/// the canister, with whatever that holds: there a canister makes one, once.
#[verifier::external_body]
pub(crate) fn memory_fresh() -> (memory: LedgerMemory) {
    LedgerMemory { memory: DefaultMemoryImpl::default() }
}

/// Balances by the bytes of the owner's principal.
pub type Balances = Map<Seq<u8>, u64>;

/// Stored records by order id.
pub type Records = Map<u64, Seq<u8>>;

/// A `StableBTreeMap` from principals to balances.
#[verifier::external_body]
pub struct AccountMap {
    map: StableBTreeMap<Principal, u64, VirtualMemory<DefaultMemoryImpl>>,
}

/// A `StableBTreeMap` from order ids to encoded orders.
#[verifier::external_body]
pub struct RecordMap {
    map: StableBTreeMap<u64, Vec<u8>, VirtualMemory<DefaultMemoryImpl>>,
}

/// A stable `Cell` that holds the last order id handed out.
#[verifier::external_body]
pub struct CounterCell {
    cell: Cell<u64, VirtualMemory<DefaultMemoryImpl>>,
}

/// What an account map holds.
pub uninterp spec fn account_entries(store: &AccountMap) -> Balances;

/// What a record map holds.
pub uninterp spec fn order_records(store: &RecordMap) -> Records;

/// The number that a counter cell holds.
pub uninterp spec fn counter_value(counter: &CounterCell) -> u64;

/// `MemoryManager::init` and `MemoryManager::get`, then `StableBTreeMap::new`
/// twice and `Cell::new`: divides the memory into regions and starts an empty
/// account map, an empty record map and a counter cell that holds `first`, each
/// in a region of its own. What the regions held is overwritten. The memory
/// comes back with the structures, for their holder to keep while they live.
#[verifier::external_body]
pub(crate) fn stores_new(
    memory: LedgerMemory,
    accounts_at: u8,
    orders_at: u8,
    counter_at: u8,
    first: u64,
) -> (stores: (AccountMap, RecordMap, CounterCell, LedgerMemory))
    requires
        accounts_at != orders_at,
        accounts_at != counter_at,
        orders_at != counter_at,
        accounts_at < 255,
        orders_at < 255,
        counter_at < 255,
    ensures
        account_entries(&stores.0) == Balances::empty(),
        order_records(&stores.1) == Records::empty(),
        counter_value(&stores.2) == first,
{
    let manager = MemoryManager::init(memory.memory.clone());
    let accounts = StableBTreeMap::new(manager.get(MemoryId::new(accounts_at)));
    let orders = StableBTreeMap::new(manager.get(MemoryId::new(orders_at)));
    let counter = Cell::new(manager.get(MemoryId::new(counter_at)), first);
    (AccountMap { map: accounts }, RecordMap { map: orders }, CounterCell { cell: counter }, memory)
}

/// `MemoryManager::init` and `MemoryManager::get`, then `StableBTreeMap::init`
/// twice and `Cell::init`: takes up the account map, the record map and the
/// counter cell that the regions of the memory hold, and starts an empty map
/// or a cell that holds `first` in a region that holds none. Nothing is known
/// of what they hold. The memory comes back with the structures, for their
/// holder to keep while they live.
#[verifier::external_body]
pub(crate) fn stores_open(
    memory: LedgerMemory,
    accounts_at: u8,
    orders_at: u8,
    counter_at: u8,
    first: u64,
) -> (stores: (AccountMap, RecordMap, CounterCell, LedgerMemory))
    requires
        accounts_at != orders_at,
        accounts_at != counter_at,
        orders_at != counter_at,
        accounts_at < 255,
        orders_at < 255,
        counter_at < 255,
{
    let manager = MemoryManager::init(memory.memory.clone());
    let accounts = StableBTreeMap::init(manager.get(MemoryId::new(accounts_at)));
    let orders = StableBTreeMap::init(manager.get(MemoryId::new(orders_at)));
    let counter = Cell::init(manager.get(MemoryId::new(counter_at)), first);
    (AccountMap { map: accounts }, RecordMap { map: orders }, CounterCell { cell: counter }, memory)
}

/// Whether the entries are those of the balances, each of them once.
pub open spec fn lists_balances(entries: Seq<(Vec<u8>, u64)>, balances: Balances) -> bool {
    &&& forall|i: int, j: int|
        #![trigger entries[i], entries[j]]
        0 <= i < j < entries.len() ==> entries[i].0@ != entries[j].0@
    &&& forall|i: int|
        #![trigger entries[i]]
        0 <= i < entries.len() ==> balances.contains_key(entries[i].0@) && balances[entries[i].0@]
            == entries[i].1
    &&& forall|who: Seq<u8>| #[trigger]
        balances.contains_key(who) ==> exists|i: int|
            #![trigger entries[i]]
            0 <= i < entries.len() && entries[i].0@ == who
}

/// Whether the entries are those of the records, each of them once, from
/// the lowest id to the highest.
pub open spec fn lists_records(entries: Seq<(u64, Vec<u8>)>, records: Records) -> bool {
    &&& forall|i: int, j: int|
        #![trigger entries[i], entries[j]]
        0 <= i < j < entries.len() ==> entries[i].0 < entries[j].0
    &&& forall|i: int|
        #![trigger entries[i]]
        0 <= i < entries.len() ==> records.contains_key(entries[i].0) && records[entries[i].0]
            == entries[i].1@
    &&& forall|id: u64| #[trigger]
        records.contains_key(id) ==> exists|i: int|
            #![trigger entries[i]]
            0 <= i < entries.len() && entries[i].0 == id
}

/// `StableBTreeMap::iter`: every entry of the map, once. Each principal is
/// handed out as its bytes.
#[verifier::external_body]
pub(crate) fn account_list(store: &AccountMap) -> (entries: Vec<(Vec<u8>, u64)>)
    ensures
        lists_balances(entries@, account_entries(store)),
{
    store.map.iter().map(|entry| (entry.key().as_slice().to_vec(), entry.value())).collect()
}

/// `StableBTreeMap::iter`: every entry of the map, once, sorted by id.
#[verifier::external_body]
pub(crate) fn record_list(store: &RecordMap) -> (entries: Vec<(u64, Vec<u8>)>)
    ensures
        lists_records(entries@, order_records(store)),
{
    store.map.iter().map(|entry| entry.into_pair()).collect()
}

/// `StableBTreeMap::get`: the balance stored under the principal with the
/// given bytes, if there is one. `Principal::from_slice` takes at most 29
/// bytes.
#[verifier::external_body]
pub(crate) fn account_get(store: &AccountMap, owner: &[u8]) -> (found: Option<u64>)
    requires
        owner@.len() <= 29,
    ensures
        found == if account_entries(store).contains_key(owner@) {
            Some(account_entries(store)[owner@])
        } else {
            None
        },
{
    store.map.get(&Principal::from_slice(owner))
}

/// `StableBTreeMap::insert`: stores the balance under the principal with the
/// given bytes, in place of what was stored under it.
#[verifier::external_body]
pub(crate) fn account_insert(store: &mut AccountMap, owner: &[u8], balance: u64)
    requires
        owner@.len() <= 29,
    ensures
        account_entries(final(store)) == account_entries(old(store)).insert(owner@, balance),
{
    store.map.insert(Principal::from_slice(owner), balance);
}

/// `StableBTreeMap::get`: the record stored under the id, if there is one.
#[verifier::external_body]
pub(crate) fn record_get(store: &RecordMap, id: u64) -> (found: Option<Vec<u8>>)
    ensures
        order_records(store).contains_key(id) ==> found.is_some() && found.unwrap()@
            == order_records(store)[id],
        !order_records(store).contains_key(id) ==> found.is_none(),
{
    store.map.get(&id)
}

/// `StableBTreeMap::insert`: stores the record under the id, in place of what
/// was stored under it. The map writes the length of a value in 32 bits, so
/// a record may be no longer than that.
#[verifier::external_body]
pub(crate) fn record_insert(store: &mut RecordMap, id: u64, record: Vec<u8>)
    requires
        record@.len() <= u32::MAX,
    ensures
        order_records(final(store)) == order_records(old(store)).insert(id, record@),
{
    store.map.insert(id, record);
}

/// `Cell::get`: the number that the counter holds.
#[verifier::external_body]
pub(crate) fn counter_get(counter: &CounterCell) -> (value: u64)
    ensures
        value == counter_value(counter),
{
    *counter.cell.get()
}

/// `Cell::set`: the counter holds the given number from now on.
#[verifier::external_body]
pub(crate) fn counter_set(counter: &mut CounterCell, value: u64)
    ensures
        counter_value(final(counter)) == value,
{
    counter.cell.set(value);
}

} // verus!
