use swap_ledger::engine::SwapEngine;
use swap_ledger::error::Error;
use swap_ledger::identity::Identity;
use swap_ledger::order::{CreateSwapOrderArgs, DepositArgs, OrderType, SwapStatus};
use swap_ledger::stable::LedgerMemory;

fn user(tag: u8) -> Identity {
    Identity::from_slice(&[tag, 1, 2, 3]).unwrap()
}

fn funds(amount: u64) -> DepositArgs {
    DepositArgs { amount, currency: "USD".to_string() }
}

fn order(from_amount: u64, to_amount: u64) -> CreateSwapOrderArgs {
    CreateSwapOrderArgs {
        from_currency: "USD".to_string(),
        to_currency: "EUR".to_string(),
        from_amount,
        to_amount,
        order_type: OrderType::Market,
    }
}

fn limit(from_amount: u64, price: f64) -> CreateSwapOrderArgs {
    CreateSwapOrderArgs { order_type: OrderType::Limit { price_bits: price.to_bits() }, ..order(from_amount, 3) }
}

#[test]
fn an_empty_memory_opens_as_an_empty_ledger() {
    let mut engine = SwapEngine::open(LedgerMemory::new()).unwrap();
    assert_eq!(engine.last_order_id(), 0);
    assert_eq!(engine.room(), u64::MAX);
    assert_eq!(engine.get_user_balance(&user(1)), None);
    assert!(engine.get_swap_order(1).is_none());
    assert_eq!(engine.deposit(&user(1), funds(5)), Ok(()));
    assert_eq!(engine.create_swap_order(&user(1), order(5, 1), 0), Ok(1));
}

#[test]
fn the_ledger_outlives_the_engine() {
    let a = user(1);
    let b = user(2);
    let mut engine = SwapEngine::new(LedgerMemory::new());
    engine.deposit(&a, funds(100)).unwrap();
    engine.deposit(&b, funds(50)).unwrap();
    assert_eq!(engine.create_swap_order(&a, order(40, 10), 11), Ok(1));
    assert_eq!(engine.create_swap_order(&a, order(20, 10), 12), Ok(2));
    assert_eq!(engine.create_swap_order(&b, limit(5, 1.25), 13), Ok(3));
    engine.cancel_swap_order(&a, 2).unwrap();
    engine.settle_swap_order(&b, 1, true).unwrap();
    let memory = engine.into_memory().unwrap();

    let mut engine = SwapEngine::open(memory).unwrap();
    assert_eq!(engine.get_user_balance(&a), Some(70));
    assert_eq!(engine.get_user_balance(&b), Some(35));
    assert_eq!(engine.get_user_balance(&user(3)), None);
    assert_eq!(engine.last_order_id(), 3);
    assert_eq!(engine.room(), u64::MAX - 110);
    assert_eq!(engine.get_swap_order(1).unwrap().status, SwapStatus::Executed);
    assert_eq!(engine.get_swap_order(2).unwrap().status, SwapStatus::Cancelled);
    let open = engine.get_swap_order(3).unwrap();
    assert_eq!(open.status, SwapStatus::Created);
    assert_eq!(open.owner, b);
    assert_eq!(open.from_amount, 5);
    assert_eq!(open.created_at, 13);
    assert_eq!(open.order_type, OrderType::Limit { price_bits: 1.25f64.to_bits() });
    assert!(engine.get_swap_order(4).is_none());
    assert_eq!(engine.create_swap_order(&a, order(1, 1), 14), Ok(4));
    assert_eq!(engine.settle_swap_order(&a, 3, true), Ok(()));
    assert_eq!(engine.get_user_balance(&b), Some(38));
    assert_eq!(engine.settle_swap_order(&b, 2, true), Err(Error::InvalidOrderStatus));
}

#[test]
fn the_ledger_outlives_one_engine_after_another() {
    let a = user(1);
    let mut memory = LedgerMemory::new();
    for round in 0..5u64 {
        let mut engine = SwapEngine::open(memory).unwrap();
        assert_eq!(engine.last_order_id(), round);
        assert_eq!(engine.get_user_balance(&a), if round == 0 { None } else { Some(round * 9) });
        assert_eq!(engine.room(), u64::MAX - round * 10);
        engine.deposit(&a, funds(10)).unwrap();
        assert_eq!(engine.create_swap_order(&a, order(1, 1), round), Ok(round + 1));
        memory = engine.into_memory().unwrap();
    }
    let engine = SwapEngine::open(memory).unwrap();
    for id in 1..=5u64 {
        assert_eq!(engine.get_swap_order(id).unwrap().created_at, id - 1);
    }
}

#[test]
fn a_new_engine_starts_over() {
    let mut engine = SwapEngine::new(LedgerMemory::new());
    engine.deposit(&user(1), funds(100)).unwrap();
    engine.create_swap_order(&user(1), order(40, 10), 0).unwrap();
    let memory = engine.into_memory().unwrap();

    let mut engine = SwapEngine::new(memory);
    assert_eq!(engine.get_user_balance(&user(1)), None);
    assert!(engine.get_swap_order(1).is_none());
    assert_eq!(engine.last_order_id(), 0);
    assert_eq!(engine.room(), u64::MAX);
    engine.deposit(&user(2), funds(7)).unwrap();
    let memory = engine.into_memory().unwrap();

    let engine = SwapEngine::open(memory).unwrap();
    assert_eq!(engine.get_user_balance(&user(1)), None);
    assert_eq!(engine.get_user_balance(&user(2)), Some(7));
}

#[test]
fn two_memories_hold_two_ledgers() {
    let mut one = SwapEngine::new(LedgerMemory::new());
    let mut other = SwapEngine::new(LedgerMemory::new());
    one.deposit(&user(1), funds(10)).unwrap();
    other.deposit(&user(1), funds(20)).unwrap();
    other.create_swap_order(&user(1), order(5, 5), 0).unwrap();
    assert_eq!(one.get_user_balance(&user(1)), Some(10));
    assert_eq!(other.get_user_balance(&user(1)), Some(15));
    assert!(one.get_swap_order(1).is_none());
    let one = SwapEngine::open(one.into_memory().unwrap()).unwrap();
    let other = SwapEngine::open(other.into_memory().unwrap()).unwrap();
    assert_eq!(one.get_user_balance(&user(1)), Some(10));
    assert_eq!(other.get_user_balance(&user(1)), Some(15));
    assert_eq!(one.last_order_id(), 0);
    assert_eq!(other.last_order_id(), 1);
}
