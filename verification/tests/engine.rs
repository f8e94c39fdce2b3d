use swap_ledger::engine::SwapEngine;
use swap_ledger::error::Error;
use swap_ledger::identity::Identity;
use swap_ledger::order::{CreateSwapOrderArgs, DepositArgs, OrderType, SwapStatus};
use swap_ledger::stable::LedgerMemory;

fn engine() -> SwapEngine {
    SwapEngine::new(LedgerMemory::new())
}

fn user(tag: u8) -> Identity {
    Identity::from_slice(&[tag, 0xAB, 0xCD]).unwrap()
}

fn funds(amount: u64, currency: &str) -> DepositArgs {
    DepositArgs { amount, currency: currency.to_string() }
}

fn market(from: &str, to: &str, from_amount: u64, to_amount: u64) -> CreateSwapOrderArgs {
    CreateSwapOrderArgs {
        from_currency: from.to_string(),
        to_currency: to.to_string(),
        from_amount,
        to_amount,
        order_type: OrderType::Market,
    }
}

fn limit(from_amount: u64, to_amount: u64, price: f64) -> CreateSwapOrderArgs {
    CreateSwapOrderArgs {
        from_currency: "USD".to_string(),
        to_currency: "EUR".to_string(),
        from_amount,
        to_amount,
        order_type: OrderType::Limit { price_bits: price.to_bits() },
    }
}

#[test]
fn a_new_engine_is_empty() {
    let engine = engine();
    assert_eq!(engine.get_user_balance(&user(1)), None);
    assert!(engine.get_swap_order(0).is_none());
    assert!(engine.get_swap_order(1).is_none());
    assert_eq!(engine.last_order_id(), 0);
    assert_eq!(engine.room(), u64::MAX);
}

#[test]
fn deposit_then_order_then_execution() {
    let mut engine = engine();
    let a = user(1);
    let b = user(2);
    assert_eq!(engine.deposit(&a, funds(100, "USD")), Ok(()));
    assert_eq!(engine.get_user_balance(&a), Some(100));
    assert_eq!(engine.create_swap_order(&a, market("USD", "EUR", 40, 40), 7), Ok(1));
    assert_eq!(engine.get_user_balance(&a), Some(60));
    let placed = engine.get_swap_order(1).unwrap();
    assert_eq!(placed.id, 1);
    assert_eq!(placed.status, SwapStatus::Created);
    assert_eq!(placed.owner, a);
    assert_eq!(placed.from_currency, "USD");
    assert_eq!(placed.to_currency, "EUR");
    assert_eq!(placed.from_amount, 40);
    assert_eq!(placed.to_amount, 40);
    assert_eq!(placed.order_type, OrderType::Market);
    assert_eq!(placed.created_at, 7);
    assert_eq!(engine.deposit(&b, funds(100, "EUR")), Ok(()));
    assert_eq!(engine.settle_swap_order(&b, 1, true), Ok(()));
    assert_eq!(engine.get_user_balance(&b), Some(60));
    assert_eq!(engine.get_user_balance(&a), Some(100));
    assert_eq!(engine.get_swap_order(1).unwrap().status, SwapStatus::Executed);
}

#[test]
fn cancelled_order_cannot_be_executed() {
    let mut engine = engine();
    let a = user(1);
    let b = user(2);
    engine.deposit(&a, funds(100, "USD")).unwrap();
    engine.deposit(&b, funds(100, "EUR")).unwrap();
    assert_eq!(engine.create_swap_order(&a, market("USD", "EUR", 40, 40), 1), Ok(1));
    assert_eq!(engine.create_swap_order(&a, market("USD", "EUR", 20, 30), 2), Ok(2));
    let before = engine.get_user_balance(&a).unwrap();
    assert_eq!(before, 40);
    assert_eq!(engine.cancel_swap_order(&a, 2), Ok(()));
    assert_eq!(engine.get_user_balance(&a), Some(before + 20));
    assert_eq!(engine.get_swap_order(2).unwrap().status, SwapStatus::Cancelled);
    assert_eq!(engine.settle_swap_order(&b, 2, true), Err(Error::InvalidOrderStatus));
    assert_eq!(engine.get_user_balance(&b), Some(100));
    assert_eq!(engine.get_swap_order(1).unwrap().status, SwapStatus::Created);
}

#[test]
fn deposit_refuses_zero_and_bad_currencies() {
    let mut engine = engine();
    let a = user(1);
    assert_eq!(engine.deposit(&a, funds(0, "USD")), Err(Error::InvalidAmount));
    assert_eq!(engine.deposit(&a, funds(0, "usd")), Err(Error::InvalidAmount));
    assert_eq!(engine.deposit(&a, funds(5, "usd")), Err(Error::InvalidCurrency));
    assert_eq!(engine.deposit(&a, funds(5, "US")), Err(Error::InvalidCurrency));
    assert_eq!(engine.deposit(&a, funds(5, "USDD")), Err(Error::InvalidCurrency));
    assert_eq!(engine.get_user_balance(&a), None);
    assert_eq!(engine.room(), u64::MAX);
    assert_eq!(engine.deposit(&a, funds(5, "USD")), Ok(()));
    assert_eq!(engine.deposit(&a, funds(6, "EUR")), Ok(()));
    assert_eq!(engine.get_user_balance(&a), Some(11));
}

#[test]
fn one_balance_for_all_currencies() {
    let mut engine = engine();
    let a = user(1);
    engine.deposit(&a, funds(10, "USD")).unwrap();
    assert_eq!(engine.create_swap_order(&a, market("JPY", "CHF", 10, 1), 0), Ok(1));
    assert_eq!(engine.get_user_balance(&a), Some(0));
}

#[test]
fn create_checks_amounts_then_currencies_then_price_then_funds() {
    let mut engine = engine();
    let a = user(1);
    engine.deposit(&a, funds(10, "USD")).unwrap();
    assert_eq!(engine.create_swap_order(&a, market("usd", "EUR", 0, 5), 0), Err(Error::InvalidAmount));
    assert_eq!(engine.create_swap_order(&a, market("USD", "EUR", 5, 0), 0), Err(Error::InvalidAmount));
    assert_eq!(engine.create_swap_order(&a, market("usd", "EUR", 50, 5), 0), Err(Error::InvalidCurrency));
    assert_eq!(engine.create_swap_order(&a, market("USD", "EURO", 5, 5), 0), Err(Error::InvalidCurrency));
    let mut bad_price = limit(50, 5, 0.0);
    assert_eq!(engine.create_swap_order(&a, bad_price, 0), Err(Error::InvalidPrice));
    bad_price = limit(5, 5, -1.5);
    assert_eq!(engine.create_swap_order(&a, bad_price, 0), Err(Error::InvalidPrice));
    assert_eq!(engine.create_swap_order(&a, limit(11, 5, 1.5), 0), Err(Error::InsufficientFunds));
    assert_eq!(engine.get_user_balance(&a), Some(10));
    assert_eq!(engine.last_order_id(), 0);
    assert_eq!(engine.create_swap_order(&a, limit(10, 5, 1.5), 0), Ok(1));
    assert_eq!(engine.get_swap_order(1).unwrap().order_type, OrderType::Limit { price_bits: 1.5f64.to_bits() });
}

#[test]
fn order_for_more_than_the_balance_changes_nothing() {
    let mut engine = engine();
    let a = user(1);
    let stranger = user(9);
    engine.deposit(&a, funds(39, "USD")).unwrap();
    assert_eq!(engine.create_swap_order(&a, market("USD", "EUR", 40, 40), 0), Err(Error::InsufficientFunds));
    assert_eq!(engine.get_user_balance(&a), Some(39));
    assert!(engine.get_swap_order(1).is_none());
    assert_eq!(engine.last_order_id(), 0);
    assert_eq!(engine.room(), u64::MAX - 39);
    assert_eq!(
        engine.create_swap_order(&stranger, market("USD", "EUR", 1, 1), 0),
        Err(Error::InsufficientFunds)
    );
    assert_eq!(engine.get_user_balance(&stranger), None);
    assert!(engine.get_swap_order(1).is_none());
}

#[test]
fn cancelling_refunds_once() {
    let mut engine = engine();
    let a = user(1);
    engine.deposit(&a, funds(100, "USD")).unwrap();
    engine.create_swap_order(&a, market("USD", "EUR", 30, 45), 0).unwrap();
    assert_eq!(engine.get_user_balance(&a), Some(70));
    assert_eq!(engine.cancel_swap_order(&a, 1), Ok(()));
    assert_eq!(engine.get_user_balance(&a), Some(100));
    assert_eq!(engine.get_swap_order(1).unwrap().status, SwapStatus::Cancelled);
    assert_eq!(engine.cancel_swap_order(&a, 1), Err(Error::InvalidOrderStatus));
    assert_eq!(engine.get_user_balance(&a), Some(100));
    assert_eq!(engine.get_swap_order(1).unwrap().status, SwapStatus::Cancelled);
}

#[test]
fn cancelling_is_for_the_owner_of_an_existing_order() {
    let mut engine = engine();
    let a = user(1);
    let b = user(2);
    engine.deposit(&a, funds(100, "USD")).unwrap();
    engine.create_swap_order(&a, market("USD", "EUR", 30, 45), 0).unwrap();
    assert_eq!(engine.cancel_swap_order(&a, 2), Err(Error::InvalidOrderId));
    assert_eq!(engine.cancel_swap_order(&a, 0), Err(Error::InvalidOrderId));
    assert_eq!(engine.cancel_swap_order(&b, 1), Err(Error::Unauthorized));
    assert_eq!(engine.cancel_swap_order(&Identity::anonymous(), 1), Err(Error::Unauthorized));
    assert_eq!(engine.get_user_balance(&a), Some(70));
    assert_eq!(engine.get_user_balance(&b), None);
    assert_eq!(engine.get_swap_order(1).unwrap().status, SwapStatus::Created);
}

#[test]
fn executing_moves_the_wanted_amount_once() {
    let mut engine = engine();
    let a = user(1);
    let b = user(2);
    engine.deposit(&a, funds(50, "USD")).unwrap();
    engine.deposit(&b, funds(80, "EUR")).unwrap();
    engine.create_swap_order(&a, market("USD", "EUR", 50, 25), 0).unwrap();
    assert_eq!(engine.settle_swap_order(&b, 1, false), Ok(()));
    assert_eq!(engine.get_user_balance(&a), Some(25));
    assert_eq!(engine.get_user_balance(&b), Some(55));
    assert_eq!(engine.get_swap_order(1).unwrap().status, SwapStatus::Executed);
    assert_eq!(engine.settle_swap_order(&b, 1, true), Err(Error::InvalidOrderStatus));
    assert_eq!(engine.get_user_balance(&a), Some(25));
    assert_eq!(engine.get_user_balance(&b), Some(55));
    assert_eq!(engine.cancel_swap_order(&a, 1), Err(Error::InvalidOrderStatus));
    assert_eq!(engine.get_user_balance(&a), Some(25));
}

#[test]
fn escrow_of_an_executed_order_is_paid_to_nobody() {
    let mut engine = engine();
    let a = user(1);
    let b = user(2);
    engine.deposit(&a, funds(50, "USD")).unwrap();
    engine.deposit(&b, funds(80, "EUR")).unwrap();
    assert_eq!(engine.room(), u64::MAX - 130);
    engine.create_swap_order(&a, market("USD", "EUR", 50, 25), 0).unwrap();
    assert_eq!(engine.room(), u64::MAX - 130);
    engine.settle_swap_order(&b, 1, true).unwrap();
    assert_eq!(engine.room(), u64::MAX - 80);
    assert_eq!(engine.get_user_balance(&a).unwrap() + engine.get_user_balance(&b).unwrap(), 80);
}

#[test]
fn funds_are_conserved_by_orders_cancellations_and_transfers() {
    let mut engine = engine();
    let a = user(1);
    let b = user(2);
    let c = user(3);
    engine.deposit(&a, funds(500, "USD")).unwrap();
    engine.deposit(&b, funds(300, "EUR")).unwrap();
    let deposited = 800;
    engine.create_swap_order(&a, market("USD", "EUR", 120, 60), 0).unwrap();
    engine.create_swap_order(&b, market("EUR", "USD", 100, 10), 0).unwrap();
    engine.transfer_funds(&a, &c, 80).unwrap();
    engine.cancel_swap_order(&b, 2).unwrap();
    let balances = engine.get_user_balance(&a).unwrap()
        + engine.get_user_balance(&b).unwrap()
        + engine.get_user_balance(&c).unwrap();
    assert_eq!(engine.get_user_balance(&a), Some(300));
    assert_eq!(engine.get_user_balance(&b), Some(300));
    assert_eq!(engine.get_user_balance(&c), Some(80));
    let escrow = 120;
    assert_eq!(balances + escrow, deposited);
    assert_eq!(engine.room(), u64::MAX - deposited);
}

#[test]
fn owner_and_nobody_cannot_execute() {
    let mut engine = engine();
    let a = user(1);
    engine.deposit(&a, funds(100, "USD")).unwrap();
    engine.create_swap_order(&a, market("USD", "EUR", 30, 45), 0).unwrap();
    assert_eq!(engine.settle_swap_order(&a, 1, true), Err(Error::OwnerCannotExecute));
    assert_eq!(engine.settle_swap_order(&Identity::anonymous(), 1, true), Err(Error::AnonymousNotAllowed));
    assert_eq!(engine.settle_swap_order(&Identity::anonymous(), 77, true), Err(Error::AnonymousNotAllowed));
    assert_eq!(engine.settle_swap_order(&a, 77, true), Err(Error::InvalidOrderId));
    assert_eq!(engine.get_user_balance(&a), Some(70));
    assert_eq!(engine.get_swap_order(1).unwrap().status, SwapStatus::Created);
}

#[test]
fn an_order_of_nobody_cannot_be_executed_by_nobody() {
    let mut engine = engine();
    let nobody = Identity::anonymous();
    engine.deposit(&nobody, funds(10, "USD")).unwrap();
    assert_eq!(engine.create_swap_order(&nobody, market("USD", "EUR", 10, 1), 0), Ok(1));
    assert_eq!(engine.settle_swap_order(&nobody, 1, true), Err(Error::AnonymousNotAllowed));
    assert_eq!(engine.cancel_swap_order(&nobody, 1), Ok(()));
    assert_eq!(engine.get_user_balance(&nobody), Some(10));
}

#[test]
fn ids_grow_by_one_and_failed_orders_take_none() {
    let mut engine = engine();
    let a = user(1);
    engine.deposit(&a, funds(100, "USD")).unwrap();
    assert_eq!(engine.create_swap_order(&a, market("USD", "EUR", 1, 1), 0), Ok(1));
    assert_eq!(engine.create_swap_order(&a, market("USD", "EUR", 0, 1), 0), Err(Error::InvalidAmount));
    assert_eq!(engine.create_swap_order(&a, market("USD", "eur", 1, 1), 0), Err(Error::InvalidCurrency));
    assert_eq!(engine.create_swap_order(&a, market("USD", "EUR", 1000, 1), 0), Err(Error::InsufficientFunds));
    assert_eq!(engine.create_swap_order(&a, market("USD", "EUR", 1, 1), 0), Ok(2));
    engine.cancel_swap_order(&a, 1).unwrap();
    assert_eq!(engine.create_swap_order(&a, market("USD", "EUR", 1, 1), 0), Ok(3));
    assert_eq!(engine.last_order_id(), 3);
    assert_eq!(engine.get_swap_order(1).unwrap().status, SwapStatus::Cancelled);
    assert_eq!(engine.get_swap_order(2).unwrap().id, 2);
    assert_eq!(engine.get_swap_order(3).unwrap().id, 3);
    assert!(engine.get_swap_order(4).is_none());
}

#[test]
fn limit_order_waits_for_its_price() {
    let mut engine = engine();
    let a = user(1);
    let b = user(2);
    engine.deposit(&a, funds(100, "USD")).unwrap();
    engine.deposit(&b, funds(100, "EUR")).unwrap();
    engine.create_swap_order(&a, limit(40, 30, 1.5), 0).unwrap();
    assert_eq!(engine.settle_swap_order(&b, 1, false), Err(Error::PriceConditionNotMet));
    assert_eq!(engine.get_swap_order(1).unwrap().status, SwapStatus::Created);
    assert_eq!(engine.get_user_balance(&a), Some(60));
    assert_eq!(engine.get_user_balance(&b), Some(100));
    assert_eq!(engine.settle_swap_order(&b, 1, true), Ok(()));
    assert_eq!(engine.get_swap_order(1).unwrap().status, SwapStatus::Executed);
    assert_eq!(engine.get_user_balance(&a), Some(90));
    assert_eq!(engine.get_user_balance(&b), Some(70));
}

#[test]
fn the_oracle_is_asked_about_limit_prices_only() {
    let mut engine = engine();
    let a = user(1);
    let b = user(2);
    engine.deposit(&a, funds(100, "USD")).unwrap();
    engine.deposit(&b, funds(100, "EUR")).unwrap();
    engine.create_swap_order(&a, limit(10, 10, 1.5), 0).unwrap();
    engine.create_swap_order(&a, limit(10, 10, 1.1), 0).unwrap();
    engine.create_swap_order(&a, market("USD", "EUR", 10, 10), 0).unwrap();
    let at_most = |bits: u64| f64::from_bits(bits) <= 1.2;
    assert_eq!(engine.price_to_judge(&b, 1), Some(1.5f64.to_bits()));
    assert_eq!(engine.price_to_judge(&b, 3), None);
    assert_eq!(engine.price_to_judge(&a, 1), None);
    assert_eq!(engine.price_to_judge(&b, 9), None);
    assert_eq!(engine.execute_swap_order(&b, 1, at_most), Err(Error::PriceConditionNotMet));
    assert_eq!(engine.execute_swap_order(&b, 2, at_most), Ok(()));
    assert_eq!(engine.execute_swap_order(&b, 3, |_| false), Ok(()));
    assert_eq!(engine.execute_swap_order(&a, 1, |_| true), Err(Error::OwnerCannotExecute));
    assert_eq!(engine.execute_swap_order(&b, 4, |_| true), Err(Error::InvalidOrderId));
    assert_eq!(engine.execute_swap_order(&b, 2, |_| true), Err(Error::InvalidOrderStatus));
    assert_eq!(engine.execute_swap_order(&Identity::anonymous(), 1, |_| true), Err(Error::AnonymousNotAllowed));
    assert_eq!(engine.get_user_balance(&b), Some(80));
    assert_eq!(engine.get_user_balance(&a), Some(90));
}

#[test]
fn execution_fails_where_the_executor_cannot_pay() {
    let mut engine = engine();
    let a = user(1);
    let b = user(2);
    let c = user(3);
    engine.deposit(&a, funds(100, "USD")).unwrap();
    engine.deposit(&b, funds(29, "EUR")).unwrap();
    engine.create_swap_order(&a, market("USD", "EUR", 40, 30), 0).unwrap();
    assert_eq!(engine.settle_swap_order(&c, 1, true), Err(Error::UserNotFound));
    assert_eq!(engine.settle_swap_order(&b, 1, true), Err(Error::InsufficientFunds));
    assert_eq!(engine.get_swap_order(1).unwrap().status, SwapStatus::Created);
    assert_eq!(engine.get_user_balance(&a), Some(60));
    assert_eq!(engine.get_user_balance(&b), Some(29));
    assert_eq!(engine.get_user_balance(&c), None);
    engine.deposit(&b, funds(1, "EUR")).unwrap();
    assert_eq!(engine.settle_swap_order(&b, 1, true), Ok(()));
    assert_eq!(engine.get_user_balance(&b), Some(0));
    assert_eq!(engine.get_user_balance(&a), Some(90));
}

#[test]
fn transfers_move_funds_or_change_nothing() {
    let mut engine = engine();
    let a = user(1);
    let b = user(2);
    let c = user(3);
    engine.deposit(&a, funds(10, "USD")).unwrap();
    assert_eq!(engine.transfer_funds(&c, &b, 0), Ok(()));
    assert_eq!(engine.transfer_funds(&c, &c, 5), Ok(()));
    assert_eq!(engine.get_user_balance(&c), None);
    assert_eq!(engine.get_user_balance(&b), None);
    assert_eq!(engine.transfer_funds(&c, &b, 5), Err(Error::UserNotFound));
    assert_eq!(engine.transfer_funds(&a, &b, 11), Err(Error::InsufficientFunds));
    assert_eq!(engine.get_user_balance(&b), None);
    assert_eq!(engine.get_user_balance(&a), Some(10));
    assert_eq!(engine.transfer_funds(&a, &b, 4), Ok(()));
    assert_eq!(engine.get_user_balance(&a), Some(6));
    assert_eq!(engine.get_user_balance(&b), Some(4));
    assert_eq!(engine.transfer_funds(&a, &b, 6), Ok(()));
    assert_eq!(engine.get_user_balance(&a), Some(0));
    assert_eq!(engine.get_user_balance(&b), Some(10));
    assert_eq!(engine.transfer_funds(&a, &b, 1), Err(Error::InsufficientFunds));
    assert_eq!(engine.room(), u64::MAX - 10);
}

#[test]
fn the_ledger_can_be_filled_to_the_brim() {
    let mut engine = engine();
    let a = user(1);
    let b = user(2);
    engine.deposit(&a, funds(u64::MAX - 1, "USD")).unwrap();
    assert_eq!(engine.room(), 1);
    engine.deposit(&b, funds(1, "USD")).unwrap();
    assert_eq!(engine.room(), 0);
    engine.transfer_funds(&b, &a, 1).unwrap();
    assert_eq!(engine.get_user_balance(&a), Some(u64::MAX));
    assert_eq!(engine.create_swap_order(&a, market("USD", "EUR", u64::MAX, 1), 0), Ok(1));
    assert_eq!(engine.get_user_balance(&a), Some(0));
    assert_eq!(engine.room(), 0);
    assert_eq!(engine.cancel_swap_order(&a, 1), Ok(()));
    assert_eq!(engine.get_user_balance(&a), Some(u64::MAX));
}

#[test]
fn many_accounts_and_orders_are_kept_apart() {
    let mut engine = engine();
    for tag in 0..60u8 {
        let who = Identity::from_slice(&[tag; 29][..(tag as usize % 29) + 1]).unwrap();
        engine.deposit(&who, funds(1000 + tag as u64, "USD")).unwrap();
        assert_eq!(
            engine.create_swap_order(&who, market("USD", "EUR", 1 + tag as u64, 2), tag as u64),
            Ok(tag as u64 + 1)
        );
    }
    for tag in 0..60u8 {
        let who = Identity::from_slice(&[tag; 29][..(tag as usize % 29) + 1]).unwrap();
        assert_eq!(engine.get_user_balance(&who), Some(999));
        let order = engine.get_swap_order(tag as u64 + 1).unwrap();
        assert_eq!(order.owner, who);
        assert_eq!(order.from_amount, 1 + tag as u64);
        assert_eq!(order.created_at, tag as u64);
    }
}

#[test]
fn an_order_can_be_checked_before_it_is_placed() {
    let mut engine = engine();
    let a = user(1);
    engine.deposit(&a, funds(10, "USD")).unwrap();
    assert_eq!(engine.check_swap_order(&a, &market("USD", "EUR", 0, 5)), Some(Error::InvalidAmount));
    assert_eq!(engine.check_swap_order(&a, &market("USD", "EUR", 5, 0)), Some(Error::InvalidAmount));
    assert_eq!(engine.check_swap_order(&a, &market("usd", "EUR", 50, 5)), Some(Error::InvalidCurrency));
    assert_eq!(engine.check_swap_order(&a, &market("USD", "E", 5, 5)), Some(Error::InvalidCurrency));
    assert_eq!(engine.check_swap_order(&a, &limit(50, 5, -0.0)), Some(Error::InvalidPrice));
    assert_eq!(engine.check_swap_order(&a, &limit(11, 5, 1.5)), Some(Error::InsufficientFunds));
    assert_eq!(engine.check_swap_order(&user(2), &limit(1, 5, 1.5)), Some(Error::InsufficientFunds));
    assert_eq!(engine.check_swap_order(&a, &limit(10, 5, 1.5)), None);
    assert_eq!(engine.get_user_balance(&a), Some(10));
    assert_eq!(engine.last_order_id(), 0);
    assert_eq!(engine.create_swap_order(&a, limit(10, 5, 1.5), 0), Ok(1));
    assert_eq!(engine.check_swap_order(&a, &limit(1, 5, 1.5)), Some(Error::InsufficientFunds));
}
