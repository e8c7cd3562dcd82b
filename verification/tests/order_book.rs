use dex::ledger::Ledger;
use dex::order_book::{Order, OrderBook};
use dex::{DexError, Side};

#[test]
fn create_order_mints_sequential_ids() {
    let mut book = OrderBook::new();
    assert_eq!(book.order_count(), 0);
    assert_eq!(book.create_order(1, 7, 10, 2, Side::Sell), Ok(0));
    assert_eq!(book.create_order(2, 7, 5, 3, Side::Buy), Ok(1));
    assert_eq!(book.create_order(1, 8, 1, 1, Side::Sell), Ok(2));
    assert_eq!(book.order_count(), 3);
}

#[test]
fn create_order_rejects_zero_amount() {
    let mut book = OrderBook::new();
    assert_eq!(book.create_order(1, 7, 0, 2, Side::Buy), Err(DexError::InvalidOrder));
    assert_eq!(book.order_count(), 0);
}

#[test]
fn create_order_rejects_zero_price() {
    let mut book = OrderBook::new();
    assert_eq!(book.create_order(1, 7, 10, 0, Side::Sell), Err(DexError::InvalidOrder));
    assert_eq!(book.order_count(), 0);
}

#[test]
fn get_order_returns_stored_order() {
    let mut book = OrderBook::new();
    assert_eq!(book.get_order(0), None);
    assert_eq!(book.create_order(3, 7, 10, 2, Side::Buy), Ok(0));
    let order = Order {
        id: 0,
        owner: 3,
        token: 7,
        amount: 10,
        price: 2,
        side: Side::Buy,
        filled: false,
    };
    assert_eq!(book.get_order(0), Some(order));
    assert_eq!(book.get_order(1), None);
}

#[test]
fn sell_order_settles_and_fills() {
    // Account 1 sells 100 units of token 7 at price 5; account 2 takes 40.
    let mut book = OrderBook::new();
    let mut ledger = Ledger::new();
    ledger.set_balance(1, 7, 100);
    assert_eq!(book.create_order(1, 7, 100, 5, Side::Sell), Ok(0));
    assert_eq!(book.execute_order(&mut ledger, 0, 2, 40), Ok(()));
    assert_eq!(ledger.balance_of(1, 7), 60);
    assert_eq!(ledger.balance_of(2, 7), 40);
    assert!(book.get_order(0).unwrap().filled);
    // the order is terminal: a second execution is rejected without effect
    assert_eq!(book.execute_order(&mut ledger, 0, 2, 10), Err(DexError::OrderAlreadyFilled));
    assert_eq!(ledger.balance_of(1, 7), 60);
    assert_eq!(ledger.balance_of(2, 7), 40);
}

#[test]
fn buy_order_settles_and_fills() {
    // Account 5 buys 10 units of token 6 at price 3, holding the cost of 30;
    // account 9 delivers the 10 units and receives the payment of 30, both
    // legs moving the same token.
    let mut book = OrderBook::new();
    let mut ledger = Ledger::new();
    ledger.set_balance(5, 6, 30);
    ledger.set_balance(9, 6, 25);
    assert_eq!(book.create_order(5, 6, 10, 3, Side::Buy), Ok(0));
    let before = ledger.balance_of(5, 6) + ledger.balance_of(9, 6);
    assert_eq!(book.execute_order(&mut ledger, 0, 9, 10), Ok(()));
    assert_eq!(ledger.balance_of(5, 6), 10);
    assert_eq!(ledger.balance_of(9, 6), 45);
    assert!(book.get_order(0).unwrap().filled);
    // the two legs conserve the token's total
    assert_eq!(ledger.balance_of(5, 6) + ledger.balance_of(9, 6), before);
}

#[test]
fn settlement_conserves_token_sum() {
    let mut book = OrderBook::new();
    let mut ledger = Ledger::new();
    ledger.set_balance(1, 7, 80);
    ledger.set_balance(2, 7, 9);
    assert_eq!(book.create_order(1, 7, 50, 2, Side::Sell), Ok(0));
    let before = ledger.balance_of(1, 7) + ledger.balance_of(2, 7);
    assert_eq!(book.execute_order(&mut ledger, 0, 2, 50), Ok(()));
    let after = ledger.balance_of(1, 7) + ledger.balance_of(2, 7);
    assert_eq!(before, after);
}

#[test]
fn buy_order_insufficient_payment_balance() {
    // Account 3 buys 50 units of token 8 at price 2 holding only 99: the
    // cost of 100 cannot be covered and nothing changes.
    let mut book = OrderBook::new();
    let mut ledger = Ledger::new();
    assert_eq!(book.create_order(6, 9, 1, 1, Side::Sell), Ok(0));
    assert_eq!(book.create_order(3, 8, 50, 2, Side::Buy), Ok(1));
    ledger.set_balance(3, 8, 99);
    assert_eq!(book.execute_order(&mut ledger, 1, 4, 50), Err(DexError::InsufficientBalance));
    assert_eq!(ledger.balance_of(3, 8), 99);
    assert_eq!(ledger.balance_of(4, 8), 0);
    assert!(!book.get_order(1).unwrap().filled);
}

#[test]
fn buy_order_counterparty_short_of_tokens() {
    // The delivery leg cannot be covered, so the payment leg must not be
    // applied either.
    let mut book = OrderBook::new();
    let mut ledger = Ledger::new();
    ledger.set_balance(5, 6, 30);
    ledger.set_balance(9, 6, 4);
    assert_eq!(book.create_order(5, 6, 10, 3, Side::Buy), Ok(0));
    assert_eq!(book.execute_order(&mut ledger, 0, 9, 10), Err(DexError::InsufficientBalance));
    assert_eq!(ledger.balance_of(5, 6), 30);
    assert_eq!(ledger.balance_of(9, 6), 4);
    assert!(!book.get_order(0).unwrap().filled);
}

#[test]
fn buy_order_payment_credit_overflow_is_rolled_back() {
    // Crediting the payment to the counterparty would overflow: neither leg
    // may be visible afterwards.
    let mut book = OrderBook::new();
    let mut ledger = Ledger::new();
    ledger.set_balance(5, 6, 30);
    ledger.set_balance(9, 6, u64::MAX - 10);
    assert_eq!(book.create_order(5, 6, 10, 3, Side::Buy), Ok(0));
    assert_eq!(book.execute_order(&mut ledger, 0, 9, 10), Err(DexError::Overflow));
    assert_eq!(ledger.balance_of(5, 6), 30);
    assert_eq!(ledger.balance_of(9, 6), u64::MAX - 10);
    assert!(!book.get_order(0).unwrap().filled);
}

#[test]
fn buy_order_delivery_credit_overflow_is_rolled_back() {
    // Crediting the delivered units to the owner would overflow: neither
    // leg may be visible afterwards.
    let mut book = OrderBook::new();
    let mut ledger = Ledger::new();
    ledger.set_balance(5, 6, u64::MAX);
    ledger.set_balance(9, 6, 50);
    assert_eq!(book.create_order(5, 6, 10, 1, Side::Buy), Ok(0));
    assert_eq!(book.execute_order(&mut ledger, 0, 9, 10), Err(DexError::Overflow));
    assert_eq!(ledger.balance_of(5, 6), u64::MAX);
    assert_eq!(ledger.balance_of(9, 6), 50);
    assert!(!book.get_order(0).unwrap().filled);
}

#[test]
fn sell_order_insufficient_owner_balance() {
    let mut book = OrderBook::new();
    let mut ledger = Ledger::new();
    ledger.set_balance(1, 7, 39);
    assert_eq!(book.create_order(1, 7, 100, 5, Side::Sell), Ok(0));
    assert_eq!(book.execute_order(&mut ledger, 0, 2, 40), Err(DexError::InsufficientBalance));
    assert_eq!(ledger.balance_of(1, 7), 39);
    assert_eq!(ledger.balance_of(2, 7), 0);
}

#[test]
fn execute_unknown_order() {
    let mut book = OrderBook::new();
    let mut ledger = Ledger::new();
    assert_eq!(book.execute_order(&mut ledger, 999, 1, 1), Err(DexError::OrderNotFound));
    assert_eq!(book.create_order(1, 7, 10, 2, Side::Sell), Ok(0));
    assert_eq!(book.execute_order(&mut ledger, 999, 1, 1), Err(DexError::OrderNotFound));
}

#[test]
fn execute_rejects_zero_amount() {
    let mut book = OrderBook::new();
    let mut ledger = Ledger::new();
    ledger.set_balance(1, 7, 100);
    assert_eq!(book.create_order(1, 7, 10, 2, Side::Sell), Ok(0));
    assert_eq!(book.execute_order(&mut ledger, 0, 2, 0), Err(DexError::InvalidOrder));
    assert_eq!(ledger.balance_of(1, 7), 100);
}

#[test]
fn execute_rejects_self_trade() {
    let mut book = OrderBook::new();
    let mut ledger = Ledger::new();
    ledger.set_balance(1, 7, 100);
    assert_eq!(book.create_order(1, 7, 10, 2, Side::Sell), Ok(0));
    assert_eq!(book.execute_order(&mut ledger, 0, 1, 10), Err(DexError::SelfTrade));
    assert_eq!(ledger.balance_of(1, 7), 100);
    assert!(!book.get_order(0).unwrap().filled);
}

#[test]
fn buy_order_cost_overflow() {
    // Executing 2 units against a price of u64::MAX overflows the cost.
    let mut book = OrderBook::new();
    let mut ledger = Ledger::new();
    ledger.set_balance(1, 7, u64::MAX);
    assert_eq!(book.create_order(1, 7, 10, u64::MAX, Side::Buy), Ok(0));
    assert_eq!(book.execute_order(&mut ledger, 0, 2, 2), Err(DexError::Overflow));
    assert_eq!(ledger.balance_of(1, 7), u64::MAX);
    assert!(!book.get_order(0).unwrap().filled);
}

#[test]
fn sell_order_credit_overflow_is_rolled_back() {
    // Crediting the counterparty would overflow: the debit must not be
    // visible afterwards either.
    let mut book = OrderBook::new();
    let mut ledger = Ledger::new();
    ledger.set_balance(1, 7, 10);
    ledger.set_balance(2, 7, u64::MAX);
    assert_eq!(book.create_order(1, 7, 5, 1, Side::Sell), Ok(0));
    assert_eq!(book.execute_order(&mut ledger, 0, 2, 5), Err(DexError::Overflow));
    assert_eq!(ledger.balance_of(1, 7), 10);
    assert_eq!(ledger.balance_of(2, 7), u64::MAX);
    assert!(!book.get_order(0).unwrap().filled);
}
