use tradecore::ledger::{LedgerError, Portfolio};
use tradecore::order::Order;
use tradecore::signal::{Side, TradeSignal};
use tradecore::tick::MarketTick;

fn signal(symbol: &str, qty: u64, side: Side) -> TradeSignal {
    TradeSignal { symbol: symbol.to_string(), qty, side, tick_timestamp: 0 }
}

fn submitted_order(symbol: &str, qty: u64, side: Side, id: u64) -> Order {
    let mut order = Order::from_signal(&signal(symbol, qty, side));
    order.submit(id);
    order
}

#[test]
fn buy_fill_moves_cash_and_position() {
    // Scenario: starting cash 10,000; buy 10 at 105 costs 1,050.
    let mut p = Portfolio::new(10_000);
    let order = submitted_order("AAPL", 10, Side::Buy, 1);
    let trade = p.apply_fill(&order, 105, 7).unwrap();
    assert_eq!(trade.symbol, "AAPL");
    assert_eq!(trade.qty, 10);
    assert_eq!(trade.price, 105);
    assert_eq!(trade.side, Side::Buy);
    assert_eq!(trade.timestamp, 7);
    assert_eq!(p.cash(), 8_950);
    assert_eq!(p.position_qty(&"AAPL".to_string()), 10);
    assert_eq!(p.trade_count(), 1);
}

#[test]
fn sell_fill_returns_proceeds() {
    // Scenario: position of 10 built first, then sold at 90.
    let mut p = Portfolio::new(10_000);
    let buy = submitted_order("AAPL", 10, Side::Buy, 1);
    p.apply_fill(&buy, 100, 1).unwrap();
    assert_eq!(p.cash(), 9_000);
    let sell = submitted_order("AAPL", 10, Side::Sell, 2);
    let trade = p.apply_fill(&sell, 90, 2).unwrap();
    assert_eq!(trade.side, Side::Sell);
    assert_eq!(p.cash(), 9_900);
    assert_eq!(p.position_qty(&"AAPL".to_string()), 0);
    assert_eq!(p.trade_count(), 2);
}

#[test]
fn stale_sell_is_rejected_without_mutation() {
    // Scenario: no position held; a sell of 10 must not apply.
    let mut p = Portfolio::new(10_000);
    let sell = submitted_order("AAPL", 10, Side::Sell, 1);
    let err = p.apply_fill(&sell, 90, 3).unwrap_err();
    assert_eq!(err, LedgerError::InsufficientPosition);
    assert_eq!(p.cash(), 10_000);
    assert_eq!(p.position_qty(&"AAPL".to_string()), 0);
    assert_eq!(p.trade_count(), 0);
}

#[test]
fn underfunded_buy_is_rejected_without_mutation() {
    // Scenario: cash 100; buy 10 at 50 costs 500 and must not apply.
    let mut p = Portfolio::new(100);
    let buy = submitted_order("AAPL", 10, Side::Buy, 1);
    let err = p.apply_fill(&buy, 50, 4).unwrap_err();
    assert_eq!(err, LedgerError::InsufficientCash);
    assert_eq!(p.cash(), 100);
    assert_eq!(p.position_qty(&"AAPL".to_string()), 0);
    assert_eq!(p.trade_count(), 0);
}

#[test]
fn cash_never_negative_over_a_fill_sequence() {
    // Buys and sells in a row: every accepted fill leaves cash >= 0,
    // and the exact balance is the integer fold of the fills.
    let mut p = Portfolio::new(1_000);
    let fills = [
        ("A", 3, Side::Buy, 100u64),   // cash 700
        ("B", 2, Side::Buy, 300),      // cash 100
        ("A", 3, Side::Sell, 150),     // cash 550
        ("B", 5, Side::Sell, 10),      // rejected: only 2 held
        ("B", 2, Side::Sell, 50),      // cash 650
        ("A", 9, Side::Buy, 100),      // rejected: costs 900 > 650
    ];
    let mut id = 0u64;
    for (sym, qty, side, price) in fills {
        id += 1;
        let order = submitted_order(sym, qty, side, id);
        let _ = p.apply_fill(&order, price, id);
    }
    assert_eq!(p.cash(), 650);
    assert_eq!(p.position_qty(&"A".to_string()), 0);
    assert_eq!(p.position_qty(&"B".to_string()), 0);
    assert_eq!(p.trade_count(), 4);
}

#[test]
fn position_overflow_is_rejected() {
    // A free buy can fill the position counter; one more share must be
    // refused rather than wrap.
    let mut p = Portfolio::new(10);
    let big = submitted_order("X", u64::MAX, Side::Buy, 1);
    p.apply_fill(&big, 0, 1).unwrap();
    assert_eq!(p.position_qty(&"X".to_string()), u64::MAX);
    let one_more = submitted_order("X", 1, Side::Buy, 2);
    let err = p.apply_fill(&one_more, 0, 2).unwrap_err();
    assert_eq!(err, LedgerError::Overflow);
    assert_eq!(p.position_qty(&"X".to_string()), u64::MAX);
    assert_eq!(p.trade_count(), 1);
}

#[test]
fn cash_overflow_on_sell_is_rejected() {
    let mut p = Portfolio::new(10);
    let big = submitted_order("X", u64::MAX, Side::Buy, 1);
    p.apply_fill(&big, 0, 1).unwrap();
    let sell = submitted_order("X", u64::MAX, Side::Sell, 2);
    let err = p.apply_fill(&sell, 2, 2).unwrap_err();
    assert_eq!(err, LedgerError::Overflow);
    assert_eq!(p.cash(), 10);
    assert_eq!(p.position_qty(&"X".to_string()), u64::MAX);
}

#[test]
fn execute_trade_fills_at_the_tick_price() {
    let mut p = Portfolio::new(10_000);
    let market_data = MarketTick {
        symbol: "AAPL".to_string(),
        price: 105,
        bid: None,
        ask: None,
        moving_average_50: Some(100),
        moving_average_200: None,
        timestamp: 9,
    };
    let trade = p.execute_trade(&signal("AAPL", 10, Side::Buy), &market_data).unwrap();
    assert_eq!(trade.price, 105);
    assert_eq!(trade.timestamp, 9);
    assert_eq!(p.cash(), 8_950);
    assert_eq!(p.position_qty(&"AAPL".to_string()), 10);
}

#[test]
fn summary_reports_without_mutating() {
    let mut p = Portfolio::new(500);
    let buy = submitted_order("A", 2, Side::Buy, 1);
    p.apply_fill(&buy, 100, 1).unwrap();
    let s1 = p.summary();
    let s2 = p.summary();
    assert_eq!(s1.cash, 300);
    assert_eq!(s2.cash, 300);
    assert_eq!(s1.trade_count, 1);
    assert_eq!(s1.positions.len(), 1);
    assert_eq!(s1.positions[0].symbol, "A");
    assert_eq!(s1.positions[0].qty, 2);
    assert_eq!(p.cash(), 300);
    assert_eq!(p.trade_count(), 1);
}
