use tradecore::risk::{RiskGate, RiskViolation, validate_trade, DEFAULT_MAX_QTY};
use tradecore::signal::{Side, TradeSignal};
use tradecore::strategy::{run_strategy, StrategyEngine, DEFAULT_ORDER_QTY};
use tradecore::tick::MarketTick;

fn tick(symbol: &str, price: u64, ma50: Option<u64>, ma200: Option<u64>) -> MarketTick {
    MarketTick {
        symbol: symbol.to_string(),
        price,
        bid: None,
        ask: None,
        moving_average_50: ma50,
        moving_average_200: ma200,
        timestamp: 42,
    }
}

#[test]
fn price_above_ma50_emits_buy() {
    // Scenario: tick(AAPL, price 105, ma50 100) emits Buy(10).
    let sig = run_strategy(&tick("AAPL", 105, Some(100), None)).unwrap();
    assert_eq!(sig.symbol, "AAPL");
    assert_eq!(sig.qty, DEFAULT_ORDER_QTY);
    assert_eq!(sig.side, Side::Buy);
    assert_eq!(sig.tick_timestamp, 42);
}

#[test]
fn price_below_ma200_emits_sell() {
    // Scenario: tick(AAPL, price 90, ma200 95) emits Sell(10).
    let sig = run_strategy(&tick("AAPL", 90, None, Some(95))).unwrap();
    assert_eq!(sig.side, Side::Sell);
    assert_eq!(sig.qty, 10);
}

#[test]
fn price_between_averages_emits_nothing() {
    assert!(run_strategy(&tick("AAPL", 100, Some(100), Some(95))).is_none());
}

#[test]
fn missing_averages_emit_nothing() {
    // Absent averages are never treated as zero.
    assert!(run_strategy(&tick("AAPL", 105, None, None)).is_none());
}

#[test]
fn buy_rule_wins_over_sell_rule() {
    // Both rules fire; the crossover policy checks the 50-period rule
    // first.
    let sig = run_strategy(&tick("AAPL", 105, Some(100), Some(200))).unwrap();
    assert_eq!(sig.side, Side::Buy);
}

#[test]
fn engine_quantity_is_configurable() {
    let engine = StrategyEngine::new(25);
    let sig = engine.evaluate(&tick("AAPL", 105, Some(100), None)).unwrap();
    assert_eq!(sig.qty, 25);
}

#[test]
fn strategy_is_deterministic_per_tick() {
    let t = tick("AAPL", 105, Some(100), None);
    let a = run_strategy(&t).unwrap();
    let b = run_strategy(&t).unwrap();
    assert_eq!(a.symbol, b.symbol);
    assert_eq!(a.qty, b.qty);
    assert_eq!(a.side, b.side);
    assert_eq!(a.tick_timestamp, b.tick_timestamp);
}

fn signal(symbol: &str, qty: u64) -> TradeSignal {
    TradeSignal { symbol: symbol.to_string(), qty, side: Side::Buy, tick_timestamp: 0 }
}

#[test]
fn oversized_quantity_is_rejected() {
    let gate = RiskGate::new(1000, "OTC".to_string());
    let err = gate.validate(&signal("AAPL", 1001)).unwrap_err();
    assert_eq!(err, RiskViolation::QtyAboveCeiling);
    assert!(gate.validate(&signal("AAPL", 1000)).is_ok());
}

#[test]
fn blocked_prefix_is_rejected() {
    let gate = RiskGate::new(1000, "OTC".to_string());
    let err = gate.validate(&signal("OTCXYZ", 5)).unwrap_err();
    assert_eq!(err, RiskViolation::DisallowedSymbol);
    assert!(gate.validate(&signal("AAPL", 5)).is_ok());
    // The prefix must start the symbol, not merely occur in it.
    assert!(gate.validate(&signal("XOTC", 5)).is_ok());
}

#[test]
fn quantity_rule_is_checked_first() {
    let gate = RiskGate::new(1000, "OTC".to_string());
    let err = gate.validate(&signal("OTCXYZ", 2000)).unwrap_err();
    assert_eq!(err, RiskViolation::QtyAboveCeiling);
}

#[test]
fn validate_trade_applies_reference_rules() {
    assert_eq!(DEFAULT_MAX_QTY, 1000);
    assert!(validate_trade(&signal("AAPL", 10)));
    assert!(!validate_trade(&signal("AAPL", 1001)));
    assert!(!validate_trade(&signal("OTCXYZ", 10)));
}
