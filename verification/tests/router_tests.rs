use tradecore::ledger::LedgerError;
use tradecore::order::OrderState;
use tradecore::router::{LiveDirective, LiveRouter, SimOutcome, SimulatedRouter};
use tradecore::signal::{Side, TradeSignal};
use tradecore::tick::MarketTick;

fn signal(symbol: &str, qty: u64, side: Side) -> TradeSignal {
    TradeSignal { symbol: symbol.to_string(), qty, side, tick_timestamp: 3 }
}

fn tick(symbol: &str, price: u64) -> MarketTick {
    MarketTick {
        symbol: symbol.to_string(),
        price,
        bid: None,
        ask: None,
        moving_average_50: None,
        moving_average_200: None,
        timestamp: 3,
    }
}

#[test]
fn simulated_fill_is_immediate() {
    let mut router = SimulatedRouter::new(10_000);
    match router.execute(&signal("AAPL", 10, Side::Buy), &tick("AAPL", 105)) {
        SimOutcome::Filled(trade) => {
            assert_eq!(trade.symbol, "AAPL");
            assert_eq!(trade.price, 105);
            assert_eq!(trade.timestamp, 3);
        }
        _ => panic!("a funded buy fills immediately"),
    }
    assert_eq!(router.cash(), 8_950);
    assert_eq!(router.position_qty(&"AAPL".to_string()), 10);
}

#[test]
fn simulated_rejection_reports_the_rule() {
    let mut router = SimulatedRouter::new(100);
    match router.execute(&signal("AAPL", 10, Side::Buy), &tick("AAPL", 50)) {
        SimOutcome::LedgerRejected(e) => assert_eq!(e, LedgerError::InsufficientCash),
        _ => panic!("an underfunded buy is rejected"),
    }
    match router.execute(&signal("AAPL", 10, Side::Sell), &tick("AAPL", 50)) {
        SimOutcome::LedgerRejected(e) => assert_eq!(e, LedgerError::InsufficientPosition),
        _ => panic!("a stale sell is rejected"),
    }
    assert_eq!(router.cash(), 100);
    assert_eq!(router.summary().trade_count, 0);
}

#[test]
fn simulated_cancel_finds_nothing_in_flight() {
    let mut router = SimulatedRouter::new(100);
    match router.execute(&signal("AAPL", 1, Side::Cancel), &tick("AAPL", 50)) {
        SimOutcome::OrderNotFound => {}
        _ => panic!("simulated orders resolve immediately, so cancels find nothing"),
    }
    assert_eq!(router.cash(), 100);
}

#[test]
fn live_buy_asks_for_a_placement() {
    let mut router = LiveRouter::new();
    match router.on_signal(&signal("AAPL", 10, Side::Buy)) {
        LiveDirective::Place { symbol, qty, side } => {
            assert_eq!(symbol, "AAPL");
            assert_eq!(qty, 10);
            assert_eq!(side, Side::Buy);
        }
        _ => panic!("a buy asks the caller to place an order"),
    }
    assert_eq!(router.inflight_count(), 0);
    router.on_placed(&signal("AAPL", 10, Side::Buy), 71);
    assert_eq!(router.inflight_count(), 1);
}

#[test]
fn live_cancel_resolves_the_matching_order() {
    let mut router = LiveRouter::new();
    router.on_placed(&signal("AAPL", 10, Side::Buy), 71);
    router.on_placed(&signal("TSLA", 5, Side::Sell), 72);
    match router.on_signal(&signal("AAPL", 1, Side::Cancel)) {
        LiveDirective::CancelAtVenue { order_id } => assert_eq!(order_id, 71),
        _ => panic!("the matching in-flight order is canceled"),
    }
    assert_eq!(router.inflight_count(), 1);
    // A second cancel for the same symbol finds nothing: a no-op
    // report, not a failure.
    match router.on_signal(&signal("AAPL", 1, Side::Cancel)) {
        LiveDirective::NoMatchingOrder => {}
        _ => panic!("canceling with nothing in flight reports OrderNotFound"),
    }
    assert_eq!(router.inflight_count(), 1);
}

#[test]
fn live_fill_confirmation_resolves_the_order() {
    let mut router = LiveRouter::new();
    router.on_placed(&signal("AAPL", 10, Side::Buy), 71);
    let filled = router.on_venue_event(71, OrderState::Filled).unwrap();
    assert_eq!(filled.state, OrderState::Filled);
    assert_eq!(filled.id, Some(71));
    assert_eq!(filled.symbol, "AAPL");
    assert_eq!(router.inflight_count(), 0);
    // Unknown identifiers change nothing.
    assert!(router.on_venue_event(99, OrderState::Filled).is_none());
}

#[test]
fn live_venue_rejection_resolves_the_order() {
    let mut router = LiveRouter::new();
    router.on_placed(&signal("AAPL", 10, Side::Buy), 71);
    let rejected = router.on_venue_event(71, OrderState::Rejected).unwrap();
    assert_eq!(rejected.state, OrderState::Rejected);
    assert_eq!(router.inflight_count(), 0);
    let mut other = LiveRouter::new();
    other.on_placed(&signal("AAPL", 10, Side::Buy), 5);
    let canceled = other.on_venue_event(5, OrderState::CanceledByVenue).unwrap();
    assert_eq!(canceled.state, OrderState::CanceledByVenue);
}
