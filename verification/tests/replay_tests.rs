use tradecore::ledger::{LedgerError, Portfolio};
use tradecore::order::Order;
use tradecore::replay::{run_backtest, BacktestEngine, ReplayClock};
use tradecore::risk::RiskGate;
use tradecore::router::SimOutcome;
use tradecore::signal::{Side, TradeSignal};
use tradecore::strategy::StrategyEngine;
use tradecore::tick::MarketTick;

fn tick(symbol: &str, price: u64, ma50: Option<u64>, ma200: Option<u64>, ts: u64) -> MarketTick {
    MarketTick {
        symbol: symbol.to_string(),
        price,
        bid: None,
        ask: None,
        moving_average_50: ma50,
        moving_average_200: ma200,
        timestamp: ts,
    }
}

fn gate() -> RiskGate {
    RiskGate::new(1000, "OTC".to_string())
}

#[test]
fn clock_replays_in_order_then_closes() {
    let ticks = vec![
        tick("AAPL", 100, None, None, 1),
        tick("AAPL", 101, None, None, 2),
    ];
    let mut clock = ReplayClock::new(ticks, 250);
    assert_eq!(clock.pace_ms(), 250);
    assert_eq!(clock.tick_count(), 2);
    assert_eq!(clock.remaining_count(), 2);
    assert_eq!(clock.next_tick().unwrap().timestamp, 1);
    assert_eq!(clock.next_tick().unwrap().timestamp, 2);
    // End of stream is permanent.
    assert!(clock.next_tick().is_none());
    assert!(clock.next_tick().is_none());
    assert_eq!(clock.remaining_count(), 0);
}

#[test]
fn empty_history_terminates_immediately() {
    // Scenario: zero historical records. The clock emits nothing and
    // the portfolio is exactly the starting state.
    let mut clock = ReplayClock::new(Vec::new(), 0);
    assert!(clock.next_tick().is_none());
    let report = run_backtest(Vec::new(), 10_000, StrategyEngine::new(10), &gate());
    assert_eq!(report.ticks_processed, 0);
    assert_eq!(report.signals_emitted, 0);
    assert_eq!(report.fills, 0);
    assert_eq!(report.risk_rejected, 0);
    assert_eq!(report.ledger_rejected, 0);
    assert_eq!(report.summary.cash, 10_000);
    assert_eq!(report.summary.trade_count, 0);
    assert!(report.summary.positions.is_empty());
}

#[test]
fn single_buy_tick_fills_at_the_tick_price() {
    // Scenario: starting cash 10,000; one tick at 105 above its
    // 50-period average of 100 yields a buy of 10 filled at 105.
    let ticks = vec![tick("AAPL", 105, Some(100), None, 1)];
    let report = run_backtest(ticks, 10_000, StrategyEngine::new(10), &gate());
    assert_eq!(report.fills, 1);
    assert_eq!(report.summary.cash, 8_950);
    assert_eq!(report.summary.positions.len(), 1);
    assert_eq!(report.summary.positions[0].symbol, "AAPL");
    assert_eq!(report.summary.positions[0].qty, 10);
}

#[test]
fn buy_then_sell_backtest_balances() {
    // Scenario: cash 10,000; a buy tick at 105 over its 50-period
    // average, then a sell tick at 90 under its 200-period average.
    let ticks = vec![
        tick("AAPL", 105, Some(100), None, 1),
        tick("AAPL", 90, None, Some(95), 2),
    ];
    let report = run_backtest(ticks, 10_000, StrategyEngine::new(10), &gate());
    assert_eq!(report.ticks_processed, 2);
    assert_eq!(report.signals_emitted, 2);
    assert_eq!(report.fills, 2);
    assert_eq!(report.risk_rejected, 0);
    assert_eq!(report.ledger_rejected, 0);
    // 10,000 - 10*105 + 10*90 = 10,000 - 1,050 + 900.
    assert_eq!(report.summary.cash, 9_850);
    assert_eq!(report.summary.trade_count, 2);
    assert_eq!(report.summary.positions.len(), 1);
    assert_eq!(report.summary.positions[0].qty, 0);
}

#[test]
fn rejections_leave_the_ledger_alone() {
    // A sell signal with no position is ledger-rejected; a blocked
    // symbol is risk-rejected; neither touches cash or the trade log.
    let ticks = vec![
        tick("AAPL", 90, None, Some(95), 1),
        tick("OTCXYZ", 105, Some(100), None, 2),
    ];
    let report = run_backtest(ticks, 10_000, StrategyEngine::new(10), &gate());
    assert_eq!(report.ticks_processed, 2);
    assert_eq!(report.signals_emitted, 2);
    assert_eq!(report.fills, 0);
    assert_eq!(report.risk_rejected, 1);
    assert_eq!(report.ledger_rejected, 1);
    assert_eq!(report.summary.cash, 10_000);
    assert_eq!(report.summary.trade_count, 0);
}

#[test]
fn replay_is_deterministic() {
    // The same ordered tick sequence replayed twice yields the same
    // report, field for field.
    let ticks = vec![
        tick("AAPL", 105, Some(100), None, 1),
        tick("TSLA", 50, Some(60), Some(55), 2),
        tick("AAPL", 90, None, Some(95), 3),
        tick("TSLA", 70, Some(60), None, 4),
    ];
    let a = run_backtest(ticks.clone(), 10_000, StrategyEngine::new(10), &gate());
    let b = run_backtest(ticks, 10_000, StrategyEngine::new(10), &gate());
    assert_eq!(a.ticks_processed, b.ticks_processed);
    assert_eq!(a.signals_emitted, b.signals_emitted);
    assert_eq!(a.fills, b.fills);
    assert_eq!(a.risk_rejected, b.risk_rejected);
    assert_eq!(a.ledger_rejected, b.ledger_rejected);
    assert_eq!(a.summary.cash, b.summary.cash);
    assert_eq!(a.summary.trade_count, b.summary.trade_count);
}

#[test]
fn engine_runs_the_original_loop_shape() {
    // Load data, check the count, pull ticks, execute trades, report.
    let data = vec![
        tick("AAPL", 105, Some(100), None, 1),
        tick("AAPL", 90, None, Some(95), 2),
    ];
    let mut engine = BacktestEngine::new(data, 10_000, 500);
    assert_eq!(engine.get_historical_data_count(), Some(2));
    let mut fills = 0;
    while let Some(market_data) = engine.get_next_market_data() {
        if let Some(signal) = tradecore::strategy::run_strategy(&market_data) {
            match engine.execute_trade(&signal, &market_data) {
                SimOutcome::Filled(_) => fills += 1,
                _ => {}
            }
        }
    }
    assert_eq!(fills, 2);
    let summary = engine.summary();
    assert_eq!(summary.cash, 9_850);
    assert_eq!(summary.trade_count, 2);
}

#[test]
fn engine_with_no_data_reports_none() {
    let engine = BacktestEngine::new(Vec::new(), 10_000, 0);
    assert_eq!(engine.get_historical_data_count(), None);
}

#[test]
fn cancel_signal_reaches_the_ledger_never() {
    // A cancel routed through the simulated path is a no-op report.
    let mut engine = BacktestEngine::new(Vec::new(), 1_000, 0);
    let cancel = TradeSignal {
        symbol: "AAPL".to_string(),
        qty: 1,
        side: Side::Cancel,
        tick_timestamp: 0,
    };
    let market_data = tick("AAPL", 100, None, None, 1);
    match engine.execute_trade(&cancel, &market_data) {
        SimOutcome::OrderNotFound => {}
        _ => panic!("a cancel with nothing in flight reports OrderNotFound"),
    }
    assert_eq!(engine.summary().cash, 1_000);
    assert_eq!(engine.summary().trade_count, 0);
}

#[test]
fn engine_rejection_is_reported_not_applied() {
    let mut engine = BacktestEngine::new(Vec::new(), 100, 0);
    let signal = TradeSignal {
        symbol: "AAPL".to_string(),
        qty: 10,
        side: Side::Buy,
        tick_timestamp: 1,
    };
    let market_data = tick("AAPL", 50, None, None, 1);
    match engine.execute_trade(&signal, &market_data) {
        SimOutcome::LedgerRejected(e) => assert_eq!(e, LedgerError::InsufficientCash),
        _ => panic!("an underfunded buy is rejected"),
    }
    assert_eq!(engine.summary().cash, 100);
}

#[test]
fn order_records_resolve_exactly_once() {
    let signal = TradeSignal {
        symbol: "AAPL".to_string(),
        qty: 10,
        side: Side::Buy,
        tick_timestamp: 1,
    };
    let mut order = Order::from_signal(&signal);
    assert_eq!(order.state, tradecore::order::OrderState::Created);
    assert_eq!(order.id, None);
    order.submit(17);
    assert_eq!(order.state, tradecore::order::OrderState::Submitted);
    assert_eq!(order.id, Some(17));
    order.resolve(tradecore::order::OrderState::Filled);
    assert_eq!(order.state, tradecore::order::OrderState::Filled);
    assert_eq!(order.id, Some(17));
    let _ = Portfolio::new(0);
}
