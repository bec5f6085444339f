//! Strategy engine: a pure, deterministic function from one market tick
//! to at most one trade signal.
//!
//! The reference policy is a moving-average crossover: buy a fixed
//! quantity when the price is above the 50-period moving average, sell
//! it when the price is below the 200-period moving average, do nothing
//! otherwise. A tick that lacks the relevant moving average produces
//! nothing — absence is never treated as zero.

use vstd::prelude::*;

use crate::signal::Side;
use crate::signal::TradeSignal;
use crate::tick::MarketTick;

verus! {

/// Quantity the reference policy trades per signal.
pub const DEFAULT_ORDER_QTY: u64 = 10;

/// The signal the crossover policy emits for a tick, for every possible
/// tick: the whole policy is this one function of the tick and the
/// configured quantity.
pub open spec fn spec_evaluate(order_qty: u64, tick: MarketTick) -> Option<TradeSignal> {
    if tick.moving_average_50 is Some && tick.price > tick.moving_average_50->0 {
        Some(
            TradeSignal {
                symbol: tick.symbol,
                qty: order_qty,
                side: Side::Buy,
                tick_timestamp: tick.timestamp,
            },
        )
    } else if tick.moving_average_200 is Some && tick.price < tick.moving_average_200->0 {
        Some(
            TradeSignal {
                symbol: tick.symbol,
                qty: order_qty,
                side: Side::Sell,
                tick_timestamp: tick.timestamp,
            },
        )
    } else {
        None
    }
}

/// The crossover policy with its configured order quantity. Holds no
/// mutable state, so re-running a tick sequence always produces the
/// same signal sequence.
#[derive(Clone, Copy, Debug)]
pub struct StrategyEngine {
    pub order_qty: u64,
}

impl StrategyEngine {
    /// An engine trading `order_qty` shares per signal.
    pub fn new(order_qty: u64) -> (r: StrategyEngine)
        requires
            order_qty >= 1,
        ensures
            r.order_qty == order_qty,
    {
        StrategyEngine { order_qty }
    }

    /// Evaluates one tick. Pure: no I/O, no shared mutable state, and
    /// the result is pinned to `spec_evaluate`.
    pub fn evaluate(&self, tick: &MarketTick) -> (r: Option<TradeSignal>)
        ensures
            r == spec_evaluate(self.order_qty, *tick),
            r matches Some(s) ==> s.symbol@ == tick.symbol@ && s.tick_timestamp == tick.timestamp
                && s.qty == self.order_qty && s.side != Side::Cancel,
    {
        match tick.moving_average_50 {
            Some(ma50) if tick.price > ma50 => Some(
                TradeSignal {
                    symbol: tick.symbol.clone(),
                    qty: self.order_qty,
                    side: Side::Buy,
                    tick_timestamp: tick.timestamp,
                },
            ),
            _ => match tick.moving_average_200 {
                Some(ma200) if tick.price < ma200 => Some(
                    TradeSignal {
                        symbol: tick.symbol.clone(),
                        qty: self.order_qty,
                        side: Side::Sell,
                        tick_timestamp: tick.timestamp,
                    },
                ),
                _ => None,
            },
        }
    }
}

/// The reference policy as the pipeline runs it: the crossover rules at
/// the default quantity.
pub fn run_strategy(tick: &MarketTick) -> (r: Option<TradeSignal>)
    ensures
        r == spec_evaluate(DEFAULT_ORDER_QTY, *tick),
{
    let engine = StrategyEngine::new(DEFAULT_ORDER_QTY);
    engine.evaluate(tick)
}

} // verus!
