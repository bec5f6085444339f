//! Trade signals: the strategy's intent to trade, not yet risk-checked
//! or executed.

use vstd::prelude::*;

verus! {

/// Direction of a trade signal or order. `Cancel` asks the execution
/// router to cancel a matching in-flight order instead of placing one.
#[derive(Clone, Copy, Debug, PartialEq, Eq, Structural)]
pub enum Side {
    Buy,
    Sell,
    Cancel,
}

/// A strategy-generated intent to trade. Immutable once created;
/// consumed by the risk gate and the execution router.
///
/// `tick_timestamp` is the timestamp of the market tick that produced
/// the signal.
#[derive(Clone, Debug)]
pub struct TradeSignal {
    pub symbol: String,
    pub qty: u64,
    pub side: Side,
    pub tick_timestamp: u64,
}

impl TradeSignal {
    /// A signal is well formed when its quantity is a positive integer.
    pub open spec fn wf(&self) -> bool {
        self.qty >= 1
    }
}

} // verus!
