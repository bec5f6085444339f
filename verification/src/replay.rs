//! Replay clock and backtest driver.
//!
//! The replay clock feeds an ordered sequence of historical ticks into
//! the pipeline and terminates deterministically when the data is
//! exhausted: after the last tick every further pull answers `None`,
//! permanently. Pacing (the optional inter-tick delay) is a stored
//! configuration value; the waiting itself is the caller's.
//!
//! The backtest driver runs the whole simulated pipeline — strategy,
//! risk gate, simulated router, ledger — over the replayed ticks, and
//! its result is pinned to one spec-level fold of the tick sequence, so
//! a backtest is a function of its inputs and nothing else.

use vstd::prelude::*;

use crate::ledger::FillRequest;
use crate::ledger::LedgerModel;
use crate::ledger::PortfolioSummary;
use crate::ledger::TradeModel;
use crate::ledger::accepted_fill;
use crate::ledger::apply_fill_model;
use crate::ledger::pos_map;
use crate::risk::RiskGate;
use crate::risk::spec_validate;
use crate::router::SimOutcome;
use crate::router::SimulatedRouter;
use crate::signal::Side;
use crate::signal::TradeSignal;
use crate::strategy::StrategyEngine;
use crate::strategy::spec_evaluate;
use crate::tick::MarketTick;

verus! {

/// Drives a backtest from an ordered sequence of historical ticks
/// (sorted ascending by timestamp per symbol, as the historical source
/// guarantees). Emits each tick once, in order, then reports end of
/// stream forever.
#[derive(Debug)]
pub struct ReplayClock {
    ticks: Vec<MarketTick>,
    pos: usize,
    pace_ms: u64,
}

impl ReplayClock {
    /// The whole historical sequence this clock replays.
    pub closed spec fn ticks_seq(&self) -> Seq<MarketTick> {
        self.ticks@
    }

    /// How many ticks have been emitted so far.
    pub closed spec fn position(&self) -> int {
        self.pos as int
    }

    /// The configured inter-tick delay, in milliseconds.
    pub closed spec fn spec_pace_ms(&self) -> u64 {
        self.pace_ms
    }

    /// The clock never stands past the end of its data.
    pub closed spec fn wf(&self) -> bool {
        self.pos <= self.ticks@.len()
    }

    /// A clock at the start of the given historical data. With zero
    /// records it terminates immediately: the first pull already
    /// reports end of stream.
    pub fn new(ticks: Vec<MarketTick>, pace_ms: u64) -> (r: ReplayClock)
        ensures
            r.wf(),
            r.ticks_seq() == ticks@,
            r.position() == 0,
            r.spec_pace_ms() == pace_ms,
    {
        ReplayClock { ticks, pos: 0, pace_ms }
    }

    /// The configured inter-tick delay, for the caller's pacing.
    pub fn pace_ms(&self) -> (r: u64)
        ensures
            r == self.spec_pace_ms(),
    {
        self.pace_ms
    }

    /// How many records were loaded in all.
    pub fn tick_count(&self) -> (r: usize)
        ensures
            r == self.ticks_seq().len(),
    {
        self.ticks.len()
    }

    /// How many ticks are still to come. Zero means the stream is
    /// closed permanently, not merely that no tick has arrived yet.
    pub fn remaining_count(&self) -> (r: usize)
        requires
            self.wf(),
        ensures
            r == self.ticks_seq().len() - self.position(),
    {
        self.ticks.len() - self.pos
    }

    /// The next historical tick, or `None` once — and forever after —
    /// the data is exhausted.
    pub fn next_tick(&mut self) -> (r: Option<MarketTick>)
        requires
            old(self).wf(),
        ensures
            final(self).wf(),
            final(self).ticks_seq() == old(self).ticks_seq(),
            final(self).spec_pace_ms() == old(self).spec_pace_ms(),
            old(self).position() < old(self).ticks_seq().len() ==> r == Some(
                old(self).ticks_seq()[old(self).position()],
            ) && final(self).position() == old(self).position() + 1,
            old(self).position() == old(self).ticks_seq().len() ==> r is None && *final(self)
                == *old(self),
    {
        if self.pos < self.ticks.len() {
            let tick = self.ticks[self.pos].duplicate();
            self.pos = self.pos + 1;
            Some(tick)
        } else {
            None
        }
    }
}

/// Everything one backtest run accumulates, as the model sees it: the
/// ledger plus the counters the final report carries.
#[verifier::ext_equal]
pub ghost struct RunModel {
    pub ledger: LedgerModel,
    pub ticks: int,
    pub signals: int,
    pub risk_rejected: int,
    pub fills: int,
    pub ledger_rejected: int,
}

/// The model before the first tick: the starting cash, nothing held,
/// nothing counted.
pub open spec fn initial_run_model(starting_cash: u64) -> RunModel {
    RunModel {
        ledger: LedgerModel {
            cash: starting_cash as int,
            positions: Map::<Seq<char>, int>::empty(),
            trades: Seq::<TradeModel>::empty(),
        },
        ticks: 0,
        signals: 0,
        risk_rejected: 0,
        fills: 0,
        ledger_rejected: 0,
    }
}

/// One pipeline step: evaluate the tick, gate the signal, route the
/// accepted signal to the simulated fill. A tick without a signal, a
/// risk-rejected signal and a ledger-rejected fill all leave the ledger
/// untouched.
pub open spec fn spec_step(qty: u64, gate: RiskGate, m: RunModel, tick: MarketTick) -> RunModel {
    let m1 = RunModel { ticks: m.ticks + 1, ..m };
    match spec_evaluate(qty, tick) {
        None => m1,
        Some(sig) => {
            let m2 = RunModel { signals: m1.signals + 1, ..m1 };
            match spec_validate(gate, sig) {
                Err(_) => RunModel { risk_rejected: m2.risk_rejected + 1, ..m2 },
                Ok(_) => {
                    let f = FillRequest {
                        symbol: sig.symbol@,
                        qty: sig.qty,
                        price: tick.price,
                        side: sig.side,
                        timestamp: tick.timestamp,
                    };
                    if accepted_fill(m2.ledger, f.symbol, f.qty, f.price, f.side) {
                        RunModel {
                            ledger: apply_fill_model(m2.ledger, f),
                            fills: m2.fills + 1,
                            ..m2
                        }
                    } else {
                        RunModel { ledger_rejected: m2.ledger_rejected + 1, ..m2 }
                    }
                },
            }
        },
    }
}

/// The whole run: the steps folded over the tick sequence, in order.
pub open spec fn spec_run(qty: u64, gate: RiskGate, m: RunModel, ticks: Seq<MarketTick>) -> RunModel
    decreases ticks.len(),
{
    if ticks.len() == 0 {
        m
    } else {
        spec_step(qty, gate, spec_run(qty, gate, m, ticks.drop_last()), ticks.last())
    }
}

/// The strategy-and-risk decision for one tick: the crossover signal,
/// kept only when the risk rules allow it.
pub open spec fn spec_gated_signal(qty: u64, gate: RiskGate, tick: MarketTick) -> Option<
    TradeSignal,
> {
    match spec_evaluate(qty, tick) {
        Some(sig) => if spec_validate(gate, sig) is Ok {
            Some(sig)
        } else {
            None
        },
        None => None,
    }
}

/// The gated signal decision for every tick of a sequence, in order.
pub open spec fn spec_signal_trace(qty: u64, gate: RiskGate, ticks: Seq<MarketTick>) -> Seq<
    Option<TradeSignal>,
> {
    ticks.map_values(|t: MarketTick| spec_gated_signal(qty, gate, t))
}

/// Determinism of replay: the signal sequence that the strategy engine
/// and the risk gate produce, and the whole run model, are functions of
/// the ordered tick sequence and the static configuration alone, so two
/// replays of the same data agree everywhere. (The executable pipeline
/// is pinned to these spec functions by its `ensures`, so this law
/// carries over to executions.)
pub proof fn lemma_replay_deterministic(
    qty: u64,
    gate: RiskGate,
    m: RunModel,
    ticks1: Seq<MarketTick>,
    ticks2: Seq<MarketTick>,
)
    requires
        ticks1 == ticks2,
    ensures
        spec_signal_trace(qty, gate, ticks1) == spec_signal_trace(qty, gate, ticks2),
        spec_run(qty, gate, m, ticks1) == spec_run(qty, gate, m, ticks2),
{
}

/// Cash invariant, end to end: however long the replayed tick sequence,
/// the pipeline's ledger never goes cash-negative — every prefix of a
/// run is itself a run, so this covers the state after each fill.
pub proof fn lemma_backtest_cash_never_negative(
    qty: u64,
    gate: RiskGate,
    m: RunModel,
    ticks: Seq<MarketTick>,
)
    requires
        m.ledger.cash >= 0,
    ensures
        spec_run(qty, gate, m, ticks).ledger.cash >= 0,
    decreases ticks.len(),
{
    if ticks.len() > 0 {
        lemma_backtest_cash_never_negative(qty, gate, m, ticks.drop_last());
        let prev = spec_run(qty, gate, m, ticks.drop_last());
        match spec_gated_signal(qty, gate, ticks.last()) {
            Some(sig) => {
                crate::ledger::lemma_cash_never_negative(
                    prev.ledger,
                    seq![
                        FillRequest {
                            symbol: sig.symbol@,
                            qty: sig.qty,
                            price: ticks.last().price,
                            side: sig.side,
                            timestamp: ticks.last().timestamp,
                        },
                    ],
                );
            },
            None => {},
        }
    }
}

/// Position invariant, end to end: no replayed sequence ever drives a
/// position below zero.
pub proof fn lemma_backtest_positions_never_negative(
    qty: u64,
    gate: RiskGate,
    m: RunModel,
    ticks: Seq<MarketTick>,
)
    requires
        crate::ledger::positions_nonneg(m.ledger),
    ensures
        crate::ledger::positions_nonneg(spec_run(qty, gate, m, ticks).ledger),
    decreases ticks.len(),
{
    if ticks.len() > 0 {
        lemma_backtest_positions_never_negative(qty, gate, m, ticks.drop_last());
        let prev = spec_run(qty, gate, m, ticks.drop_last());
        match spec_gated_signal(qty, gate, ticks.last()) {
            Some(sig) => {
                let f = FillRequest {
                    symbol: sig.symbol@,
                    qty: sig.qty,
                    price: ticks.last().price,
                    side: sig.side,
                    timestamp: ticks.last().timestamp,
                };
                let fs = seq![f];
                crate::ledger::lemma_position_never_negative(prev.ledger, fs);
                assert(fs.drop_last() =~= Seq::<FillRequest>::empty());
                assert(fs.last() == f);
                assert(crate::ledger::apply_fills(prev.ledger, fs.drop_last()) == prev.ledger);
                assert(crate::ledger::apply_fills(prev.ledger, fs) == apply_fill_model(
                    prev.ledger,
                    f,
                ));
            },
            None => {},
        }
    }
}

/// One trade per fill: a run appends exactly one trade record for each
/// accepted fill and none for anything else — rejected signals leave
/// the log alone.
pub proof fn lemma_one_trade_per_fill(
    qty: u64,
    gate: RiskGate,
    m: RunModel,
    ticks: Seq<MarketTick>,
)
    ensures
        spec_run(qty, gate, m, ticks).ledger.trades.len() - m.ledger.trades.len() == spec_run(
            qty,
            gate,
            m,
            ticks,
        ).fills - m.fills,
    decreases ticks.len(),
{
    if ticks.len() > 0 {
        lemma_one_trade_per_fill(qty, gate, m, ticks.drop_last());
    }
}

/// The final report of one backtest: the counters and the closing
/// portfolio snapshot. A run over zero records shows zero everywhere
/// and the portfolio exactly at its starting state — a reportable
/// outcome, not a failure.
#[derive(Debug)]
pub struct BacktestReport {
    pub ticks_processed: u64,
    pub signals_emitted: u64,
    pub risk_rejected: u64,
    pub fills: u64,
    pub ledger_rejected: u64,
    pub summary: PortfolioSummary,
}

/// Runs the simulated pipeline over the whole historical sequence:
/// replay clock to strategy to risk gate to simulated router to ledger.
/// Every field of the report equals the corresponding field of the
/// spec-level fold `spec_run`.
pub fn run_backtest(
    ticks: Vec<MarketTick>,
    starting_cash: u64,
    engine: StrategyEngine,
    gate: &RiskGate,
) -> (r: BacktestReport)
    requires
        engine.order_qty >= 1,
        ticks@.len() <= u64::MAX,
    ensures
        ({
            let m = spec_run(engine.order_qty, *gate, initial_run_model(starting_cash), ticks@);
            &&& r.ticks_processed == m.ticks == ticks@.len()
            &&& r.signals_emitted == m.signals
            &&& r.risk_rejected == m.risk_rejected
            &&& r.fills == m.fills
            &&& r.ledger_rejected == m.ledger_rejected
            &&& r.summary.cash as int == m.ledger.cash
            &&& pos_map(r.summary.positions@) == m.ledger.positions
            &&& r.summary.trade_count == m.ledger.trades.len()
        }),
{
    let ghost all_ticks = ticks@;
    let ghost init = initial_run_model(starting_cash);
    let mut clock = ReplayClock::new(ticks, 0);
    let mut router = SimulatedRouter::new(starting_cash);
    let mut ticks_processed: u64 = 0;
    let mut signals_emitted: u64 = 0;
    let mut risk_rejected: u64 = 0;
    let mut fills: u64 = 0;
    let mut ledger_rejected: u64 = 0;
    proof {
        assert(all_ticks.take(0) =~= Seq::<MarketTick>::empty());
    }
    while clock.remaining_count() > 0
        invariant
            clock.wf(),
            router.wf(),
            engine.order_qty >= 1,
            clock.ticks_seq() == all_ticks,
            all_ticks.len() <= u64::MAX,
            0 <= clock.position() <= all_ticks.len(),
            ({
                let m = spec_run(engine.order_qty, *gate, init, all_ticks.take(clock.position()));
                &&& router.ledger() == m.ledger
                &&& ticks_processed as int == m.ticks == clock.position()
                &&& signals_emitted as int == m.signals
                &&& risk_rejected as int == m.risk_rejected
                &&& fills as int == m.fills
                &&& ledger_rejected as int == m.ledger_rejected
                &&& m.signals <= m.ticks
                &&& m.risk_rejected <= m.signals
                &&& m.fills <= m.signals
                &&& m.ledger_rejected <= m.signals
            }),
        decreases all_ticks.len() - clock.position(),
    {
        let ghost pos0 = clock.position();
        let tick = clock.next_tick().unwrap();
        proof {
            assert(all_ticks.take(pos0 + 1).drop_last() =~= all_ticks.take(pos0));
            assert(all_ticks.take(pos0 + 1).last() == all_ticks[pos0]);
        }
        ticks_processed = ticks_processed + 1;
        match engine.evaluate(&tick) {
            None => {},
            Some(sig) => {
                signals_emitted = signals_emitted + 1;
                match gate.validate(&sig) {
                    Err(_) => {
                        risk_rejected = risk_rejected + 1;
                    },
                    Ok(_) => {
                        match router.execute(&sig, &tick) {
                            SimOutcome::Filled(_) => {
                                fills = fills + 1;
                            },
                            SimOutcome::LedgerRejected(_) => {
                                ledger_rejected = ledger_rejected + 1;
                            },
                            SimOutcome::OrderNotFound => {
                                proof {
                                    assert(false);
                                }
                            },
                        }
                    },
                }
            },
        }
    }
    proof {
        assert(all_ticks.take(clock.position()) =~= all_ticks);
    }
    BacktestReport {
        ticks_processed,
        signals_emitted,
        risk_rejected,
        fills,
        ledger_rejected,
        summary: router.summary(),
    }
}

/// The backtesting engine: a replay clock over preloaded historical
/// records and a simulated router that owns the portfolio. Loading the
/// records and choosing their source are the caller's; the engine takes
/// the loaded sequence as it is.
#[derive(Debug)]
pub struct BacktestEngine {
    clock: ReplayClock,
    router: SimulatedRouter,
}

impl BacktestEngine {
    /// The historical records this engine replays.
    pub closed spec fn ticks_seq(&self) -> Seq<MarketTick> {
        self.clock.ticks_seq()
    }

    /// How many records have been emitted so far.
    pub closed spec fn position(&self) -> int {
        self.clock.position()
    }

    /// The owned ledger, as its mathematical model.
    pub closed spec fn ledger(&self) -> LedgerModel {
        self.router.ledger()
    }

    /// Every order the simulated router resolved so far.
    pub closed spec fn orders_seq(&self) -> Seq<crate::order::Order> {
        self.router.orders_seq()
    }

    pub closed spec fn wf(&self) -> bool {
        self.clock.wf() && self.router.wf()
    }

    /// An engine over the given records with a fresh portfolio.
    pub fn new(historical_data: Vec<MarketTick>, starting_cash: u64, pace_ms: u64) -> (r:
        BacktestEngine)
        ensures
            r.wf(),
            r.ticks_seq() == historical_data@,
            r.position() == 0,
            r.ledger() == initial_run_model(starting_cash).ledger,
    {
        let r = BacktestEngine {
            clock: ReplayClock::new(historical_data, pace_ms),
            router: SimulatedRouter::new(starting_cash),
        };
        proof {
            assert(r.ledger() =~~= initial_run_model(starting_cash).ledger);
        }
        r
    }

    /// The configured inter-tick delay.
    pub closed spec fn spec_pace_ms(&self) -> u64 {
        self.clock.spec_pace_ms()
    }

    /// The configured inter-tick delay, for the caller's pacing between
    /// pulls.
    pub fn pace_ms(&self) -> (r: u64)
        ensures
            r == self.spec_pace_ms(),
    {
        self.clock.pace_ms()
    }

    /// How many historical records were loaded; `None` when there are
    /// none, so the caller can report an empty backtest and stop.
    pub fn get_historical_data_count(&self) -> (r: Option<usize>)
        ensures
            self.ticks_seq().len() > 0 ==> r == Some(self.ticks_seq().len() as usize),
            self.ticks_seq().len() == 0 ==> r is None,
    {
        let count = self.clock.tick_count();
        if count > 0 {
            Some(count)
        } else {
            None
        }
    }

    /// The next historical record, simulating a live stream; `None`
    /// once — and forever after — the data is exhausted.
    pub fn get_next_market_data(&mut self) -> (r: Option<MarketTick>)
        requires
            old(self).wf(),
        ensures
            final(self).wf(),
            final(self).ticks_seq() == old(self).ticks_seq(),
            final(self).ledger() == old(self).ledger(),
            final(self).orders_seq() == old(self).orders_seq(),
            old(self).position() < old(self).ticks_seq().len() ==> r == Some(
                old(self).ticks_seq()[old(self).position()],
            ) && final(self).position() == old(self).position() + 1,
            old(self).position() == old(self).ticks_seq().len() ==> r is None && *final(self)
                == *old(self),
    {
        self.clock.next_tick()
    }

    /// Executes one simulated trade at the record's price, against the
    /// owned ledger, exactly as the simulated router does.
    pub fn execute_trade(&mut self, trade_signal: &TradeSignal, market_data: &MarketTick) -> (r:
        SimOutcome)
        requires
            old(self).wf(),
            trade_signal.wf(),
        ensures
            final(self).wf(),
            final(self).ticks_seq() == old(self).ticks_seq(),
            final(self).position() == old(self).position(),
            trade_signal.side == Side::Cancel ==> r is OrderNotFound && *final(self) == *old(self),
            trade_signal.side != Side::Cancel ==> {
                &&& (r is Filled) == accepted_fill(
                    old(self).ledger(),
                    trade_signal.symbol@,
                    trade_signal.qty,
                    market_data.price,
                    trade_signal.side,
                )
                &&& final(self).ledger() == apply_fill_model(
                    old(self).ledger(),
                    FillRequest {
                        symbol: trade_signal.symbol@,
                        qty: trade_signal.qty,
                        price: market_data.price,
                        side: trade_signal.side,
                        timestamp: market_data.timestamp,
                    },
                )
                &&& (r matches SimOutcome::Filled(t) ==> t@ == crate::ledger::fill_trade(
                    trade_signal.symbol@,
                    trade_signal.qty,
                    market_data.price,
                    trade_signal.side,
                    market_data.timestamp,
                ))
                &&& (r matches SimOutcome::LedgerRejected(e) ==> final(self).ledger() == old(
                    self,
                ).ledger())
                &&& !(r is OrderNotFound)
            },
    {
        self.router.execute(trade_signal, market_data)
    }

    /// Read-only snapshot of the owned ledger, for the final report.
    pub fn summary(&self) -> (r: PortfolioSummary)
        requires
            self.wf(),
        ensures
            r.cash as int == self.ledger().cash,
            pos_map(r.positions@) == self.ledger().positions,
            r.trade_count == self.ledger().trades.len(),
    {
        self.router.summary()
    }
}

} // verus!
