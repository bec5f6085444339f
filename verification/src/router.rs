//! Execution router: turns risk-approved signals into orders.
//!
//! Two interchangeable variants share the order lifecycle of
//! `crate::order`. The simulated variant owns the portfolio ledger and
//! fills immediately at the tick price that produced the signal. The
//! live variant holds the in-flight orders and decides; the caller
//! performs the actual backend calls and feeds the results and venue
//! events back in as plain values.

use vstd::prelude::*;

use crate::ledger::ExecutedTrade;
use crate::ledger::FillRequest;
use crate::ledger::LedgerError;
use crate::ledger::LedgerModel;
use crate::ledger::Portfolio;
use crate::ledger::PortfolioSummary;
use crate::ledger::accepted_fill;
use crate::ledger::apply_fill_model;
use crate::ledger::fill_cost;
use crate::ledger::fill_trade;
use crate::order::Order;
use crate::order::OrderState;
use crate::order::order_state_terminal;
use crate::signal::Side;
use crate::signal::TradeSignal;
use crate::tick::MarketTick;

verus! {

/// What the simulated router reports for one signal.
#[derive(Debug)]
pub enum SimOutcome {
    /// The fill was applied to the ledger; here is its trade record.
    Filled(ExecutedTrade),
    /// The ledger rejected the fill; the ledger is unchanged and the
    /// caller continues with later signals.
    LedgerRejected(LedgerError),
    /// A cancel signal found no in-flight order. A no-op report, not a
    /// failure: simulated orders resolve the moment they are placed, so
    /// nothing is ever in flight.
    OrderNotFound,
}

/// Simulated execution: orders are submitted and resolved in one step,
/// filling directly against the owned portfolio ledger at the tick
/// price that generated the signal.
#[derive(Debug)]
pub struct SimulatedRouter {
    portfolio: Portfolio,
    orders: Vec<Order>,
}

impl SimulatedRouter {
    /// The ledger the router owns, as its mathematical model.
    pub closed spec fn ledger(&self) -> LedgerModel {
        self.portfolio@
    }

    /// Every order this router ever resolved, oldest first.
    pub closed spec fn orders_seq(&self) -> Seq<Order> {
        self.orders@
    }

    /// The portfolio is well formed and every recorded order is well
    /// formed and terminal: the simulated path leaves nothing in
    /// flight.
    pub closed spec fn wf(&self) -> bool {
        &&& self.portfolio.wf()
        &&& forall|i: int|
            0 <= i < self.orders@.len() ==> (#[trigger] self.orders@[i]).wf()
                && order_state_terminal(self.orders@[i].state)
    }

    /// A simulated router over a fresh ledger with the given starting
    /// cash.
    pub fn new(starting_cash: u64) -> (r: SimulatedRouter)
        ensures
            r.wf(),
            r.ledger().cash == starting_cash,
            r.ledger().positions == Map::<Seq<char>, int>::empty(),
            r.ledger().trades == Seq::<crate::ledger::TradeModel>::empty(),
            r.orders_seq() == Seq::<Order>::empty(),
    {
        let r = SimulatedRouter { portfolio: Portfolio::new(starting_cash), orders: Vec::new() };
        proof {
            assert(r.orders@ =~= Seq::<Order>::empty());
        }
        r
    }

    /// Routes one risk-approved signal. A buy or sell becomes an order,
    /// is submitted, and fills (or is rejected) immediately at the tick
    /// price; exactly one resolved order is recorded either way. A
    /// cancel finds nothing in flight and reports that as a no-op.
    pub fn execute(&mut self, signal: &TradeSignal, tick: &MarketTick) -> (r: SimOutcome)
        requires
            old(self).wf(),
            signal.wf(),
        ensures
            final(self).wf(),
            signal.side == Side::Cancel ==> r is OrderNotFound && *final(self) == *old(self),
            signal.side != Side::Cancel ==> {
                &&& (r is Filled) == accepted_fill(
                    old(self).ledger(),
                    signal.symbol@,
                    signal.qty,
                    tick.price,
                    signal.side,
                )
                &&& (r matches SimOutcome::Filled(t) ==> t@ == fill_trade(
                    signal.symbol@,
                    signal.qty,
                    tick.price,
                    signal.side,
                    tick.timestamp,
                ))
                &&& final(self).ledger() == apply_fill_model(
                    old(self).ledger(),
                    FillRequest {
                        symbol: signal.symbol@,
                        qty: signal.qty,
                        price: tick.price,
                        side: signal.side,
                        timestamp: tick.timestamp,
                    },
                )
                &&& (r matches SimOutcome::LedgerRejected(e) ==> old(self).ledger()
                    == final(self).ledger())
                &&& (r matches SimOutcome::LedgerRejected(LedgerError::InsufficientCash)
                    <==> signal.side == Side::Buy && fill_cost(tick.price, signal.qty) > old(
                    self,
                ).ledger().cash)
                &&& (r matches SimOutcome::LedgerRejected(LedgerError::InsufficientPosition)
                    <==> signal.side == Side::Sell && old(self).ledger().position(signal.symbol@)
                    < signal.qty)
                &&& !(r is OrderNotFound)
                &&& final(self).orders_seq().len() == old(self).orders_seq().len() + 1
                &&& {
                    let o = final(self).orders_seq().last();
                    &&& o.symbol@ == signal.symbol@
                    &&& o.qty == signal.qty
                    &&& o.side == signal.side
                    &&& o.state == if r is Filled {
                        OrderState::Filled
                    } else {
                        OrderState::Rejected
                    }
                }
                &&& final(self).orders_seq().drop_last() == old(self).orders_seq()
            },
    {
        if signal.side == Side::Cancel {
            return SimOutcome::OrderNotFound;
        }
        let mut order = Order::from_signal(signal);
        let id = self.orders.len() as u64;
        order.submit(id);
        let res = self.portfolio.apply_fill(&order, tick.price, tick.timestamp);
        match res {
            Ok(trade) => {
                order.resolve(OrderState::Filled);
                self.orders.push(order);
                proof {
                    assert(self.orders@.drop_last() =~= old(self).orders@);
                }
                SimOutcome::Filled(trade)
            },
            Err(e) => {
                order.resolve(OrderState::Rejected);
                self.orders.push(order);
                proof {
                    assert(self.orders@.drop_last() =~= old(self).orders@);
                }
                SimOutcome::LedgerRejected(e)
            },
        }
    }

    /// Read-only snapshot of the owned ledger.
    pub fn summary(&self) -> (r: PortfolioSummary)
        requires
            self.wf(),
        ensures
            r.cash as int == self.ledger().cash,
            crate::ledger::pos_map(r.positions@) == self.ledger().positions,
            r.trade_count == self.ledger().trades.len(),
    {
        self.portfolio.summary()
    }

    /// Quantity the owned ledger holds for a symbol.
    pub fn position_qty(&self, symbol: &String) -> (r: u64)
        requires
            self.wf(),
        ensures
            r as int == self.ledger().position(symbol@),
    {
        self.portfolio.position_qty(symbol)
    }

    /// Cash the owned ledger holds.
    pub fn cash(&self) -> (r: u64)
        ensures
            r as int == self.ledger().cash,
    {
        self.portfolio.cash()
    }
}

/// What the live router asks its caller to do next with the backend.
#[derive(Debug)]
pub enum LiveDirective {
    /// Call `place(symbol, qty, side)` on the backend, then report the
    /// result through `on_placed` or `on_place_failed`.
    Place { symbol: String, qty: u64, side: Side },
    /// Call `cancel(order_id)` on the backend; the matching order has
    /// already moved to `CanceledByCaller`.
    CancelAtVenue { order_id: u64 },
    /// The cancel matched no in-flight order: report `OrderNotFound`
    /// and continue; nothing changed.
    NoMatchingOrder,
}

/// Live execution decisions. The router holds the in-flight orders and
/// their lifecycle; the caller owns every actual backend call and every
/// retry decision, and reports backend results and venue events back
/// here as plain values.
#[derive(Debug)]
pub struct LiveRouter {
    inflight: Vec<Order>,
    resolved: Vec<Order>,
}

/// The same order with another lifecycle state.
pub open spec fn with_state(o: Order, s: OrderState) -> Order {
    Order { state: s, ..o }
}

impl LiveRouter {
    /// Orders awaiting venue resolution, oldest first.
    pub closed spec fn inflight_seq(&self) -> Seq<Order> {
        self.inflight@
    }

    /// Orders that reached a terminal state, in resolution order.
    pub closed spec fn resolved_seq(&self) -> Seq<Order> {
        self.resolved@
    }

    /// Every in-flight order is well formed and submitted; every
    /// resolved order is well formed and terminal.
    pub closed spec fn wf(&self) -> bool {
        &&& forall|i: int|
            0 <= i < self.inflight@.len() ==> (#[trigger] self.inflight@[i]).wf()
                && self.inflight@[i].state == OrderState::Submitted
        &&& forall|i: int|
            0 <= i < self.resolved@.len() ==> (#[trigger] self.resolved@[i]).wf()
                && order_state_terminal(self.resolved@[i].state)
    }

    /// A live router with nothing in flight.
    pub fn new() -> (r: LiveRouter)
        ensures
            r.wf(),
            r.inflight_seq() == Seq::<Order>::empty(),
            r.resolved_seq() == Seq::<Order>::empty(),
    {
        let r = LiveRouter { inflight: Vec::new(), resolved: Vec::new() };
        proof {
            assert(r.inflight@ =~= Seq::<Order>::empty());
            assert(r.resolved@ =~= Seq::<Order>::empty());
        }
        r
    }

    /// Index of the oldest in-flight order for a symbol, if any.
    fn find_inflight_by_symbol(&self, symbol: &String) -> (r: Option<usize>)
        ensures
            match r {
                Some(i) => i < self.inflight@.len() && self.inflight@[i as int].symbol@ == symbol@
                    && forall|k: int| 0 <= k < i ==> self.inflight@[k].symbol@ != symbol@,
                None => forall|i: int|
                    0 <= i < self.inflight@.len() ==> self.inflight@[i].symbol@ != symbol@,
            },
    {
        let n = self.inflight.len();
        let mut j: usize = 0;
        while j < n
            invariant
                n == self.inflight.len(),
                j <= n,
                forall|k: int| 0 <= k < j ==> self.inflight@[k].symbol@ != symbol@,
            decreases n - j,
        {
            if self.inflight[j].symbol == *symbol {
                return Some(j);
            }
            j += 1;
        }
        None
    }

    /// Index of the oldest in-flight order with a venue identifier.
    fn find_inflight_by_id(&self, order_id: u64) -> (r: Option<usize>)
        ensures
            match r {
                Some(i) => i < self.inflight@.len() && self.inflight@[i as int].id == Some(
                    order_id,
                ),
                None => forall|i: int|
                    0 <= i < self.inflight@.len() ==> self.inflight@[i].id != Some(order_id),
            },
    {
        let n = self.inflight.len();
        let mut j: usize = 0;
        while j < n
            invariant
                n == self.inflight.len(),
                j <= n,
                forall|k: int| 0 <= k < j ==> self.inflight@[k].id != Some(order_id),
            decreases n - j,
        {
            match self.inflight[j].id {
                Some(id) if id == order_id => {
                    return Some(j);
                },
                _ => {
                    j += 1;
                },
            }
        }
        None
    }

    /// Decides what one risk-approved signal means for the backend. A
    /// buy or sell asks the caller to place an order; a cancel moves
    /// the oldest matching in-flight order to `CanceledByCaller` and
    /// asks the caller to cancel it at the venue, or reports that
    /// nothing matched.
    pub fn on_signal(&mut self, signal: &TradeSignal) -> (r: LiveDirective)
        requires
            old(self).wf(),
            signal.wf(),
        ensures
            final(self).wf(),
            final(self).resolved_seq().len() >= old(self).resolved_seq().len(),
            signal.side != Side::Cancel ==> *final(self) == *old(self) && (r matches
                LiveDirective::Place { symbol, qty, side } && symbol@ == signal.symbol@ && qty
                == signal.qty && side == signal.side),
            signal.side == Side::Cancel ==> match r {
                LiveDirective::CancelAtVenue { order_id } => exists|i: int|
                    {
                        &&& 0 <= i < old(self).inflight_seq().len()
                        &&& (#[trigger] old(self).inflight_seq()[i]).symbol@ == signal.symbol@
                        &&& old(self).inflight_seq()[i].id == Some(order_id)
                        &&& final(self).inflight_seq() == old(self).inflight_seq().remove(i)
                        &&& final(self).resolved_seq() == old(self).resolved_seq().push(
                            with_state(old(self).inflight_seq()[i], OrderState::CanceledByCaller),
                        )
                    },
                LiveDirective::NoMatchingOrder => *final(self) == *old(self) && forall|i: int|
                    0 <= i < old(self).inflight_seq().len() ==> old(
                        self,
                    ).inflight_seq()[i].symbol@ != signal.symbol@,
                _ => false,
            },
    {
        if signal.side != Side::Cancel {
            return LiveDirective::Place {
                symbol: signal.symbol.clone(),
                qty: signal.qty,
                side: signal.side,
            };
        }
        match self.find_inflight_by_symbol(&signal.symbol) {
            Some(i) => {
                let ghost prev = *self;
                let mut order = self.inflight.remove(i);
                let order_id = match order.id {
                    Some(id) => id,
                    None => {
                        proof {
                            assert(false);
                        }
                        0
                    },
                };
                order.resolve(OrderState::CanceledByCaller);
                self.resolved.push(order);
                proof {
                    assert(self.resolved@ =~= prev.resolved_seq().push(
                        with_state(prev.inflight_seq()[i as int], OrderState::CanceledByCaller),
                    ));
                }
                LiveDirective::CancelAtVenue { order_id }
            },
            None => LiveDirective::NoMatchingOrder,
        }
    }

    /// Records a backend acceptance: the order the caller placed is now
    /// submitted under the venue's identifier and sits in flight. A
    /// backend error, by contrast, never creates an order at all: the
    /// caller reports it as a rejection and may decide about retries
    /// itself.
    pub fn on_placed(&mut self, signal: &TradeSignal, order_id: u64)
        requires
            old(self).wf(),
            signal.wf(),
            signal.side != Side::Cancel,
        ensures
            final(self).wf(),
            final(self).resolved_seq() == old(self).resolved_seq(),
            final(self).inflight_seq().len() == old(self).inflight_seq().len() + 1,
            final(self).inflight_seq().drop_last() == old(self).inflight_seq(),
            ({
                let o = final(self).inflight_seq().last();
                &&& o.symbol@ == signal.symbol@
                &&& o.qty == signal.qty
                &&& o.side == signal.side
                &&& o.state == OrderState::Submitted
                &&& o.id == Some(order_id)
            }),
    {
        let mut order = Order::from_signal(signal);
        order.submit(order_id);
        self.inflight.push(order);
        proof {
            assert(self.inflight@.drop_last() =~= old(self).inflight@);
        }
    }

    /// Applies one venue event to the matching in-flight order: a fill
    /// confirmation, a venue-side rejection, or a venue-side cancel.
    /// Returns the resolved order (for the caller's reconciliation and
    /// reporting), or `None` when no in-flight order carries that
    /// identifier.
    pub fn on_venue_event(&mut self, order_id: u64, outcome: OrderState) -> (r: Option<Order>)
        requires
            old(self).wf(),
            outcome == OrderState::Filled || outcome == OrderState::Rejected || outcome
                == OrderState::CanceledByVenue,
        ensures
            final(self).wf(),
            match r {
                Some(o) => {
                    &&& o.id == Some(order_id)
                    &&& o.state == outcome
                    &&& exists|i: int|
                        {
                            &&& 0 <= i < old(self).inflight_seq().len()
                            &&& (#[trigger] old(self).inflight_seq()[i]).id == Some(order_id)
                            &&& o == with_state(old(self).inflight_seq()[i], outcome)
                            &&& final(self).inflight_seq() == old(self).inflight_seq().remove(i)
                        }
                    &&& final(self).resolved_seq() == old(self).resolved_seq().push(o)
                },
                None => *final(self) == *old(self) && forall|i: int|
                    0 <= i < old(self).inflight_seq().len() ==> old(self).inflight_seq()[i].id
                        != Some(order_id),
            },
    {
        match self.find_inflight_by_id(order_id) {
            Some(i) => {
                let ghost prev = *self;
                let mut order = self.inflight.remove(i);
                order.resolve(outcome);
                let out = order.duplicate_record();
                self.resolved.push(order);
                proof {
                    assert(self.resolved@ =~= prev.resolved_seq().push(
                        with_state(prev.inflight_seq()[i as int], outcome),
                    ));
                }
                Some(out)
            },
            None => None,
        }
    }

    /// How many orders are currently in flight.
    pub fn inflight_count(&self) -> (r: usize)
        ensures
            r == self.inflight_seq().len(),
    {
        self.inflight.len()
    }
}

} // verus!
