//! Orders and their lifecycle state machine.
//!
//! An order is owned by the execution router during its lifetime and is
//! referenced read-only by the portfolio ledger once filled. Its state
//! moves along `Created -> Submitted -> {Filled | Rejected |
//! CanceledByCaller | CanceledByVenue}` and never backwards.

use vstd::prelude::*;

use crate::signal::Side;
use crate::signal::TradeSignal;

verus! {

/// Lifecycle state of an order.
#[derive(Clone, Copy, Debug, PartialEq, Eq, Structural)]
pub enum OrderState {
    Created,
    Submitted,
    Filled,
    Rejected,
    CanceledByCaller,
    CanceledByVenue,
}

/// The transitions the order lifecycle admits: an order is submitted
/// once, and a submitted order resolves exactly once.
pub open spec fn order_step_allowed(from: OrderState, to: OrderState) -> bool {
    match (from, to) {
        (OrderState::Created, OrderState::Submitted) => true,
        (OrderState::Submitted, OrderState::Filled) => true,
        (OrderState::Submitted, OrderState::Rejected) => true,
        (OrderState::Submitted, OrderState::CanceledByCaller) => true,
        (OrderState::Submitted, OrderState::CanceledByVenue) => true,
        _ => false,
    }
}

/// A terminal state admits no further transition.
pub open spec fn order_state_terminal(s: OrderState) -> bool {
    forall|t: OrderState| !order_step_allowed(s, t)
}

/// An order: a risk-checked signal on its way through the execution
/// backend. The broker-assigned identifier exists exactly from the
/// moment the backend accepts the submission.
#[derive(Clone, Debug)]
pub struct Order {
    pub symbol: String,
    pub qty: u64,
    pub side: Side,
    pub state: OrderState,
    pub id: Option<u64>,
}

impl Order {
    /// Well-formed orders carry a positive quantity, are never cancel
    /// requests (a cancel is a signal side, not an order), and hold a
    /// broker identifier if and only if they have been submitted.
    pub open spec fn wf(&self) -> bool {
        &&& self.qty >= 1
        &&& self.side != Side::Cancel
        &&& (self.id is Some <==> self.state != OrderState::Created)
    }

    /// Builds a fresh order from a risk-approved signal.
    pub fn from_signal(signal: &TradeSignal) -> (r: Order)
        requires
            signal.wf(),
            signal.side != Side::Cancel,
        ensures
            r.wf(),
            r.state == OrderState::Created,
            r.symbol@ == signal.symbol@,
            r.qty == signal.qty,
            r.side == signal.side,
            r.id is None,
    {
        Order {
            symbol: signal.symbol.clone(),
            qty: signal.qty,
            side: signal.side,
            state: OrderState::Created,
            id: None,
        }
    }

    /// Marks the order submitted under the identifier the backend
    /// assigned on acceptance.
    pub fn submit(&mut self, id: u64)
        requires
            old(self).wf(),
            old(self).state == OrderState::Created,
        ensures
            final(self).wf(),
            order_step_allowed(old(self).state, final(self).state),
            final(self).state == OrderState::Submitted,
            final(self).id == Some(id),
            final(self).symbol == old(self).symbol,
            final(self).qty == old(self).qty,
            final(self).side == old(self).side,
    {
        self.state = OrderState::Submitted;
        self.id = Some(id);
    }

    /// A fresh order record equal to this one, field for field.
    pub fn duplicate_record(&self) -> (r: Order)
        ensures
            r == *self,
    {
        Order {
            symbol: self.symbol.clone(),
            qty: self.qty,
            side: self.side,
            state: self.state,
            id: self.id,
        }
    }

    /// Resolves a submitted order into one of its terminal states.
    pub fn resolve(&mut self, outcome: OrderState)
        requires
            old(self).wf(),
            old(self).state == OrderState::Submitted,
            order_step_allowed(OrderState::Submitted, outcome),
        ensures
            final(self).wf(),
            order_step_allowed(old(self).state, final(self).state),
            final(self).state == outcome,
            order_state_terminal(final(self).state),
            final(self).id == old(self).id,
            final(self).symbol == old(self).symbol,
            final(self).qty == old(self).qty,
            final(self).side == old(self).side,
    {
        self.state = outcome;
    }
}

} // verus!
