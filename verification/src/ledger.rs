//! Portfolio ledger: the authoritative record of cash, positions and
//! executed trades.
//!
//! The ledger is mutated only by accepted fills. The balance check and
//! the mutation happen inside one call, so no caller ever observes a
//! partially applied fill, and a rejected fill leaves the ledger exactly
//! as it was.
//!
//! Cash and prices are integer currency units (for example cents), and
//! quantities are whole shares, so every rule here is exact integer
//! arithmetic.

use vstd::prelude::*;

use crate::order::Order;
use crate::tick::MarketTick;
use crate::signal::Side;
use crate::signal::TradeSignal;

verus! {

/// One symbol's holding. Quantities are whole shares and never negative.
#[derive(Clone, Debug)]
pub struct PositionEntry {
    pub symbol: String,
    pub qty: u64,
}

/// Append-only record of one executed fill. Never mutated after creation.
#[derive(Clone, Debug)]
pub struct ExecutedTrade {
    pub symbol: String,
    pub qty: u64,
    pub price: u64,
    pub side: Side,
    pub timestamp: u64,
}

/// Why a fill was rejected. All three are expected business outcomes:
/// the caller reports them and continues, and the ledger is unchanged.
#[derive(Clone, Copy, Debug, PartialEq, Eq, Structural)]
pub enum LedgerError {
    /// A buy whose cost exceeds the cash on hand.
    InsufficientCash,
    /// A sell of more shares than the position holds.
    InsufficientPosition,
    /// The fill would push cash or a position past the integer range
    /// the ledger can represent; rejected rather than applied wrongly.
    Overflow,
}

/// Mathematical model of an executed trade.
pub ghost struct TradeModel {
    pub symbol: Seq<char>,
    pub qty: int,
    pub price: int,
    pub side: Side,
    pub timestamp: int,
}

/// Mathematical model of the ledger: cash and positions as unbounded
/// integers, positions as a map from symbol to quantity, and the trade
/// log as a sequence.
#[verifier::ext_equal]
pub ghost struct LedgerModel {
    pub cash: int,
    pub positions: Map<Seq<char>, int>,
    pub trades: Seq<TradeModel>,
}

impl LedgerModel {
    /// The quantity held for a symbol; zero when the symbol has never
    /// been bought.
    pub open spec fn position(self, sym: Seq<char>) -> int {
        if self.positions.contains_key(sym) {
            self.positions[sym]
        } else {
            0
        }
    }
}

/// Cost (or proceeds) of a fill, as an unbounded integer.
pub open spec fn fill_cost(price: u64, qty: u64) -> int {
    price * qty
}

/// When a fill may be applied: a buy must be covered by cash and a sell
/// by the position, and the resulting cash or position must stay inside
/// the ledger's integer range.
pub open spec fn accepted_fill(
    m: LedgerModel,
    sym: Seq<char>,
    qty: u64,
    price: u64,
    side: Side,
) -> bool {
    match side {
        Side::Buy => fill_cost(price, qty) <= m.cash && m.position(sym) + qty <= u64::MAX,
        Side::Sell => qty <= m.position(sym) && m.cash + fill_cost(price, qty) <= u64::MAX,
        Side::Cancel => false,
    }
}

/// The trade record an accepted fill appends.
pub open spec fn fill_trade(
    sym: Seq<char>,
    qty: u64,
    price: u64,
    side: Side,
    timestamp: u64,
) -> TradeModel {
    TradeModel {
        symbol: sym,
        qty: qty as int,
        price: price as int,
        side: side,
        timestamp: timestamp as int,
    }
}

/// The ledger after an accepted fill: cash moves by the fill's cost,
/// the position moves by its quantity, and exactly one trade is logged.
pub open spec fn apply_accepted_fill(
    m: LedgerModel,
    sym: Seq<char>,
    qty: u64,
    price: u64,
    side: Side,
    timestamp: u64,
) -> LedgerModel {
    match side {
        Side::Buy => LedgerModel {
            cash: m.cash - fill_cost(price, qty),
            positions: m.positions.insert(sym, m.position(sym) + qty),
            trades: m.trades.push(fill_trade(sym, qty, price, side, timestamp)),
        },
        Side::Sell => LedgerModel {
            cash: m.cash + fill_cost(price, qty),
            positions: m.positions.insert(sym, m.position(sym) - qty),
            trades: m.trades.push(fill_trade(sym, qty, price, side, timestamp)),
        },
        Side::Cancel => m,
    }
}

/// One fill request, as the model sees it.
pub ghost struct FillRequest {
    pub symbol: Seq<char>,
    pub qty: u64,
    pub price: u64,
    pub side: Side,
    pub timestamp: u64,
}

/// The ledger after one fill request: applied when accepted, untouched
/// otherwise.
pub open spec fn apply_fill_model(m: LedgerModel, f: FillRequest) -> LedgerModel {
    if accepted_fill(m, f.symbol, f.qty, f.price, f.side) {
        apply_accepted_fill(m, f.symbol, f.qty, f.price, f.side, f.timestamp)
    } else {
        m
    }
}

/// The ledger after a whole sequence of fill requests, in order.
pub open spec fn apply_fills(m: LedgerModel, fs: Seq<FillRequest>) -> LedgerModel
    decreases fs.len(),
{
    if fs.len() == 0 {
        m
    } else {
        apply_fill_model(apply_fills(m, fs.drop_last()), fs.last())
    }
}

/// Every position the model holds is nonnegative.
pub open spec fn positions_nonneg(m: LedgerModel) -> bool {
    forall|s: Seq<char>| #[trigger] m.position(s) >= 0
}

/// The cost of a fill is never negative.
proof fn lemma_fill_cost_nonneg(price: u64, qty: u64)
    ensures
        fill_cost(price, qty) >= 0,
{
    assert(price * qty >= 0) by (nonlinear_arith)
        requires
            price >= 0,
            qty >= 0,
    ;
}

/// Cash invariant: however long the sequence of buy and sell fills, the
/// ledger's cash is never negative after any of them. (Intermediate
/// states are covered because the sequence here is arbitrary: every
/// prefix of a run is itself a run.)
pub proof fn lemma_cash_never_negative(m: LedgerModel, fs: Seq<FillRequest>)
    requires
        m.cash >= 0,
    ensures
        apply_fills(m, fs).cash >= 0,
    decreases fs.len(),
{
    if fs.len() > 0 {
        lemma_cash_never_negative(m, fs.drop_last());
        let f = fs.last();
        lemma_fill_cost_nonneg(f.price, f.qty);
    }
}

/// Position invariant: no sell is ever applied that would push a
/// position below zero, so every position stays nonnegative through any
/// sequence of fills.
pub proof fn lemma_position_never_negative(m: LedgerModel, fs: Seq<FillRequest>)
    requires
        positions_nonneg(m),
    ensures
        positions_nonneg(apply_fills(m, fs)),
    decreases fs.len(),
{
    if fs.len() > 0 {
        lemma_position_never_negative(m, fs.drop_last());
        let prev = apply_fills(m, fs.drop_last());
        let f = fs.last();
        let next = apply_fill_model(prev, f);
        assert forall|s: Seq<char>| #[trigger] next.position(s) >= 0 by {
            assert(prev.position(s) >= 0);
            assert(prev.position(f.symbol) >= 0);
        }
    }
}

/// Idempotent rejection: a fill the ledger rejects mutates nothing and
/// appends no trade.
pub proof fn lemma_rejected_fill_no_mutation(m: LedgerModel, f: FillRequest)
    requires
        !accepted_fill(m, f.symbol, f.qty, f.price, f.side),
    ensures
        apply_fill_model(m, f) == m,
        apply_fill_model(m, f).trades == m.trades,
{
}

/// No two entries of a position table speak of the same symbol.
pub open spec fn symbols_unique(s: Seq<PositionEntry>) -> bool {
    forall|i: int, j: int| 0 <= i < j < s.len() ==> s[i].symbol@ != s[j].symbol@
}

/// The map a position table denotes.
pub open spec fn pos_map(s: Seq<PositionEntry>) -> Map<Seq<char>, int>
    decreases s.len(),
{
    if s.len() == 0 {
        Map::empty()
    } else {
        pos_map(s.drop_last()).insert(s.last().symbol@, s.last().qty as int)
    }
}

/// The sequence of trade models a trade log denotes.
pub open spec fn trades_seq(s: Seq<ExecutedTrade>) -> Seq<TradeModel> {
    s.map_values(|t: ExecutedTrade| t@)
}

impl View for ExecutedTrade {
    type V = TradeModel;

    open spec fn view(&self) -> TradeModel {
        TradeModel {
            symbol: self.symbol@,
            qty: self.qty as int,
            price: self.price as int,
            side: self.side,
            timestamp: self.timestamp as int,
        }
    }
}

/// A symbol that appears nowhere in the table is not in its map.
proof fn lemma_pos_map_absent(s: Seq<PositionEntry>, sym: Seq<char>)
    requires
        forall|i: int| 0 <= i < s.len() ==> s[i].symbol@ != sym,
    ensures
        !pos_map(s).contains_key(sym),
    decreases s.len(),
{
    if s.len() > 0 {
        lemma_pos_map_absent(s.drop_last(), sym);
    }
}

/// In a table without duplicate symbols, the map agrees with each entry.
proof fn lemma_pos_map_at(s: Seq<PositionEntry>, i: int)
    requires
        symbols_unique(s),
        0 <= i < s.len(),
    ensures
        pos_map(s).contains_key(s[i].symbol@),
        pos_map(s)[s[i].symbol@] == s[i].qty as int,
    decreases s.len(),
{
    if i == s.len() - 1 {
    } else {
        lemma_pos_map_at(s.drop_last(), i);
    }
}

/// Replacing one entry's quantity is, on the map, one insert.
proof fn lemma_pos_map_update(s: Seq<PositionEntry>, i: int, e: PositionEntry)
    requires
        symbols_unique(s),
        0 <= i < s.len(),
        e.symbol@ == s[i].symbol@,
    ensures
        pos_map(s.update(i, e)) =~= pos_map(s).insert(e.symbol@, e.qty as int),
    decreases s.len(),
{
    if i == s.len() - 1 {
        assert(s.update(i, e).drop_last() =~= s.drop_last());
    } else {
        lemma_pos_map_update(s.drop_last(), i, e);
        assert(s.update(i, e).drop_last() =~= s.drop_last().update(i, e));
    }
}

/// The trade record for one fill, built fresh for the log and for the
/// caller.
fn make_trade(order: &Order, fill_price: u64, timestamp: u64) -> (t: ExecutedTrade)
    ensures
        t@ == fill_trade(order.symbol@, order.qty, fill_price, order.side, timestamp),
{
    ExecutedTrade {
        symbol: order.symbol.clone(),
        qty: order.qty,
        price: fill_price,
        side: order.side,
        timestamp,
    }
}

/// Cash, positions and the ordered trade log. Owned by the simulated
/// execution router during a backtest; mutated only through
/// `apply_fill`.
#[derive(Debug)]
pub struct Portfolio {
    cash: u64,
    positions: Vec<PositionEntry>,
    trade_log: Vec<ExecutedTrade>,
}

/// Read-only snapshot of the ledger for reporting.
#[derive(Debug)]
pub struct PortfolioSummary {
    pub cash: u64,
    pub positions: Vec<PositionEntry>,
    pub trade_count: usize,
}

impl View for Portfolio {
    type V = LedgerModel;

    closed spec fn view(&self) -> LedgerModel {
        LedgerModel {
            cash: self.cash as int,
            positions: pos_map(self.positions@),
            trades: trades_seq(self.trade_log@),
        }
    }
}

impl Portfolio {
    /// The position table never names a symbol twice.
    pub closed spec fn wf(&self) -> bool {
        symbols_unique(self.positions@)
    }

    /// A fresh ledger: the starting cash, no positions, no trades.
    pub fn new(starting_cash: u64) -> (r: Portfolio)
        ensures
            r.wf(),
            r@.cash == starting_cash,
            r@.positions == Map::<Seq<char>, int>::empty(),
            r@.trades == Seq::<TradeModel>::empty(),
    {
        let r = Portfolio { cash: starting_cash, positions: Vec::new(), trade_log: Vec::new() };
        proof {
            assert(r@.trades =~= Seq::<TradeModel>::empty());
        }
        r
    }

    /// Index of the symbol's entry in the position table, if any.
    fn find_position(&self, symbol: &String) -> (r: Option<usize>)
        ensures
            match r {
                Some(i) => i < self.positions.len() && self.positions[i as int].symbol@
                    == symbol@,
                None => forall|i: int|
                    0 <= i < self.positions.len() ==> self.positions[i].symbol@ != symbol@,
            },
    {
        let n = self.positions.len();
        let mut j: usize = 0;
        while j < n
            invariant
                n == self.positions.len(),
                j <= n,
                forall|k: int| 0 <= k < j ==> self.positions[k].symbol@ != symbol@,
            decreases n - j,
        {
            if self.positions[j].symbol == *symbol {
                return Some(j);
            }
            j += 1;
        }
        None
    }

    /// Applies one fill atomically: the cash or position check and the
    /// mutation happen inside this one call.
    ///
    /// An accepted fill moves cash and the position and appends exactly
    /// one trade. A rejected fill returns which rule failed and leaves
    /// the ledger exactly as it was.
    pub fn apply_fill(&mut self, order: &Order, fill_price: u64, timestamp: u64) -> (r: Result<
        ExecutedTrade,
        LedgerError,
    >)
        requires
            old(self).wf(),
            order.wf(),
        ensures
            final(self).wf(),
            (r is Ok) == accepted_fill(
                old(self)@,
                order.symbol@,
                order.qty,
                fill_price,
                order.side,
            ),
            (r matches Ok(t) ==> t@ == fill_trade(
                order.symbol@,
                order.qty,
                fill_price,
                order.side,
                timestamp,
            ) && final(self)@ == apply_accepted_fill(
                old(self)@,
                order.symbol@,
                order.qty,
                fill_price,
                order.side,
                timestamp,
            )),
            r is Err ==> *final(self) == *old(self),
            final(self)@ == apply_fill_model(
                old(self)@,
                FillRequest {
                    symbol: order.symbol@,
                    qty: order.qty,
                    price: fill_price,
                    side: order.side,
                    timestamp,
                },
            ),
            (r matches Err(LedgerError::InsufficientCash) <==> order.side == Side::Buy
                && fill_cost(fill_price, order.qty) > old(self)@.cash),
            (r matches Err(LedgerError::InsufficientPosition) <==> order.side == Side::Sell
                && old(self)@.position(order.symbol@) < order.qty),
            (r matches Err(LedgerError::Overflow) <==> (order.side == Side::Buy && fill_cost(
                fill_price,
                order.qty,
            ) <= old(self)@.cash && old(self)@.position(order.symbol@) + order.qty > u64::MAX) || (
            order.side == Side::Sell && order.qty <= old(self)@.position(order.symbol@) && old(
                self,
            )@.cash + fill_cost(fill_price, order.qty) > u64::MAX)),
    {
        let idx = self.find_position(&order.symbol);
        proof {
            match idx {
                Some(i) => lemma_pos_map_at(self.positions@, i as int),
                None => lemma_pos_map_absent(self.positions@, order.symbol@),
            }
        }
        match order.side {
            Side::Buy => {
                let cost_opt = fill_price.checked_mul(order.qty);
                match cost_opt {
                    Some(cost) => {
                        if cost <= self.cash {
                            self.apply_buy_funded(order, fill_price, cost, timestamp, idx)
                        } else {
                            Err(LedgerError::InsufficientCash)
                        }
                    },
                    None => Err(LedgerError::InsufficientCash),
                }
            },
            Side::Sell => {
                let held = match idx {
                    Some(i) => self.positions[i].qty,
                    None => 0,
                };
                if order.qty > held {
                    Err(LedgerError::InsufficientPosition)
                } else {
                    let i = idx.unwrap();
                    let cost_opt = fill_price.checked_mul(order.qty);
                    let new_cash_opt = match cost_opt {
                        Some(cost) => self.cash.checked_add(cost),
                        None => None,
                    };
                    match new_cash_opt {
                        Some(new_cash) => {
                            let ghost prev = *self;
                            self.positions[i].qty = held - order.qty;
                            proof {
                                let e = PositionEntry {
                                    symbol: prev.positions@[i as int].symbol,
                                    qty: (held - order.qty) as u64,
                                };
                                assert(self.positions@ =~= prev.positions@.update(i as int, e));
                                lemma_pos_map_update(prev.positions@, i as int, e);
                            }
                            self.cash = new_cash;
                            let trade = make_trade(order, fill_price, timestamp);
                            self.trade_log.push(trade);
                            proof {
                                assert(self@.trades =~= prev@.trades.push(
                                    fill_trade(
                                        order.symbol@,
                                        order.qty,
                                        fill_price,
                                        order.side,
                                        timestamp,
                                    ),
                                ));
                                assert(self@ =~~= apply_accepted_fill(
                                    prev@,
                                    order.symbol@,
                                    order.qty,
                                    fill_price,
                                    order.side,
                                    timestamp,
                                ));
                            }
                            Ok(make_trade(order, fill_price, timestamp))
                        },
                        None => Err(LedgerError::Overflow),
                    }
                }
            },
            Side::Cancel => {
                // excluded by `order.wf()`
                proof {
                    assert(false);
                }
                Err(LedgerError::Overflow)
            },
        }
    }

    /// Buy leg of `apply_fill`, once the cost is known to be covered.
    fn apply_buy_funded(
        &mut self,
        order: &Order,
        fill_price: u64,
        cost: u64,
        timestamp: u64,
        idx: Option<usize>,
    ) -> (r: Result<ExecutedTrade, LedgerError>)
        requires
            old(self).wf(),
            order.wf(),
            order.side == Side::Buy,
            cost == fill_cost(fill_price, order.qty),
            cost <= old(self).cash,
            old(self)@.cash == old(self).cash as int,
            match idx {
                Some(i) => i < old(self).positions.len() && old(self).positions[i as int].symbol@
                    == order.symbol@ && old(self)@.position(order.symbol@) == old(
                    self,
                ).positions[i as int].qty as int,
                None => forall|k: int|
                    0 <= k < old(self).positions.len() ==> old(self).positions[k].symbol@
                        != order.symbol@,
            },
        ensures
            final(self).wf(),
            (r is Ok) == accepted_fill(
                old(self)@,
                order.symbol@,
                order.qty,
                fill_price,
                order.side,
            ),
            (r matches Ok(t) ==> t@ == fill_trade(
                order.symbol@,
                order.qty,
                fill_price,
                order.side,
                timestamp,
            ) && final(self)@ == apply_accepted_fill(
                old(self)@,
                order.symbol@,
                order.qty,
                fill_price,
                order.side,
                timestamp,
            )),
            r is Err ==> *final(self) == *old(self) && r matches Err(LedgerError::Overflow),
    {
        let ghost prev = *self;
        match idx {
            Some(i) => {
                let held = self.positions[i].qty;
                match held.checked_add(order.qty) {
                    Some(new_qty) => {
                        self.positions[i].qty = new_qty;
                        proof {
                            let e = PositionEntry {
                                symbol: prev.positions@[i as int].symbol,
                                qty: new_qty,
                            };
                            assert(self.positions@ =~= prev.positions@.update(i as int, e));
                            lemma_pos_map_update(prev.positions@, i as int, e);
                        }
                        self.cash = self.cash - cost;
                        let trade = make_trade(order, fill_price, timestamp);
                        self.trade_log.push(trade);
                        proof {
                            assert(self@.trades =~= prev@.trades.push(
                                fill_trade(
                                    order.symbol@,
                                    order.qty,
                                    fill_price,
                                    order.side,
                                    timestamp,
                                ),
                            ));
                            assert(self@ =~~= apply_accepted_fill(
                                prev@,
                                order.symbol@,
                                order.qty,
                                fill_price,
                                order.side,
                                timestamp,
                            ));
                        }
                        Ok(make_trade(order, fill_price, timestamp))
                    },
                    None => Err(LedgerError::Overflow),
                }
            },
            None => {
                proof {
                    lemma_pos_map_absent(prev.positions@, order.symbol@);
                }
                self.positions.push(PositionEntry { symbol: order.symbol.clone(), qty: order.qty });
                proof {
                    assert(self.positions@.drop_last() =~= prev.positions@);
                    assert(symbols_unique(self.positions@));
                }
                self.cash = self.cash - cost;
                let trade = make_trade(order, fill_price, timestamp);
                self.trade_log.push(trade);
                proof {
                    assert(self@.trades =~= prev@.trades.push(
                        fill_trade(order.symbol@, order.qty, fill_price, order.side, timestamp),
                    ));
                    assert(self@ =~~= apply_accepted_fill(
                        prev@,
                        order.symbol@,
                        order.qty,
                        fill_price,
                        order.side,
                        timestamp,
                    ));
                }
                Ok(make_trade(order, fill_price, timestamp))
            },
        }
    }

    /// Executes one simulated trade: the signal fills immediately at
    /// the market record's price. The checks and the outcome are
    /// exactly `apply_fill`'s, with the trade stamped by the record's
    /// timestamp.
    pub fn execute_trade(&mut self, signal: &TradeSignal, market_data: &MarketTick) -> (r: Result<
        ExecutedTrade,
        LedgerError,
    >)
        requires
            old(self).wf(),
            signal.wf(),
            signal.side != Side::Cancel,
        ensures
            final(self).wf(),
            (r is Ok) == accepted_fill(
                old(self)@,
                signal.symbol@,
                signal.qty,
                market_data.price,
                signal.side,
            ),
            (r matches Ok(t) ==> t@ == fill_trade(
                signal.symbol@,
                signal.qty,
                market_data.price,
                signal.side,
                market_data.timestamp,
            ) && final(self)@ == apply_accepted_fill(
                old(self)@,
                signal.symbol@,
                signal.qty,
                market_data.price,
                signal.side,
                market_data.timestamp,
            )),
            r is Err ==> *final(self) == *old(self),
            final(self)@ == apply_fill_model(
                old(self)@,
                FillRequest {
                    symbol: signal.symbol@,
                    qty: signal.qty,
                    price: market_data.price,
                    side: signal.side,
                    timestamp: market_data.timestamp,
                },
            ),
    {
        let order = Order::from_signal(signal);
        self.apply_fill(&order, market_data.price, market_data.timestamp)
    }

    /// Read-only snapshot: cash, a copy of the positions, and the trade
    /// count. Takes the ledger by shared reference, so it cannot mutate
    /// anything.
    pub fn summary(&self) -> (r: PortfolioSummary)
        requires
            self.wf(),
        ensures
            r.cash as int == self@.cash,
            pos_map(r.positions@) == self@.positions,
            symbols_unique(r.positions@),
            r.trade_count == self@.trades.len(),
    {
        let mut positions: Vec<PositionEntry> = Vec::new();
        let n = self.positions.len();
        let mut j: usize = 0;
        while j < n
            invariant
                n == self.positions.len(),
                j <= n,
                positions@ =~= self.positions@.subrange(0, j as int),
            decreases n - j,
        {
            let e = PositionEntry {
                symbol: self.positions[j].symbol.clone(),
                qty: self.positions[j].qty,
            };
            positions.push(e);
            j += 1;
        }
        proof {
            assert(positions@ =~= self.positions@);
        }
        PortfolioSummary { cash: self.cash, positions, trade_count: self.trade_log.len() }
    }

    /// Quantity currently held for a symbol; zero when none is held.
    pub fn position_qty(&self, symbol: &String) -> (r: u64)
        requires
            self.wf(),
        ensures
            r as int == self@.position(symbol@),
    {
        let idx = self.find_position(symbol);
        proof {
            match idx {
                Some(i) => lemma_pos_map_at(self.positions@, i as int),
                None => lemma_pos_map_absent(self.positions@, symbol@),
            }
        }
        match idx {
            Some(i) => self.positions[i].qty,
            None => 0,
        }
    }

    /// Cash currently on hand.
    pub fn cash(&self) -> (r: u64)
        ensures
            r as int == self@.cash,
    {
        self.cash
    }

    /// Number of trades recorded so far.
    pub fn trade_count(&self) -> (r: usize)
        ensures
            r == self@.trades.len(),
    {
        self.trade_log.len()
    }
}

} // verus!
