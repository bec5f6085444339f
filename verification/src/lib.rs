//! Verified core of a market-data and trading pipeline: tick
//! normalization, pub/sub distribution with per-key ordering, signal
//! generation, risk gating, order execution and a portfolio ledger,
//! plus the replay clock that drives backtests.

pub mod bus;
pub mod config;
pub mod ledger;
pub mod order;
pub mod replay;
pub mod risk;
pub mod router;
pub mod signal;
pub mod strategy;
pub mod tick;
