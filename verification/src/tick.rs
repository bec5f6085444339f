//! Tick normalizer: turns provider-specific payload fields into one
//! canonical `MarketTick`.
//!
//! Providers disagree about which fields a message carries; the
//! normalizer fails closed (`NormalizationError::Malformed`) when a
//! required field is missing or its timestamp text does not parse,
//! and it never invents a value for an absent optional field.
//!
//! Prices are integer currency units (for example cents); timestamps
//! are Unix seconds and must be non-decreasing per symbol across a
//! provider's stream.

use vstd::prelude::*;

verus! {

/// One normalized market-data observation. Immutable once created.
#[derive(Clone, Debug)]
pub struct MarketTick {
    pub symbol: String,
    pub price: u64,
    pub bid: Option<u64>,
    pub ask: Option<u64>,
    pub moving_average_50: Option<u64>,
    pub moving_average_200: Option<u64>,
    pub timestamp: u64,
}

impl MarketTick {
    /// A fresh tick equal to this one, field for field.
    pub fn duplicate(&self) -> (r: MarketTick)
        ensures
            r == *self,
    {
        MarketTick {
            symbol: self.symbol.clone(),
            price: self.price,
            bid: self.bid,
            ask: self.ask,
            moving_average_50: self.moving_average_50,
            moving_average_200: self.moving_average_200,
            timestamp: self.timestamp,
        }
    }
}

/// The fields one provider message may carry, before normalization.
/// Absent fields stay absent; numeric fields are already integer
/// currency units.
#[derive(Clone, Debug)]
pub struct RawPayload {
    pub symbol: Option<String>,
    pub price: Option<u64>,
    pub bid: Option<u64>,
    pub ask: Option<u64>,
    pub moving_average_50: Option<u64>,
    pub moving_average_200: Option<u64>,
    pub timestamp_text: Option<String>,
}

/// Why a payload was dropped. Per-message and recoverable: the caller
/// logs it and continues with the stream.
#[derive(Clone, Copy, Debug, PartialEq, Eq, Structural)]
pub enum NormalizationError {
    /// A required field is missing or fails coercion (for example an
    /// unparsable timestamp).
    Malformed,
}

/// The Unix second count an RFC 3339 text denotes, if it denotes one.
pub uninterp spec fn rfc3339_secs(s: Seq<char>) -> Option<i64>;

/// Relies on chrono's `DateTime::parse_from_rfc3339` and
/// `DateTime::timestamp`: the parse reads only the text (the offset is
/// part of it), and the timestamp is a function of the parsed instant,
/// so the result is a function of the text alone.
#[verifier::external_body]
fn parse_rfc3339_secs(s: &str) -> (r: Option<i64>)
    ensures
        r == rfc3339_secs(s@),
{
    match chrono::DateTime::parse_from_rfc3339(s) {
        Ok(dt) => Some(dt.timestamp()),
        Err(_) => None,
    }
}

/// What normalization returns for every possible payload: the canonical
/// tick exactly when symbol, price and a parsable, non-negative
/// timestamp are all present, and `Malformed` otherwise.
pub open spec fn spec_normalize(raw: RawPayload) -> Result<MarketTick, NormalizationError> {
    if raw.symbol is Some && raw.price is Some && raw.timestamp_text is Some {
        match rfc3339_secs(raw.timestamp_text->0@) {
            Some(secs) => if secs >= 0 {
                Ok(
                    MarketTick {
                        symbol: raw.symbol->0,
                        price: raw.price->0,
                        bid: raw.bid,
                        ask: raw.ask,
                        moving_average_50: raw.moving_average_50,
                        moving_average_200: raw.moving_average_200,
                        timestamp: secs as u64,
                    },
                )
            } else {
                Err(NormalizationError::Malformed)
            },
            None => Err(NormalizationError::Malformed),
        }
    } else {
        Err(NormalizationError::Malformed)
    }
}

/// Normalizes one provider payload. Pure transformation, no side
/// effects; fails closed rather than defaulting a missing field.
pub fn normalize(raw: &RawPayload) -> (r: Result<MarketTick, NormalizationError>)
    ensures
        r == spec_normalize(*raw),
{
    let symbol = match &raw.symbol {
        Some(s) => s.clone(),
        None => {
            return Err(NormalizationError::Malformed);
        },
    };
    let price = match raw.price {
        Some(p) => p,
        None => {
            return Err(NormalizationError::Malformed);
        },
    };
    let ts_text = match &raw.timestamp_text {
        Some(t) => t,
        None => {
            return Err(NormalizationError::Malformed);
        },
    };
    match parse_rfc3339_secs(ts_text.as_str()) {
        Some(secs) => {
            if secs >= 0 {
                Ok(
                    MarketTick {
                        symbol,
                        price,
                        bid: raw.bid,
                        ask: raw.ask,
                        moving_average_50: raw.moving_average_50,
                        moving_average_200: raw.moving_average_200,
                        timestamp: secs as u64,
                    },
                )
            } else {
                Err(NormalizationError::Malformed)
            }
        },
        None => Err(NormalizationError::Malformed),
    }
}

} // verus!
