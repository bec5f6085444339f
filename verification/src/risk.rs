//! Risk gate: stateless, rule-based validation of trade signals before
//! any order is constructed.
//!
//! Reference rules: reject a quantity above a configured ceiling, and
//! reject symbols that start with a configured disallowed prefix. A
//! rejected signal never reaches the execution router and never touches
//! the portfolio.

use vstd::prelude::*;
use vstd::string::StringSliceAdditionalSpecFns;
use vstd::utf8::encode_utf8;

use crate::signal::TradeSignal;

verus! {

/// Which rule a signal broke, for observability.
#[derive(Clone, Copy, Debug, PartialEq, Eq, Structural)]
pub enum RiskViolation {
    /// Quantity above the configured ceiling.
    QtyAboveCeiling,
    /// Symbol starts with the configured disallowed prefix.
    DisallowedSymbol,
}

/// `p` is a prefix of `s`, byte for byte.
pub open spec fn is_byte_prefix(p: Seq<u8>, s: Seq<u8>) -> bool {
    p.len() <= s.len() && s.subrange(0, p.len() as int) == p
}

/// The text `p` starts the text `s` (compared on their UTF-8 bytes,
/// which for valid text is the same as comparing the characters).
pub open spec fn is_text_prefix(p: Seq<char>, s: Seq<char>) -> bool {
    is_byte_prefix(encode_utf8(p), encode_utf8(s))
}

/// The static rules one gate applies. Configuration, not policy: the
/// ceiling and the prefix come from the caller at startup.
#[derive(Clone, Debug)]
pub struct RiskGate {
    pub max_qty: u64,
    pub blocked_prefix: String,
}

/// The outcome of validation for any signal: the quantity ceiling is
/// checked before the symbol prefix.
pub open spec fn spec_validate(gate: RiskGate, sig: TradeSignal) -> Result<(), RiskViolation> {
    if sig.qty > gate.max_qty {
        Err(RiskViolation::QtyAboveCeiling)
    } else if is_text_prefix(gate.blocked_prefix@, sig.symbol@) {
        Err(RiskViolation::DisallowedSymbol)
    } else {
        Ok(())
    }
}

/// Does `s` start with `p`, byte for byte?
fn str_has_prefix(s: &str, p: &str) -> (r: bool)
    ensures
        r == is_text_prefix(p@, s@),
{
    let sb = s.as_bytes();
    let pb = p.as_bytes();
    if pb.len() > sb.len() {
        return false;
    }
    let n = pb.len();
    let mut i: usize = 0;
    while i < n
        invariant
            n == pb@.len(),
            n <= sb@.len(),
            i <= n,
            sb@ == s.spec_bytes(),
            pb@ == p.spec_bytes(),
            forall|k: int| 0 <= k < i ==> sb@[k] == pb@[k],
        decreases n - i,
    {
        if sb[i] != pb[i] {
            proof {
                assert(s.spec_bytes().subrange(0, n as int)[i as int] == sb@[i as int]);
            }
            return false;
        }
        i += 1;
    }
    proof {
        assert(s.spec_bytes().subrange(0, n as int) =~= p.spec_bytes());
    }
    true
}

impl RiskGate {
    /// A gate with the given quantity ceiling and disallowed symbol
    /// prefix.
    pub fn new(max_qty: u64, blocked_prefix: String) -> (r: RiskGate)
        ensures
            r.max_qty == max_qty,
            r.blocked_prefix@ == blocked_prefix@,
    {
        RiskGate { max_qty, blocked_prefix }
    }

    /// Validates one signal against the static rules. Stateless; the
    /// verdict is pinned to `spec_validate`, so the same signal always
    /// gets the same verdict.
    pub fn validate(&self, signal: &TradeSignal) -> (r: Result<(), RiskViolation>)
        ensures
            r == spec_validate(*self, *signal),
    {
        if signal.qty > self.max_qty {
            return Err(RiskViolation::QtyAboveCeiling);
        }
        if str_has_prefix(signal.symbol.as_str(), self.blocked_prefix.as_str()) {
            return Err(RiskViolation::DisallowedSymbol);
        }
        Ok(())
    }
}

/// Quantity ceiling of the reference rules.
pub const DEFAULT_MAX_QTY: u64 = 1000;

/// The rules at their default values: ceiling 1000, symbols starting
/// with "OTC" disallowed. True exactly when validation succeeds.
pub fn validate_trade(trade_signal: &TradeSignal) -> (r: bool)
    ensures
        r == (trade_signal.qty <= DEFAULT_MAX_QTY && !is_text_prefix(
            "OTC"@,
            trade_signal.symbol@,
        )),
{
    let gate = RiskGate::new(DEFAULT_MAX_QTY, "OTC".to_owned());
    gate.validate(trade_signal).is_ok()
}

} // verus!
