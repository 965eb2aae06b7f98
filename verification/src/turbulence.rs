//! Flow regimes of the microstructure turbulence diagnostic.
use vstd::prelude::*;

verus! {

/// Flow regime classification.
#[derive(Debug, Clone, Copy, PartialEq, Eq, Structural)]
pub enum FlowRegime {
    /// Orderly directional flow — trade with the trend.
    Laminar,
    /// Mixed.
    Transitional,
    /// Chaotic / panic — switch to market-making, widen risk controls.
    Turbulent,
}

impl FlowRegime {
    /// Whether the engine should prefer market-making over directional bets:
    /// only in turbulent flow.
    pub fn prefer_market_making(&self) -> (b: bool)
        ensures
            b == (*self == FlowRegime::Turbulent),
    {
        matches!(self, FlowRegime::Turbulent)
    }
}

} // verus!
