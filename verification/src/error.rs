//! The engine's error type.
use vstd::prelude::*;

verus! {

/// Errors raised by the engine's components.
#[derive(Debug)]
pub enum SovereignError {
    /// A data provider failed (network, rate-limit, malformed upstream payload).
    Data { provider: String, reason: String },
    /// All providers in a fallback chain were exhausted.
    AllProvidersFailed { key: String, tried: usize },
    /// A quantitative model received numerically invalid input or diverged.
    Quant { model: String, reason: String },
    /// A risk gate vetoed an action.
    RiskVeto { gate: String, reason: String },
    /// Configuration could not be loaded or validated.
    Config(String),
    /// A requested service was not registered.
    ServiceMissing(String),
    /// A sub-system panicked and was caught by a fault boundary.
    Panic { component: String, message: String },
    /// The engine halted itself (kill switch / axiom breaker / thermal guard),
    /// or a broker refused to act.
    Halted(String),
}

impl SovereignError {
    /// A data-provider failure.
    pub fn data(provider: String, reason: String) -> (e: Self)
        ensures
            e == (SovereignError::Data { provider, reason }),
    {
        SovereignError::Data { provider, reason }
    }

    /// A quant-model failure.
    pub fn quant(model: String, reason: String) -> (e: Self)
        ensures
            e == (SovereignError::Quant { model, reason }),
    {
        SovereignError::Quant { model, reason }
    }
}

/// Result type of the engine's fallible operations.
pub type Result<T> = core::result::Result<T, SovereignError>;

} // verus!
