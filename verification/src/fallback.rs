//! The multi-source fallback waterfall: providers are tried in priority
//! order (index 0 is the primary), the first one that yields at least one
//! sane bar wins, and the result is marked degraded when a fallback had to be
//! used. When every provider fails, the error says how many were tried.
//!
//! The waterfall is a state machine: [`fallback_start`] gives the first
//! action, and after each provider has answered, [`fallback_step`] turns its
//! outcome into the next action. Fetching from a provider is left to the
//! caller, which reports back how the fetch went as a [`ProviderOutcome`].
use vstd::prelude::*;

use crate::domain::{spec_yf_ticker, Instrument};
use crate::error::SovereignError;

verus! {

/// How a provider's fetch went.
#[derive(Debug, Clone, Copy, PartialEq, Eq, Structural)]
pub enum ProviderOutcome {
    /// The fetch failed.
    Failed,
    /// The fetch returned no sane bar.
    NoSaneBars,
    /// The fetch returned at least one sane bar.
    SaneBars,
}

/// What the waterfall does next.
#[derive(Debug, Clone, Copy, PartialEq, Eq, Structural)]
pub enum FallbackAction {
    /// Use the bars of provider `index`; `degraded` when it is not the primary.
    Accept { index: usize, degraded: bool },
    /// Fetch from provider `index`.
    TryNext { index: usize },
    /// Every provider failed; `tried` of them were asked.
    AllFailed { tried: usize },
}

/// The first action of a waterfall over `n` providers.
pub open spec fn spec_start(n: nat) -> FallbackAction {
    if n == 0 {
        FallbackAction::AllFailed { tried: 0 }
    } else {
        FallbackAction::TryNext { index: 0 }
    }
}

/// The action after provider `idx` of `n` answered with `outcome`.
pub open spec fn spec_step(idx: nat, n: nat, outcome: ProviderOutcome) -> FallbackAction {
    if outcome == ProviderOutcome::SaneBars {
        FallbackAction::Accept { index: idx as usize, degraded: idx > 0 }
    } else if idx + 1 < n {
        FallbackAction::TryNext { index: (idx + 1) as usize }
    } else {
        FallbackAction::AllFailed { tried: n as usize }
    }
}

/// The first action of a waterfall over `n` providers: ask the primary, or
/// fail at once when there is no provider.
pub fn fallback_start(n: usize) -> (a: FallbackAction)
    ensures
        a == spec_start(n as nat),
        n == 0 ==> a == (FallbackAction::AllFailed { tried: 0 }),
        n > 0 ==> a == (FallbackAction::TryNext { index: 0 }),
{
    if n == 0 {
        FallbackAction::AllFailed { tried: 0 }
    } else {
        FallbackAction::TryNext { index: 0 }
    }
}

/// The action after provider `idx` of `n` answered: accept its bars when
/// some are sane (degraded unless it is the primary), else ask the next
/// provider, or fail after the last one.
pub fn fallback_step(idx: usize, n: usize, outcome: ProviderOutcome) -> (a: FallbackAction)
    requires
        idx < n,
    ensures
        a == spec_step(idx as nat, n as nat, outcome),
        outcome == ProviderOutcome::SaneBars ==> a == (FallbackAction::Accept { index: idx, degraded: idx > 0 }),
        outcome != ProviderOutcome::SaneBars && idx + 1 < n ==> a == (FallbackAction::TryNext {
            index: (idx + 1) as usize,
        }),
        outcome != ProviderOutcome::SaneBars && idx + 1 == n ==> a == (FallbackAction::AllFailed { tried: n }),
{
    if outcome == ProviderOutcome::SaneBars {
        FallbackAction::Accept { index: idx, degraded: idx > 0 }
    } else if idx + 1 < n {
        FallbackAction::TryNext { index: idx + 1 }
    } else {
        FallbackAction::AllFailed { tried: n }
    }
}

/// The error the waterfall ends with when every provider failed: the
/// instrument's canonical ticker and how many providers were tried.
pub fn all_failed(instrument: &Instrument, tried: usize) -> (e: SovereignError)
    ensures
        e matches SovereignError::AllProvidersFailed { key, tried: t } && key@ == spec_yf_ticker(instrument@)
            && t == tried,
{
    SovereignError::AllProvidersFailed { key: instrument.yf_ticker(), tried }
}

/// The index of the first provider, from `from` on, whose outcome has sane
/// bars.
pub open spec fn first_sane(o: Seq<ProviderOutcome>, from: nat) -> Option<nat>
    decreases o.len() - from,
{
    if from >= o.len() {
        None
    } else if o[from as int] == ProviderOutcome::SaneBars {
        Some(from)
    } else {
        first_sane(o, from + 1)
    }
}

/// What the waterfall gives when the providers answer with `o`, in order:
/// the first provider with sane bars (degraded unless it is the primary), or
/// failure after all of them were tried.
pub open spec fn waterfall_result(o: Seq<ProviderOutcome>) -> FallbackAction {
    match first_sane(o, 0) {
        Some(i) => FallbackAction::Accept { index: i as usize, degraded: i > 0 },
        None => FallbackAction::AllFailed { tried: o.len() as usize },
    }
}

/// Driving the state machine from provider `idx` on, with the providers
/// answering `o`: each `TryNext` is followed by that provider's outcome.
pub open spec fn drive_from(o: Seq<ProviderOutcome>, idx: nat) -> FallbackAction
    decreases o.len() - idx,
{
    if idx >= o.len() {
        FallbackAction::AllFailed { tried: o.len() as usize }
    } else {
        match spec_step(idx, o.len(), o[idx as int]) {
            FallbackAction::TryNext { .. } => drive_from(o, idx + 1),
            a => a,
        }
    }
}

/// The final action of the state machine when the providers answer `o`.
pub open spec fn drive(o: Seq<ProviderOutcome>) -> FallbackAction {
    match spec_start(o.len()) {
        FallbackAction::TryNext { .. } => drive_from(o, 0),
        a => a,
    }
}

proof fn lemma_drive_from(o: Seq<ProviderOutcome>, idx: nat)
    requires
        idx < o.len(),
        o.len() <= usize::MAX,
    ensures
        drive_from(o, idx) == match first_sane(o, idx) {
            Some(i) => FallbackAction::Accept { index: i as usize, degraded: i > 0 },
            None => FallbackAction::AllFailed { tried: o.len() as usize },
        },
    decreases o.len() - idx,
{
    if o[idx as int] != ProviderOutcome::SaneBars {
        if idx + 1 < o.len() {
            lemma_drive_from(o, idx + 1);
        } else {
            assert(first_sane(o, idx + 1) is None);
        }
    }
}

/// Law: the waterfall accepts the first provider that yields sane bars,
/// marked degraded exactly when it is not the primary, and fails, reporting
/// every provider as tried, when none does.
pub proof fn lemma_waterfall(o: Seq<ProviderOutcome>)
    requires
        o.len() <= usize::MAX,
    ensures
        drive(o) == waterfall_result(o),
{
    if o.len() > 0 {
        lemma_drive_from(o, 0);
    }
}

} // verus!
