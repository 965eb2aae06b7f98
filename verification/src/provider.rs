//! Provider health, surfaced to the dashboard.
use vstd::prelude::*;

verus! {

/// Health of a data provider.
#[derive(Debug, Clone, Copy, PartialEq, Eq, Structural)]
pub enum Health {
    Healthy,
    Degraded,
    Down,
}

} // verus!
