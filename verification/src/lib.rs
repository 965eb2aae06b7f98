//! Verified core of the Sovereign trading engine: the domain model, the
//! guards, the key pool, the data-source circuit-breaker rules and the
//! contract router.
use vstd::prelude::*;

pub mod affinity;
pub mod automaton;
pub mod broker;
pub mod circuit;
pub mod config;
pub mod contract;
pub mod domain;
pub mod error;
pub mod fallback;
pub mod fault;
pub mod killswitch;
pub mod llm;
pub mod pool;
pub mod provider;
pub mod sec_edgar;
pub mod selfheal;
pub mod spectral;
pub mod text;
pub mod turbulence;

verus! {

} // verus!
