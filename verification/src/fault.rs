//! Fault boundary: isolates a panicking sub-system so that one bad component
//! cannot take the whole engine down. Repeated faults ("a fault storm")
//! escalate to the [`GlobalKillSwitch`].
//!
//! Catching the panic happens around the work itself; this module holds the
//! boundary's state and what it decides once a panic was caught.
use std::sync::atomic::{AtomicU32, Ordering};

use vstd::prelude::*;

use crate::error::SovereignError;
use crate::killswitch::{GlobalKillSwitch, KillReason};
use crate::text::string_of;

verus! {

/// Wraps fallible, possibly-panicking work in an isolation boundary.
#[derive(Debug)]
pub struct FaultBoundary {
    name: String,
    faults: AtomicU32,
    max_faults: u32,
    kill_switch: Option<GlobalKillSwitch>,
}

/// Whether the `n`-th fault reaches the storm threshold.
pub open spec fn is_storm_count(n: u32, max_faults: u32) -> bool {
    n >= max_faults
}

impl FaultBoundary {
    /// The component name reported in errors.
    pub closed spec fn spec_name(&self) -> Seq<char> {
        self.name@
    }

    /// How many faults make a storm.
    pub closed spec fn spec_max_faults(&self) -> u32 {
        self.max_faults
    }

    /// Whether a kill switch is attached.
    pub closed spec fn has_kill_switch(&self) -> bool {
        self.kill_switch is Some
    }

    /// The kill switch a fault storm trips, if one is attached.
    pub closed spec fn spec_kill_switch(&self) -> Option<GlobalKillSwitch> {
        self.kill_switch
    }

    /// New boundary that tolerates up to `max_faults` panics (at least one)
    /// before it is a storm.
    pub fn new(name: &str, max_faults: u32) -> (fb: Self)
        ensures
            fb.spec_name() == name@,
            fb.spec_max_faults() == if max_faults == 0 { 1 } else { max_faults },
            !fb.has_kill_switch(),
            fb.spec_kill_switch() is None,
    {
        FaultBoundary {
            name: string_of(name),
            faults: AtomicU32::new(0),
            max_faults: if max_faults == 0 { 1 } else { max_faults },
            kill_switch: None,
        }
    }

    /// Escalate fault storms to a shared kill switch.
    pub fn with_kill_switch(self, ks: GlobalKillSwitch) -> (fb: Self)
        ensures
            fb.spec_name() == self.spec_name(),
            fb.spec_max_faults() == self.spec_max_faults(),
            fb.has_kill_switch(),
            fb.spec_kill_switch() == Some(ks),
    {
        FaultBoundary { kill_switch: Some(ks), ..self }
    }

    /// Record a panic that was caught while running this boundary's work:
    /// counts the fault, trips the attached kill switch with
    /// [`KillReason::FaultStorm`] once the count reaches the threshold, and
    /// returns the error that reports the panic.
    pub fn record_panic(&self, message: String) -> (e: SovereignError)
        ensures
            e matches SovereignError::Panic { component, message: m } && component@ == self.spec_name() && m == message,
    {
        let previous = self.faults.fetch_add(1, Ordering::SeqCst);
        let n = previous.wrapping_add(1);
        if storm_reached(n, self.max_faults) {
            if let Some(ks) = &self.kill_switch {
                ks.trip(KillReason::FaultStorm);
            }
        }
        SovereignError::Panic { component: self.name.clone(), message }
    }

    /// Total faults seen.
    pub fn fault_count(&self) -> u32 {
        self.faults.load(Ordering::SeqCst)
    }

    /// Whether the fault threshold has been reached.
    pub fn is_storm(&self) -> bool {
        storm_reached(self.fault_count(), self.max_faults)
    }

    /// Clear the fault counter (after a recovery).
    pub fn reset(&self) {
        self.faults.store(0, Ordering::SeqCst);
    }
}

/// Whether a fault count reaches the storm threshold.
pub fn storm_reached(count: u32, max_faults: u32) -> (b: bool)
    ensures
        b == is_storm_count(count, max_faults),
{
    count >= max_faults
}

} // verus!
