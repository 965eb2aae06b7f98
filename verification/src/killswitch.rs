//! The global kill switch: a lock-free halt flag shared by every task, plus
//! the reason of the first trip.
//!
//! The flag and the reason code live in atomics behind `Arc`s, so that all
//! clones of a switch share them. The values the atomics hold are not tracked
//! by the proofs (other clones may change them at any time); what is verified
//! is the encoding of reasons into the stored code and the decision a trip
//! makes ([`code_to_store`]), whose effect [`spec_trip`] describes.
use std::sync::atomic::{AtomicBool, AtomicU8, Ordering};
use std::sync::Arc;

use vstd::prelude::*;

verus! {

/// Why the engine was halted.
#[derive(Debug, Clone, Copy, PartialEq, Eq, Structural)]
pub enum KillReason {
    NoReason,
    Manual,
    Drawdown,
    BlackSwan,
    Thermal,
    FaultStorm,
    AxiomBreak,
}

/// The code that stands for a reason in the shared atomic.
pub open spec fn reason_code(r: KillReason) -> u8 {
    match r {
        KillReason::NoReason => 0,
        KillReason::Manual => 1,
        KillReason::Drawdown => 2,
        KillReason::BlackSwan => 3,
        KillReason::Thermal => 4,
        KillReason::FaultStorm => 5,
        KillReason::AxiomBreak => 6,
    }
}

/// The reason a stored code stands for; unknown codes read as no reason.
pub open spec fn reason_of_code(v: u8) -> KillReason {
    if v == 1 {
        KillReason::Manual
    } else if v == 2 {
        KillReason::Drawdown
    } else if v == 3 {
        KillReason::BlackSwan
    } else if v == 4 {
        KillReason::Thermal
    } else if v == 5 {
        KillReason::FaultStorm
    } else if v == 6 {
        KillReason::AxiomBreak
    } else {
        KillReason::NoReason
    }
}

/// Law: decoding the stored code of a reason gives the reason back.
pub proof fn lemma_reason_code_roundtrip(r: KillReason)
    ensures
        reason_of_code(reason_code(r)) == r,
        reason_code(r) <= 6,
{
}

impl KillReason {
    fn from_u8(v: u8) -> (r: Self)
        ensures
            r == reason_of_code(v),
    {
        match v {
            1 => KillReason::Manual,
            2 => KillReason::Drawdown,
            3 => KillReason::BlackSwan,
            4 => KillReason::Thermal,
            5 => KillReason::FaultStorm,
            6 => KillReason::AxiomBreak,
            _ => KillReason::NoReason,
        }
    }

    /// The code stored for this reason.
    pub fn code(self) -> (v: u8)
        ensures
            v == reason_code(self),
    {
        match self {
            KillReason::NoReason => 0,
            KillReason::Manual => 1,
            KillReason::Drawdown => 2,
            KillReason::BlackSwan => 3,
            KillReason::Thermal => 4,
            KillReason::FaultStorm => 5,
            KillReason::AxiomBreak => 6,
        }
    }

    /// The label of the reason.
    pub open spec fn label(self) -> Seq<char> {
        match self {
            KillReason::NoReason => seq!['N', 'O', 'N', 'E'],
            KillReason::Manual => seq!['M', 'A', 'N', 'U', 'A', 'L'],
            KillReason::Drawdown => seq!['D', 'R', 'A', 'W', 'D', 'O', 'W', 'N'],
            KillReason::BlackSwan => seq!['B', 'L', 'A', 'C', 'K', '_', 'S', 'W', 'A', 'N'],
            KillReason::Thermal => seq!['T', 'H', 'E', 'R', 'M', 'A', 'L'],
            KillReason::FaultStorm => seq!['F', 'A', 'U', 'L', 'T', '_', 'S', 'T', 'O', 'R', 'M'],
            KillReason::AxiomBreak => seq!['A', 'X', 'I', 'O', 'M', '_', 'B', 'R', 'E', 'A', 'K'],
        }
    }

    /// Human-readable label.
    pub fn as_str(&self) -> (s: &'static str)
        ensures
            s@ == self.label(),
    {
        match self {
            KillReason::NoReason => {
                proof {
                    reveal_strlit("NONE");
                }
                "NONE"
            },
            KillReason::Manual => {
                proof {
                    reveal_strlit("MANUAL");
                }
                "MANUAL"
            },
            KillReason::Drawdown => {
                proof {
                    reveal_strlit("DRAWDOWN");
                }
                "DRAWDOWN"
            },
            KillReason::BlackSwan => {
                proof {
                    reveal_strlit("BLACK_SWAN");
                }
                "BLACK_SWAN"
            },
            KillReason::Thermal => {
                proof {
                    reveal_strlit("THERMAL");
                }
                "THERMAL"
            },
            KillReason::FaultStorm => {
                proof {
                    reveal_strlit("FAULT_STORM");
                }
                "FAULT_STORM"
            },
            KillReason::AxiomBreak => {
                proof {
                    reveal_strlit("AXIOM_BREAK");
                }
                "AXIOM_BREAK"
            },
        }
    }
}

/// The two values a kill switch's atomics hold: whether it is tripped, and
/// the code of the reason.
pub struct KillState {
    pub tripped: bool,
    pub code: u8,
}

/// What a trip does to the state: the first trip sets the flag and stores its
/// reason; later trips change nothing.
pub open spec fn spec_trip(s: KillState, reason: KillReason) -> KillState {
    if s.tripped {
        s
    } else {
        KillState { tripped: true, code: reason_code(reason) }
    }
}

/// What a reset does to the state: clear flag, no reason.
pub open spec fn spec_reset(s: KillState) -> KillState {
    KillState { tripped: false, code: 0 }
}

/// The reason code a trip must store, given whether the switch was already
/// tripped: only the first trip stores one.
pub fn code_to_store(was_tripped: bool, reason: KillReason) -> (r: Option<u8>)
    ensures
        r == if was_tripped {
            None::<u8>
        } else {
            Some(reason_code(reason))
        },
{
    if was_tripped {
        None
    } else {
        Some(reason.code())
    }
}

/// Law: the first trip's reason wins over any later trip, and a reset clears
/// both the flag and the reason.
pub proof fn lemma_first_reason_wins(s: KillState, first: KillReason, later: KillReason)
    requires
        !s.tripped,
    ensures
        spec_trip(spec_trip(s, first), later).tripped,
        reason_of_code(spec_trip(spec_trip(s, first), later).code) == first,
        !spec_reset(spec_trip(s, first)).tripped,
        reason_of_code(spec_reset(spec_trip(s, first)).code) == KillReason::NoReason,
{
}

/// A cheaply clonable, lock-free global kill switch shared across all tasks.
#[derive(Debug)]
pub struct GlobalKillSwitch {
    tripped: Arc<AtomicBool>,
    reason: Arc<AtomicU8>,
}

/// Another handle on the same shared atomic: `Arc::clone`, which (as its
/// documentation says) makes a new pointer to the same allocation.
#[verifier::external_body]
fn share<T>(a: &Arc<T>) -> (r: Arc<T>)
    ensures
        r == *a,
{
    Arc::clone(a)
}

impl GlobalKillSwitch {
    /// A fresh, un-tripped switch.
    pub fn new() -> Self {
        GlobalKillSwitch {
            tripped: Arc::new(AtomicBool::new(false)),
            reason: Arc::new(AtomicU8::new(0)),
        }
    }

    /// Trip the switch. Idempotent: only the first trip stores its reason,
    /// so the root cause is kept.
    pub fn trip(&self, reason: KillReason) {
        let was_tripped = self.tripped.swap(true, Ordering::SeqCst);
        if let Some(code) = code_to_store(was_tripped, reason) {
            self.reason.store(code, Ordering::SeqCst);
        }
    }

    /// Whether trading is halted.
    pub fn is_tripped(&self) -> bool {
        self.tripped.load(Ordering::SeqCst)
    }

    /// The reason for the halt, decoded from the stored code.
    pub fn reason(&self) -> KillReason {
        let v = self.reason.load(Ordering::SeqCst);
        KillReason::from_u8(v)
    }

    /// Reset (manual recovery only): clears the reason, then the flag.
    pub fn reset(&self) {
        self.reason.store(0, Ordering::SeqCst);
        self.tripped.store(false, Ordering::SeqCst);
    }
}

impl Clone for GlobalKillSwitch {
    /// A handle on the same shared state.
    fn clone(&self) -> (r: Self)
        ensures
            r == *self,
    {
        GlobalKillSwitch { tripped: share(&self.tripped), reason: share(&self.reason) }
    }
}

impl Default for GlobalKillSwitch {
    fn default() -> Self {
        GlobalKillSwitch::new()
    }
}

} // verus!
