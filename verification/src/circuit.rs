//! Error-type-aware circuit breaker with exponential backoff.
//!
//! This module holds the breaker's discrete state machine: the failure count,
//! the backoff exponent and the cooldown length in whole seconds. Measuring
//! time (when the breaker opened, how long ago that was) is left to the
//! caller, which tells [`BreakerCore::is_open`] whether the cooldown elapsed.
use vstd::prelude::*;

use crate::text::{contains, contains_chars, lower, str_chars, to_lower_chars};

verus! {

/// What kind of failure occurred — drives the cooldown length.
#[derive(Debug, Clone, Copy, PartialEq, Eq, Structural)]
pub enum ErrorClass {
    /// DNS resolution failed — slow to recover (1h base).
    Dns,
    /// Connection actively refused / rate-limited (10m base).
    Refused,
    /// Timed out — likely transient (5m base).
    Timeout,
    /// Anything else (5m base).
    Other,
}

/// The class of a lower-cased error message, by the substrings it contains.
pub open spec fn spec_classify(m: Seq<char>) -> ErrorClass {
    if contains(m, "getaddrinfo"@) || contains(m, "name resolution"@) || contains(m, "dns"@) {
        ErrorClass::Dns
    } else if contains(m, "refused"@) || contains(m, "10061"@) {
        ErrorClass::Refused
    } else if contains(m, "timeout"@) || contains(m, "timed out"@) {
        ErrorClass::Timeout
    } else {
        ErrorClass::Other
    }
}

/// `base · 2^k`.
pub open spec fn doubled(base: nat, k: nat) -> nat
    decreases k,
{
    if k == 0 {
        base
    } else {
        2 * doubled(base, (k - 1) as nat)
    }
}

/// Absolute ceiling on any cooldown, in seconds (2h).
pub open spec fn ttl_max() -> nat {
    7200
}

/// Cooldown before the breaker lets a probe through, in seconds, before any
/// backoff.
pub open spec fn base_ttl(class: ErrorClass) -> nat {
    match class {
        ErrorClass::Dns => 3600,
        ErrorClass::Refused => 600,
        ErrorClass::Timeout => 300,
        ErrorClass::Other => 300,
    }
}

/// Cooldown after `backoff` earlier openings: the base doubled once per
/// opening, capped at [`ttl_max`].
pub open spec fn backoff_ttl(class: ErrorClass, backoff: nat) -> nat {
    let t = doubled(base_ttl(class), backoff);
    if t < ttl_max() {
        t
    } else {
        ttl_max()
    }
}

proof fn lemma_doubled_monotone(base: nat, i: nat, j: nat)
    requires
        i <= j,
    ensures
        doubled(base, i) <= doubled(base, j),
    decreases j - i,
{
    if i < j {
        lemma_doubled_monotone(base, i, (j - 1) as nat);
    }
}

/// Law: every cooldown stays within the ceiling, and a DNS failure never
/// cools down for less than any other class after the same backoff.
pub proof fn lemma_backoff_ttl_bounds(class: ErrorClass, other: ErrorClass, backoff: nat)
    ensures
        backoff_ttl(class, backoff) <= ttl_max(),
        backoff_ttl(ErrorClass::Dns, backoff) >= backoff_ttl(other, backoff),
        backoff_ttl(class, backoff + 1) >= backoff_ttl(class, backoff),
    decreases backoff,
{
    lemma_doubled_monotone(base_ttl(class), backoff, backoff + 1);
    if backoff > 0 {
        lemma_backoff_ttl_bounds(class, other, (backoff - 1) as nat);
    }
}

impl ErrorClass {
    /// Classify an error message, case-insensitively, by the substrings it
    /// contains (resolution failures, refusals, timeouts, in that order).
    pub fn classify(msg: &str) -> (c: Self)
        ensures
            c == spec_classify(lower(msg@)),
            contains(lower(msg@), "getaddrinfo"@) || contains(lower(msg@), "name resolution"@) || contains(
                lower(msg@),
                "dns"@,
            ) ==> c == ErrorClass::Dns,
            !contains(lower(msg@), "getaddrinfo"@) && !contains(lower(msg@), "name resolution"@) && !contains(
                lower(msg@),
                "dns"@,
            ) && (contains(lower(msg@), "refused"@) || contains(lower(msg@), "10061"@)) ==> c
                == ErrorClass::Refused,
            !contains(lower(msg@), "getaddrinfo"@) && !contains(lower(msg@), "name resolution"@) && !contains(
                lower(msg@),
                "dns"@,
            ) && !contains(lower(msg@), "refused"@) && !contains(lower(msg@), "10061"@) && (contains(
                lower(msg@),
                "timeout"@,
            ) || contains(lower(msg@), "timed out"@)) ==> c == ErrorClass::Timeout,
            !contains(lower(msg@), "getaddrinfo"@) && !contains(lower(msg@), "name resolution"@) && !contains(
                lower(msg@),
                "dns"@,
            ) && !contains(lower(msg@), "refused"@) && !contains(lower(msg@), "10061"@) && !contains(
                lower(msg@),
                "timeout"@,
            ) && !contains(lower(msg@), "timed out"@) ==> c == ErrorClass::Other,
    {
        let raw = str_chars(msg);
        let m = to_lower_chars(&raw);
        if contains_chars(&m, &str_chars("getaddrinfo")) || contains_chars(&m, &str_chars("name resolution"))
            || contains_chars(&m, &str_chars("dns")) {
            ErrorClass::Dns
        } else if contains_chars(&m, &str_chars("refused")) || contains_chars(&m, &str_chars("10061")) {
            ErrorClass::Refused
        } else if contains_chars(&m, &str_chars("timeout")) || contains_chars(&m, &str_chars("timed out")) {
            ErrorClass::Timeout
        } else {
            ErrorClass::Other
        }
    }

    /// Cooldown in seconds before any backoff.
    pub fn base_ttl_secs(self) -> (t: u64)
        ensures
            t == base_ttl(self),
    {
        match self {
            ErrorClass::Dns => 3600,
            ErrorClass::Refused => 600,
            ErrorClass::Timeout => 300,
            ErrorClass::Other => 300,
        }
    }

    /// Cooldown in seconds after `backoff` earlier openings: the base doubled
    /// per opening, capped at two hours.
    pub fn backoff_ttl_secs(self, backoff: u32) -> (t: u64)
        ensures
            t == backoff_ttl(self, backoff as nat),
    {
        let base = self.base_ttl_secs();
        let mut t: u64 = base;
        let mut k: u32 = 0;
        while k < backoff
            invariant
                k <= backoff,
                t == doubled(base as nat, k as nat),
                t <= 14400,
                base == base_ttl(self),
            decreases backoff - k,
        {
            if t >= 7200 {
                proof {
                    lemma_doubled_monotone(base as nat, k as nat, backoff as nat);
                }
                return 7200;
            }
            t = t * 2;
            k = k + 1;
        }
        if t < 7200 {
            t
        } else {
            7200
        }
    }
}

/// Where the breaker stands.
#[derive(Debug, Clone, Copy, PartialEq, Eq, Structural)]
pub enum BreakerState {
    /// Calls go through.
    Closed,
    /// Calls are short-circuited until the cooldown elapses.
    Open,
    /// One probe call is allowed through.
    HalfOpen,
}

/// The discrete state of a per-source circuit breaker.
#[derive(Debug, Clone, Copy)]
pub struct BreakerCore {
    pub state: BreakerState,
    /// Consecutive failures since the last success.
    pub fails: u32,
    /// Cooldown of the current opening, in seconds.
    pub ttl_secs: u64,
    /// How many times the breaker opened since the last success.
    pub backoff: u32,
    /// Failures that open the breaker.
    pub max_fails: u32,
}

/// The breaker a threshold of `max_fails` starts as: closed, with the
/// threshold raised to at least one.
pub open spec fn spec_with_threshold(max_fails: u32) -> BreakerCore {
    BreakerCore {
        state: BreakerState::Closed,
        fails: 0,
        ttl_secs: 300,
        backoff: 0,
        max_fails: if max_fails == 0 { 1 } else { max_fails },
    }
}

/// A breaker after a success (or a manual reset): closed, with no failures,
/// no backoff and the base cooldown, keeping its threshold.
pub open spec fn spec_success(b: BreakerCore) -> BreakerCore {
    BreakerCore { state: BreakerState::Closed, fails: 0, ttl_secs: 300, backoff: 0, max_fails: b.max_fails }
}

/// Whether a failure opens the breaker: it brings the failure count to the
/// threshold.
pub open spec fn failure_opens(b: BreakerCore) -> bool {
    b.fails + 1 >= b.max_fails
}

/// A breaker after a failure of class `class`: one more failure; when that
/// reaches the threshold, open with the class's cooldown doubled once per
/// earlier opening (capped), and one more opening.
pub open spec fn spec_failure(b: BreakerCore, class: ErrorClass) -> BreakerCore {
    if failure_opens(b) {
        BreakerCore {
            state: BreakerState::Open,
            fails: (b.fails + 1) as u32,
            ttl_secs: backoff_ttl(class, b.backoff as nat) as u64,
            backoff: (b.backoff + 1) as u32,
            max_fails: b.max_fails,
        }
    } else {
        BreakerCore { fails: (b.fails + 1) as u32, ..b }
    }
}

/// A breaker after it was asked whether it is open: an open breaker whose
/// cooldown elapsed turns half-open.
pub open spec fn spec_check(b: BreakerCore, cooldown_elapsed: bool) -> BreakerCore {
    if b.state == BreakerState::Open && cooldown_elapsed {
        BreakerCore { state: BreakerState::HalfOpen, ..b }
    } else {
        b
    }
}

/// What can happen to a breaker.
pub enum BreakerEvent {
    Success,
    Failure(ErrorClass),
    Check(bool),
    ForceReset,
}

/// The breaker after one event.
pub open spec fn spec_apply(b: BreakerCore, e: BreakerEvent) -> BreakerCore {
    match e {
        BreakerEvent::Success => spec_success(b),
        BreakerEvent::Failure(class) => spec_failure(b, class),
        BreakerEvent::Check(elapsed) => spec_check(b, elapsed),
        BreakerEvent::ForceReset => spec_success(b),
    }
}

/// The breaker after a sequence of events, in order.
pub open spec fn spec_run(b: BreakerCore, events: Seq<BreakerEvent>) -> BreakerCore
    decreases events.len(),
{
    if events.len() == 0 {
        b
    } else {
        spec_apply(spec_run(b, events.drop_last()), events.last())
    }
}

/// How many times the breaker opened since the last success or reset, over
/// a sequence of events.
pub open spec fn openings(b: BreakerCore, events: Seq<BreakerEvent>) -> nat
    decreases events.len(),
{
    if events.len() == 0 {
        0
    } else {
        let before = spec_run(b, events.drop_last());
        match events.last() {
            BreakerEvent::Success => 0,
            BreakerEvent::ForceReset => 0,
            BreakerEvent::Failure(_) => if failure_opens(before) {
                openings(b, events.drop_last()) + 1
            } else {
                openings(b, events.drop_last())
            },
            BreakerEvent::Check(_) => openings(b, events.drop_last()),
        }
    }
}

/// Whether every failure in `events` meets a breaker whose counters can still
/// grow: below `u32::MAX` failures, and below `u32::MAX` openings when it
/// opens (past that, the counters would overflow).
pub open spec fn within_limits(b: BreakerCore, events: Seq<BreakerEvent>) -> bool
    decreases events.len(),
{
    if events.len() == 0 {
        true
    } else {
        let before = spec_run(b, events.drop_last());
        &&& within_limits(b, events.drop_last())
        &&& match events.last() {
            BreakerEvent::Failure(_) => before.fails < u32::MAX && (failure_opens(before) ==> before.backoff
                < u32::MAX),
            _ => true,
        }
    }
}

/// Law: whatever sequence of events a breaker with threshold `m` goes
/// through (as long as its counters do not overflow), it keeps its threshold
/// (at least one), its backoff counts the openings since the last success,
/// and its cooldown never exceeds two hours: it is the base cooldown when it
/// never opened since, and otherwise the base of the class of its last
/// opening doubled once per earlier opening, capped.
pub proof fn lemma_breaker_cooldown_law(m: u32, events: Seq<BreakerEvent>)
    requires
        within_limits(spec_with_threshold(m), events),
    ensures
        ({
            let s = spec_run(spec_with_threshold(m), events);
            &&& s.wf()
            &&& s.max_fails == if m == 0 { 1 } else { m }
            &&& s.backoff == openings(spec_with_threshold(m), events)
            &&& s.backoff == 0 ==> s.ttl_secs == 300
            &&& s.backoff > 0 ==> exists|c: ErrorClass| s.ttl_secs == #[trigger] backoff_ttl(c, (s.backoff - 1) as nat)
        }),
    decreases events.len(),
{
    let b0 = spec_with_threshold(m);
    if events.len() > 0 {
        let prev = events.drop_last();
        lemma_breaker_cooldown_law(m, prev);
        let before = spec_run(b0, prev);
        match events.last() {
            BreakerEvent::Failure(class) => {
                lemma_backoff_ttl_bounds(class, class, before.backoff as nat);
                if failure_opens(before) {
                    let after = spec_run(b0, events);
                    assert(after.ttl_secs == backoff_ttl(class, (after.backoff - 1) as nat));
                }
            },
            _ => {},
        }
    }
}

/// Law: a run of fewer than `u32::MAX` events never reaches the counters'
/// limits, and leaves both counters at most the number of events.
pub proof fn lemma_short_runs_within_limits(m: u32, events: Seq<BreakerEvent>)
    requires
        events.len() < u32::MAX,
    ensures
        within_limits(spec_with_threshold(m), events),
        spec_run(spec_with_threshold(m), events).fails <= events.len(),
        spec_run(spec_with_threshold(m), events).backoff <= events.len(),
    decreases events.len(),
{
    if events.len() > 0 {
        lemma_short_runs_within_limits(m, events.drop_last());
    }
}

impl BreakerCore {
    /// The breaker's invariant: the threshold is at least one and the
    /// cooldown within the ceiling.
    pub open spec fn wf(self) -> bool {
        self.max_fails >= 1 && self.ttl_secs <= ttl_max()
    }

    /// Absolute ceiling on any cooldown, in seconds.
    pub const TTL_MAX_SECS: u64 = 7200;

    /// A closed breaker with the default threshold of three failures.
    pub fn new() -> (b: Self)
        ensures
            b == (BreakerCore { state: BreakerState::Closed, fails: 0, ttl_secs: 300, backoff: 0, max_fails: 3 }),
            b.wf(),
    {
        BreakerCore { state: BreakerState::Closed, fails: 0, ttl_secs: 300, backoff: 0, max_fails: 3 }
    }

    /// A closed breaker that opens after `max_fails` failures (at least one).
    pub fn with_threshold(max_fails: u32) -> (b: Self)
        ensures
            b == spec_with_threshold(max_fails),
            b.wf(),
    {
        BreakerCore {
            state: BreakerState::Closed,
            fails: 0,
            ttl_secs: 300,
            backoff: 0,
            max_fails: if max_fails == 0 { 1 } else { max_fails },
        }
    }

    /// Whether the breaker blocks calls. An open breaker whose cooldown has
    /// elapsed turns half-open and lets one probe through.
    pub fn is_open(&mut self, cooldown_elapsed: bool) -> (b: bool)
        ensures
            b == (old(self).state == BreakerState::Open && !cooldown_elapsed),
            final(self).state == if old(self).state == BreakerState::Open && cooldown_elapsed {
                BreakerState::HalfOpen
            } else {
                old(self).state
            },
            final(self).fails == old(self).fails,
            final(self).ttl_secs == old(self).ttl_secs,
            final(self).backoff == old(self).backoff,
            final(self).max_fails == old(self).max_fails,
            *final(self) == spec_check(*old(self), cooldown_elapsed),
    {
        if self.state == BreakerState::Open {
            if cooldown_elapsed {
                self.state = BreakerState::HalfOpen;
                return false;
            }
            return true;
        }
        false
    }

    /// Record a success: closes the breaker and clears the backoff.
    pub fn record_success(&mut self)
        ensures
            *final(self) == spec_success(*old(self)),
    {
        self.state = BreakerState::Closed;
        self.fails = 0;
        self.backoff = 0;
        self.ttl_secs = 300;
    }

    /// Record a failure of a given class. Once the failure count reaches the
    /// threshold the breaker opens with the class's cooldown doubled per
    /// earlier opening (capped), and the backoff grows. Returns whether it
    /// (re)opened, so that the caller can note the time.
    pub fn record_failure(&mut self, class: ErrorClass) -> (opened: bool)
        requires
            old(self).fails < u32::MAX,
            old(self).fails + 1 >= old(self).max_fails ==> old(self).backoff < u32::MAX,
        ensures
            final(self).fails == old(self).fails + 1,
            final(self).max_fails == old(self).max_fails,
            opened == (final(self).fails >= old(self).max_fails),
            opened ==> final(self).state == BreakerState::Open
                && final(self).ttl_secs == backoff_ttl(class, old(self).backoff as nat)
                && final(self).backoff == old(self).backoff + 1,
            !opened ==> final(self).state == old(self).state && final(self).ttl_secs
                == old(self).ttl_secs && final(self).backoff == old(self).backoff,
            old(self).wf() ==> final(self).wf(),
            *final(self) == spec_failure(*old(self), class),
    {
        self.fails = self.fails + 1;
        if self.fails >= self.max_fails {
            let ttl = class.backoff_ttl_secs(self.backoff);
            proof {
                lemma_backoff_ttl_bounds(class, class, self.backoff as nat);
            }
            self.ttl_secs = ttl;
            self.state = BreakerState::Open;
            self.backoff = self.backoff + 1;
            true
        } else {
            false
        }
    }

    /// Force the breaker closed (manual reset), keeping its threshold.
    pub fn force_reset(&mut self)
        ensures
            *final(self) == spec_success(*old(self)),
    {
        let max_fails = self.max_fails;
        *self = BreakerCore { state: BreakerState::Closed, fails: 0, ttl_secs: 300, backoff: 0, max_fails };
    }
}

} // verus!
