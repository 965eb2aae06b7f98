use sovereign::circuit::{BreakerCore, BreakerState, ErrorClass};

/// Whether the cooldown of an opening at `opened_at` has elapsed at `now`.
fn elapsed(b: &BreakerCore, opened_at: f64, now: f64) -> bool {
    now - opened_at > b.ttl_secs as f64
}

#[test]
fn opens_after_threshold_then_half_opens_after_ttl() {
    let mut cb = BreakerCore::with_threshold(3);
    let t = 1000.0;
    let mut opened_at = 0.0;
    assert!(!cb.is_open(elapsed(&cb, opened_at, t)));
    if cb.record_failure(ErrorClass::Timeout) {
        opened_at = t;
    }
    if cb.record_failure(ErrorClass::Timeout) {
        opened_at = t;
    }
    assert!(!cb.is_open(elapsed(&cb, opened_at, t))); // 2 < 3 → still closed
    if cb.record_failure(ErrorClass::Timeout) {
        opened_at = t;
    }
    assert!(cb.is_open(elapsed(&cb, opened_at, t))); // now open
    // before ttl (300s) elapses, still open
    assert!(cb.is_open(elapsed(&cb, opened_at, t + 299.0)));
    // after ttl, becomes half-open (probe allowed)
    assert!(!cb.is_open(elapsed(&cb, opened_at, t + 301.0)));
    assert_eq!(cb.state, BreakerState::HalfOpen);
}

#[test]
fn dns_cooldown_longer_than_timeout() {
    let mut dns = BreakerCore::with_threshold(1);
    let mut to = BreakerCore::with_threshold(1);
    dns.record_failure(ErrorClass::Dns);
    to.record_failure(ErrorClass::Timeout);
    assert!(dns.ttl_secs > to.ttl_secs);
}

#[test]
fn success_resets_backoff() {
    let mut cb = BreakerCore::with_threshold(1);
    cb.record_failure(ErrorClass::Refused);
    cb.record_success();
    assert!(!cb.is_open(false));
    assert_eq!(cb.state, BreakerState::Closed);
    assert_eq!(cb.backoff, 0);
    assert_eq!(cb.fails, 0);
}

#[test]
fn backoff_doubles_and_caps() {
    let mut cb = BreakerCore::with_threshold(1);
    let mut seen = Vec::new();
    for _ in 0..6 {
        cb.record_failure(ErrorClass::Timeout);
        seen.push(cb.ttl_secs);
    }
    assert_eq!(seen, vec![300, 600, 1200, 2400, 4800, 7200]);
    assert_eq!(ErrorClass::Dns.backoff_ttl_secs(0), 3600);
    assert_eq!(ErrorClass::Dns.backoff_ttl_secs(1), 7200);
    assert_eq!(ErrorClass::Dns.backoff_ttl_secs(u32::MAX), BreakerCore::TTL_MAX_SECS);
    assert_eq!(ErrorClass::Refused.base_ttl_secs(), 600);
}

#[test]
fn backoff_never_exceeds_ttl_max_for_twenty_failures() {
    for n in 1u32..20 {
        let mut cb = BreakerCore::with_threshold(1);
        for _ in 0..n {
            cb.record_failure(ErrorClass::Dns);
        }
        assert!(cb.ttl_secs <= BreakerCore::TTL_MAX_SECS);
    }
}

#[test]
fn force_reset_keeps_threshold() {
    let mut cb = BreakerCore::with_threshold(4);
    for _ in 0..4 {
        cb.record_failure(ErrorClass::Other);
    }
    assert_eq!(cb.state, BreakerState::Open);
    cb.force_reset();
    assert_eq!(cb.max_fails, 4);
    assert_eq!(cb.state, BreakerState::Closed);
    assert_eq!(BreakerCore::with_threshold(0).max_fails, 1);
    assert_eq!(BreakerCore::new().max_fails, 3);
}

#[test]
fn classifies_error_messages() {
    assert_eq!(ErrorClass::classify("getaddrinfo failed"), ErrorClass::Dns);
    assert_eq!(ErrorClass::classify("Temporary failure in NAME RESOLUTION"), ErrorClass::Dns);
    assert_eq!(ErrorClass::classify("[WinError 10061] target machine actively refused it"), ErrorClass::Refused);
    assert_eq!(ErrorClass::classify("operation TIMED OUT"), ErrorClass::Timeout);
    assert_eq!(ErrorClass::classify("read timeout"), ErrorClass::Timeout);
    assert_eq!(ErrorClass::classify("HTTP 500"), ErrorClass::Other);
    // DNS wins over a timeout in the same message
    assert_eq!(ErrorClass::classify("dns lookup timed out"), ErrorClass::Dns);
}

#[test]
fn backoff_counts_openings_since_the_last_success() {
    let mut cb = BreakerCore::with_threshold(2);
    assert!(!cb.record_failure(ErrorClass::Timeout));
    assert!(cb.record_failure(ErrorClass::Timeout));
    assert_eq!((cb.backoff, cb.ttl_secs), (1, 300));
    assert!(cb.record_failure(ErrorClass::Timeout));
    assert_eq!((cb.backoff, cb.ttl_secs), (2, 600));
    cb.record_success();
    assert!(!cb.record_failure(ErrorClass::Refused));
    assert!(cb.record_failure(ErrorClass::Refused));
    assert_eq!((cb.backoff, cb.ttl_secs), (1, 600));
    assert_eq!(cb.state, BreakerState::Open);
}
