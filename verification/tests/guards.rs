use sovereign::error::SovereignError;
use sovereign::fault::FaultBoundary;
use sovereign::killswitch::{GlobalKillSwitch, KillReason};

#[test]
fn trips_and_keeps_first_reason() {
    let ks = GlobalKillSwitch::new();
    assert!(!ks.is_tripped());
    ks.trip(KillReason::Drawdown);
    ks.trip(KillReason::Manual); // ignored — first reason wins
    assert!(ks.is_tripped());
    assert_eq!(ks.reason(), KillReason::Drawdown);
}

#[test]
fn clone_shares_state() {
    let a = GlobalKillSwitch::new();
    let b = a.clone();
    a.trip(KillReason::Thermal);
    assert!(b.is_tripped());
    assert_eq!(b.reason(), KillReason::Thermal);
    b.reset();
    assert!(!a.is_tripped());
}

#[test]
fn reset_clears_reason_and_allows_a_new_root_cause() {
    let ks = GlobalKillSwitch::default();
    ks.trip(KillReason::BlackSwan);
    ks.reset();
    assert_eq!(ks.reason(), KillReason::NoReason);
    ks.trip(KillReason::AxiomBreak);
    assert_eq!(ks.reason(), KillReason::AxiomBreak);
}

#[test]
fn reason_codes_and_labels() {
    let all = [
        KillReason::NoReason,
        KillReason::Manual,
        KillReason::Drawdown,
        KillReason::BlackSwan,
        KillReason::Thermal,
        KillReason::FaultStorm,
        KillReason::AxiomBreak,
    ];
    for (i, r) in all.iter().enumerate() {
        assert_eq!(r.code() as usize, i);
    }
    assert_eq!(KillReason::BlackSwan.as_str(), "BLACK_SWAN");
    assert_eq!(KillReason::NoReason.as_str(), "NONE");
}

#[test]
fn fault_boundary_counts_and_trips_on_storm() {
    let ks = GlobalKillSwitch::new();
    let fb = FaultBoundary::new("flaky", 2).with_kill_switch(ks.clone());
    assert_eq!(fb.fault_count(), 0);
    match fb.record_panic("1".to_string()) {
        SovereignError::Panic { component, message } => {
            assert_eq!(component, "flaky");
            assert_eq!(message, "1");
        }
        other => panic!("unexpected {other:?}"),
    }
    assert!(!ks.is_tripped());
    assert!(!fb.is_storm());
    fb.record_panic("2".to_string());
    assert!(ks.is_tripped());
    assert_eq!(ks.reason(), KillReason::FaultStorm);
    assert!(fb.is_storm());
    fb.reset();
    assert_eq!(fb.fault_count(), 0);
}

#[test]
fn zero_threshold_means_one() {
    let fb = FaultBoundary::new("x", 0);
    assert!(!fb.is_storm());
    fb.record_panic("boom".to_string());
    assert!(fb.is_storm());
}

#[test]
fn attached_switch_is_the_one_a_storm_trips() {
    let mine = GlobalKillSwitch::new();
    let other = GlobalKillSwitch::new();
    let fb = FaultBoundary::new("one", 1).with_kill_switch(mine.clone());
    fb.record_panic("boom".to_string());
    assert!(mine.is_tripped());
    assert!(!other.is_tripped());
    assert_eq!(mine.reason(), KillReason::FaultStorm);
}
