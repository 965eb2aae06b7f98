use sovereign::domain::Instrument;
use sovereign::error::SovereignError;
use sovereign::fallback::{all_failed, fallback_start, fallback_step, FallbackAction, ProviderOutcome};

/// Runs the waterfall over providers that answer with `outcomes`, in order.
fn run(outcomes: &[ProviderOutcome]) -> FallbackAction {
    let n = outcomes.len();
    let mut action = fallback_start(n);
    while let FallbackAction::TryNext { index } = action {
        action = fallback_step(index, n, outcomes[index]);
    }
    action
}

#[test]
fn falls_through_to_secondary_and_degrades() {
    let a = run(&[ProviderOutcome::Failed, ProviderOutcome::SaneBars]);
    assert_eq!(a, FallbackAction::Accept { index: 1, degraded: true });
}

#[test]
fn primary_success_is_not_degraded() {
    let a = run(&[ProviderOutcome::SaneBars]);
    assert_eq!(a, FallbackAction::Accept { index: 0, degraded: false });
}

#[test]
fn all_fail_is_error() {
    let a = run(&[ProviderOutcome::Failed, ProviderOutcome::Failed]);
    assert_eq!(a, FallbackAction::AllFailed { tried: 2 });
    match all_failed(&Instrument::parse("SPY"), 2) {
        SovereignError::AllProvidersFailed { key, tried } => {
            assert_eq!(key, "SPY");
            assert_eq!(tried, 2);
        }
        other => panic!("unexpected {other:?}"),
    }
}

#[test]
fn insane_bars_fall_through_and_empty_chain_fails() {
    assert_eq!(run(&[]), FallbackAction::AllFailed { tried: 0 });
    let a = run(&[ProviderOutcome::NoSaneBars, ProviderOutcome::Failed, ProviderOutcome::SaneBars, ProviderOutcome::SaneBars]);
    assert_eq!(a, FallbackAction::Accept { index: 2, degraded: true });
    assert_eq!(fallback_step(0, 3, ProviderOutcome::NoSaneBars), FallbackAction::TryNext { index: 1 });
    assert_eq!(fallback_step(2, 3, ProviderOutcome::Failed), FallbackAction::AllFailed { tried: 3 });
    match all_failed(&Instrument::parse("eurusd=x"), 3) {
        SovereignError::AllProvidersFailed { key, .. } => assert_eq!(key, "EURUSD=X"),
        other => panic!("unexpected {other:?}"),
    }
}
