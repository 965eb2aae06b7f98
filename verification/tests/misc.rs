use std::time::Duration;

use sovereign::affinity::{core_isolation, last_core, pin_to_last_core};
use sovereign::automaton::{rule30_step, rule_step};
use sovereign::broker::{IbkrBroker, IbkrConfig, IbkrEnv, OrderId};
use sovereign::config::DataConfig;
use sovereign::error::SovereignError;
use sovereign::sec_edgar::{count_form4, zip_recent_filings, Filing};
use sovereign::selfheal::SelfHealer;
use sovereign::spectral::next_pow2;
use sovereign::text::{parse_i32, parse_u16};
use sovereign::turbulence::FlowRegime;

#[test]
fn cycle_is_pure_and_safe() {
    let r = SelfHealer::cycle();
    assert_eq!(r.checks, 3);
}

#[test]
fn healer_keeps_its_interval() {
    let h = SelfHealer::new(Duration::from_secs(60));
    assert_eq!(h.interval(), Duration::from_secs(60));
    assert_eq!(SelfHealer::cycle().fixes, 0);
}

#[test]
fn core_pin_is_graceful() {
    // Must never panic, regardless of whether the sandbox allows pinning.
    let iso = pin_to_last_core();
    if iso.pinned {
        assert!(iso.core.is_some());
    }
}

#[test]
fn last_core_picks_the_last_id() {
    assert_eq!(last_core(&Some(vec![0, 1, 5])), Some((5, 3)));
    assert_eq!(last_core(&Some(vec![])), None);
    assert_eq!(last_core(&None), None);
}

#[test]
fn isolation_reports_the_last_listed_core() {
    let iso = core_isolation(&Some(vec![2, 4, 7]), true);
    assert!(iso.pinned);
    assert_eq!(iso.core, Some(7));
    assert_eq!(iso.total_cores, 3);
    let rejected = core_isolation(&Some(vec![2, 4, 7]), false);
    assert!(!rejected.pinned);
    assert_eq!(rejected.core, Some(7));
    let none = core_isolation(&None, true);
    assert!(!none.pinned);
    assert_eq!(none.core, None);
    assert_eq!(none.total_cores, 0);
    assert_eq!(core_isolation(&Some(vec![]), true).total_cores, 0);
}

fn entropy(row: &[bool]) -> f64 {
    let n = row.len();
    if n == 0 {
        return 0.0;
    }
    let p = row.iter().filter(|b| **b).count() as f64 / n as f64;
    if p <= 0.0 || p >= 1.0 {
        0.0
    } else {
        -(p * p.log2() + (1.0 - p) * (1.0 - p).log2())
    }
}

#[test]
fn rule30_preserves_width_and_bounds_entropy() {
    let mut row = vec![false; 21];
    row[10] = true;
    for _ in 0..10 {
        row = rule30_step(&row);
        assert_eq!(row.len(), 21);
        let h = entropy(&row);
        assert!((0.0..=1.0).contains(&h));
    }
}

#[test]
fn rule30_first_step_and_other_rules() {
    let row = vec![false, false, true, false, false];
    assert_eq!(rule30_step(&row), vec![false, true, true, true, false]);
    // wrap-around: a single live cell at the edge
    assert_eq!(rule30_step(&[true, false, false]), vec![true, true, true]);
    // rule 0 kills everything, rule 255 fills everything, rule 204 is identity
    assert_eq!(rule_step(&row, 0), vec![false; 5]);
    assert_eq!(rule_step(&row, 255), vec![true; 5]);
    assert_eq!(rule_step(&row, 204), row);
    assert!(rule_step(&[], 30).is_empty());
}

#[test]
fn next_pow2_values() {
    assert_eq!(next_pow2(0), 1);
    assert_eq!(next_pow2(1), 1);
    assert_eq!(next_pow2(3), 4);
    assert_eq!(next_pow2(256), 256);
    assert_eq!(next_pow2(257), 512);
}

#[test]
fn turbulent_flow_prefers_market_making() {
    assert!(FlowRegime::Turbulent.prefer_market_making());
    assert!(!FlowRegime::Laminar.prefer_market_making());
    assert!(!FlowRegime::Transitional.prefer_market_making());
}

fn strings(v: &[&str]) -> Vec<String> {
    v.iter().map(|s| s.to_string()).collect()
}

#[test]
fn zips_filings_and_counts_form4() {
    let filings = zip_recent_filings(
        &strings(&["0001-26-000001", "0001-26-000002", "0001-26-000003"]),
        &strings(&["10-Q", "4", "4"]),
        &strings(&["2026-05-01", "2026-05-10", "2026-05-12"]),
    );
    assert_eq!(filings.len(), 3);
    assert_eq!(filings[0].form, "10-Q");
    assert_eq!(filings[2].accession, "0001-26-000003");
    assert_eq!(count_form4(&filings), 2);
    // truncated to the shortest array
    let short = zip_recent_filings(&strings(&["a"]), &strings(&["4", "4"]), &strings(&["d", "e"]));
    assert_eq!(short, vec![Filing { form: "4".into(), date: "d".into(), accession: "a".into() }]);
    assert_eq!(count_form4(&[]), 0);
    // "4/A" is an amendment, not a Form 4
    let amended = zip_recent_filings(&strings(&["x"]), &strings(&["4/A"]), &strings(&["d"]));
    assert_eq!(count_form4(&amended), 0);
}

#[test]
fn ibkr_defaults_and_env_values() {
    let d = IbkrConfig::default();
    assert_eq!((d.host.as_str(), d.port, d.client_id), ("127.0.0.1", 7497, 1));
    let env = IbkrEnv {
        host: Some("10.0.0.5".into()),
        port: Some("+4002".into()),
        client_id: Some("-7".into()),
        account: Some("".into()),
    };
    let c = IbkrConfig::from_env_values(&env);
    assert_eq!(c.host, "10.0.0.5");
    assert_eq!(c.port, 4002);
    assert_eq!(c.client_id, -7);
    assert!(c.account.is_none());
    let bad = IbkrEnv {
        host: Some("".into()),
        port: Some("70000".into()),
        client_id: Some("12x".into()),
        account: Some("DU123".into()),
    };
    let c = IbkrConfig::from_env_values(&bad);
    assert_eq!(c.host, "127.0.0.1");
    assert_eq!(c.port, 7497);
    assert_eq!(c.client_id, 1);
    assert_eq!(c.account.as_deref(), Some("DU123"));
}

#[test]
fn ibkr_is_safe_until_connected() {
    let ib = IbkrBroker::new(IbkrConfig::default());
    assert!(!ib.is_connected());
    assert_eq!(ib.name(), "ibkr");
    assert!(matches!(ib.not_connected(), SovereignError::Halted(_)));
    assert_eq!(OrderId(1), OrderId(1));
}

#[test]
fn integer_parsing_matches_from_str() {
    for s in ["0", "+1", "65535", "65536", "", "+", "-1", " 1", "007", "1_0"] {
        assert_eq!(parse_u16(s), s.parse::<u16>().ok(), "u16 {s:?}");
    }
    for s in ["0", "-0", "+5", "-2147483648", "2147483647", "2147483648", "-2147483649", "-", "--1", "12a"] {
        assert_eq!(parse_i32(s), s.parse::<i32>().ok(), "i32 {s:?}");
    }
}

#[test]
fn data_config_defaults() {
    let c = DataConfig::default();
    assert_eq!(c.http_timeout_s, 10);
    assert!(c.sec_user_agent.starts_with("sovereign-rs/"));
}

#[test]
fn error_constructors() {
    match SovereignError::data("stooq".into(), "boom".into()) {
        SovereignError::Data { provider, reason } => {
            assert_eq!(provider, "stooq");
            assert_eq!(reason, "boom");
        }
        other => panic!("unexpected {other:?}"),
    }
    assert!(matches!(SovereignError::quant("ou".into(), "nan".into()), SovereignError::Quant { .. }));
}
