use sovereign::contract::{
    checked_front_month, checked_route, expiry_months, front_month, route, shift_days, CivilDate, SecType,
};
use sovereign::domain::Instrument;

fn today() -> CivilDate {
    CivilDate::new(2026, 6, 2).unwrap()
}

#[test]
fn equity_routes_to_smart_stock() {
    let c = route(&Instrument::parse("AAPL"), &today()).unwrap();
    assert_eq!(c.sec_type, SecType::Stock);
    assert_eq!(c.exchange, "SMART");
}

#[test]
fn future_gets_multiplier_and_front_month() {
    let c = route(&Instrument::parse("ES=F"), &today()).unwrap();
    assert_eq!(c.sec_type, SecType::Future);
    assert_eq!(c.exchange, "CME");
    assert_eq!(c.multiplier, Some(50));
    // ES is quarterly (Mar/Jun/Sep/Dec). On 2026-06-02 the front month is
    // still June (202606) — it only rolls once within 15 days of expiry.
    assert_eq!(c.last_trade_ym.as_deref(), Some("202606"));
}

#[test]
fn forex_splits_pair() {
    let c = route(&Instrument::parse("EURUSD=X"), &today()).unwrap();
    assert_eq!(c.sec_type, SecType::Forex);
    assert_eq!(c.symbol, "EUR");
    assert_eq!(c.currency, "USD");
}

#[test]
fn index_is_data_only() {
    assert!(route(&Instrument::parse("^VIX"), &today()).is_none());
}

#[test]
fn front_month_rolls_with_the_lookahead() {
    assert_eq!(front_month("ES", &today(), 15).as_deref(), Some("202606"));
    assert_eq!(front_month("ES", &today(), 30).as_deref(), Some("202609"));
    assert_eq!(front_month("GC", &today(), 15).as_deref(), Some("202606"));
    assert_eq!(front_month("CL", &CivilDate::new(2026, 12, 20).unwrap(), 15).as_deref(), Some("202701"));
    assert_eq!(front_month("ES", &CivilDate::new(2026, 12, 20).unwrap(), 15).as_deref(), Some("202703"));
    // a root the calendar does not know has no front month
    assert_eq!(front_month("ZZ", &today(), 0), None);
    // a far lookahead passes every candidate month
    assert_eq!(front_month("ES", &today(), 2000), None);
}

#[test]
fn front_month_pads_small_years() {
    assert_eq!(front_month("ES", &CivilDate::new(5, 1, 1).unwrap(), 0).as_deref(), Some("000503"));
}

#[test]
fn checked_variants_refuse_the_end_of_the_calendar() {
    let last = CivilDate::new(262142, 12, 31).unwrap();
    assert_eq!(checked_front_month("ES", &last, 15), None);
    assert!(checked_route(&Instrument::parse("ES=F"), &last).is_none());
    assert!(checked_route(&Instrument::parse("AAPL"), &last).unwrap().is_some());
    assert_eq!(checked_front_month("ES", &today(), 15), Some(Some("202606".to_string())));
    // an unknown root has no front month, even at the end of the calendar
    assert_eq!(checked_front_month("ZZZ", &last, 15), Some(None));
    assert!(expiry_months("ZZZ").is_empty());
    let routed = checked_route(&Instrument::parse("ES=F"), &today()).unwrap().unwrap();
    assert_eq!(routed.last_trade_ym.as_deref(), Some("202606"));
}

#[test]
fn expiry_calendars() {
    assert_eq!(expiry_months("GC"), vec![2, 4, 6, 8, 10, 12]);
    assert_eq!(expiry_months("HG"), vec![3, 5, 7, 9, 12]);
    assert_eq!(expiry_months("NG").len(), 12);
    assert_eq!(expiry_months("6E"), vec![3, 6, 9, 12]);
    assert_eq!(expiry_months("ZN"), vec![3, 6, 9, 12]);
    assert!(expiry_months("unknown").is_empty());
}

#[test]
fn crypto_and_unknown_futures() {
    let c = route(&Instrument::parse("BTC-USD"), &today()).unwrap();
    assert_eq!(c.sec_type, SecType::Crypto);
    assert_eq!(c.symbol, "BTC");
    assert_eq!(c.exchange, "PAXOS");
    assert!(route(&Instrument::parse("XX=F"), &today()).is_none());
    let j = route(&Instrument::parse("6J=F"), &today()).unwrap();
    assert_eq!(j.symbol, "JPY");
    assert_eq!(j.multiplier, Some(12_500_000));
}

#[test]
fn civil_dates_are_validated() {
    assert!(CivilDate::new(2024, 2, 29).is_some());
    assert!(CivilDate::new(2023, 2, 29).is_none());
    assert!(CivilDate::new(1900, 2, 29).is_none());
    assert!(CivilDate::new(2000, 2, 29).is_some());
    assert!(CivilDate::new(2026, 13, 1).is_none());
    assert!(CivilDate::new(400000, 1, 1).is_none());
    let d = today();
    assert_eq!((d.year(), d.month(), d.day()), (2026, 6, 2));
}

#[test]
fn day_arithmetic_follows_the_gregorian_calendar() {
    let ymd = |c: CivilDate| (c.year(), c.month(), c.day());
    let d = |y, m, dd| CivilDate::new(y, m, dd).unwrap();
    assert_eq!(shift_days(&d(2024, 2, 28), 1).map(ymd), Some((2024, 2, 29)));
    assert_eq!(shift_days(&d(2023, 2, 28), 1).map(ymd), Some((2023, 3, 1)));
    assert_eq!(shift_days(&d(1900, 2, 28), 1).map(ymd), Some((1900, 3, 1)));
    assert_eq!(shift_days(&d(2000, 2, 28), 1).map(ymd), Some((2000, 2, 29)));
    assert_eq!(shift_days(&d(2026, 12, 20), 15).map(ymd), Some((2027, 1, 4)));
    assert_eq!(shift_days(&d(2026, 3, 1), -1).map(ymd), Some((2026, 2, 28)));
    assert_eq!(shift_days(&d(262142, 12, 31), 1), None);
    assert_eq!(shift_days(&d(-262143, 1, 1), -1), None);
    assert_eq!(shift_days(&d(2026, 1, 1), i64::MAX), None);
}
