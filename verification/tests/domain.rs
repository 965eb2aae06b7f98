use sovereign::domain::{AssetClass, Instrument, Regime};

#[test]
fn parses_each_asset_class() {
    assert_eq!(Instrument::parse("AAPL").asset_class(), AssetClass::Equity);
    assert_eq!(Instrument::parse("ES=F").asset_class(), AssetClass::Future);
    assert_eq!(Instrument::parse("EURUSD=X").asset_class(), AssetClass::Forex);
    assert_eq!(Instrument::parse("BTC-USD").asset_class(), AssetClass::Crypto);
    assert_eq!(Instrument::parse("^VIX").asset_class(), AssetClass::Index);
}

#[test]
fn forex_pair_splits_correctly() {
    match Instrument::parse("eurusd=x") {
        Instrument::Forex { base, quote } => {
            assert_eq!(base, "EUR");
            assert_eq!(quote, "USD");
        }
        other => panic!("expected forex, got {other:?}"),
    }
}

#[test]
fn index_is_not_orderable() {
    assert!(!Instrument::parse("^TNX").is_orderable());
    assert!(Instrument::parse("AAPL").is_orderable());
}

#[test]
fn regime_index_roundtrip() {
    for r in Regime::all() {
        assert_eq!(Regime::from_index(r.index()), r);
    }
}

#[test]
fn parse_trims_and_uppercases() {
    match Instrument::parse("  aapl \t") {
        Instrument::Equity { symbol } => assert_eq!(symbol, "AAPL"),
        other => panic!("expected equity, got {other:?}"),
    }
    match Instrument::parse("\u{3000}es=f\u{2003}") {
        Instrument::Future { root, yf } => {
            assert_eq!(root, "ES");
            assert_eq!(yf, "ES=F");
        }
        other => panic!("expected future, got {other:?}"),
    }
}

#[test]
fn index_keeps_caret_and_wins_over_suffixes() {
    match Instrument::parse("^es=f") {
        Instrument::Index { symbol } => assert_eq!(symbol, "^ES=F"),
        other => panic!("expected index, got {other:?}"),
    }
}

#[test]
fn short_forex_pair_is_quoted_in_usd() {
    match Instrument::parse("JPY=X") {
        Instrument::Forex { base, quote } => {
            assert_eq!(base, "JPY");
            assert_eq!(quote, "USD");
        }
        other => panic!("expected forex, got {other:?}"),
    }
    match Instrument::parse("EU=X") {
        Instrument::Forex { base, quote } => {
            assert_eq!(base, "EU");
            assert_eq!(quote, "USD");
        }
        other => panic!("expected forex, got {other:?}"),
    }
}

#[test]
fn six_byte_pair_splits_at_byte_three() {
    // "AÉBCD" is six bytes ('É' takes two); byte 3 falls right after "AÉ".
    match Instrument::parse("aÉbcd=X") {
        Instrument::Forex { base, quote } => {
            assert_eq!(base, "AÉ");
            assert_eq!(quote, "BCD");
        }
        other => panic!("expected forex, got {other:?}"),
    }
}

#[test]
fn crypto_suffixes() {
    assert_eq!(Instrument::parse("eth-usdt").asset_class(), AssetClass::Crypto);
    assert_eq!(Instrument::parse("SOL-BTC").asset_class(), AssetClass::Crypto);
    assert_eq!(Instrument::parse("SOL-EUR").asset_class(), AssetClass::Equity);
}

#[test]
fn yf_ticker_roundtrips() {
    for t in ["AAPL", "ES=F", "EURUSD=X", "JPY=X", "BTC-USD", "^VIX", ""] {
        let i = Instrument::parse(t);
        let again = Instrument::parse(&i.yf_ticker());
        assert_eq!(format!("{:?}", again), format!("{:?}", i));
    }
    assert_eq!(Instrument::parse("eurusd=x").yf_ticker(), "EURUSD=X");
    assert_eq!(Instrument::parse("jpy=x").yf_ticker(), "JPYUSD=X");
}

#[test]
fn forex_pair_of_other_length_does_not_roundtrip() {
    let i = Instrument::parse("EU=X");
    let again = Instrument::parse(&i.yf_ticker());
    match again {
        Instrument::Forex { base, quote } => {
            assert_eq!(base, "EUUSD");
            assert_eq!(quote, "USD");
        }
        other => panic!("expected forex, got {other:?}"),
    }
}

#[test]
fn non_equity_flags() {
    assert!(!Instrument::parse("SPY").is_non_equity());
    assert!(Instrument::parse("CL=F").is_non_equity());
    assert!(Instrument::parse("^TNX").is_non_equity());
}

#[test]
fn regime_labels_and_saturation() {
    assert_eq!(Regime::Bull.as_str(), "BULL");
    assert_eq!(Regime::Stagflation.as_str(), "STAGFLATION");
    assert_eq!(Regime::Goldilocks.index(), 5);
    assert_eq!(Regime::from_index(8), Regime::Stagflation);
    assert_eq!(Regime::from_index(usize::MAX), Regime::Stagflation);
    assert_eq!(Regime::all().len(), 8);
}

#[test]
fn ascii_tickers_keep_their_normal_form() {
    // the canonical ticker is the trimmed, upper-cased input ...
    for raw in [" spy ", "es=f", "^vix", "btc-usd", "gbpjpy=x"] {
        let normal = raw.trim().to_ascii_uppercase();
        let i = Instrument::parse(raw);
        assert_eq!(i.yf_ticker(), normal);
        assert_eq!(Instrument::parse(&i.yf_ticker()).yf_ticker(), normal);
    }
    // ... except a short FX pair, which is quoted in USD
    assert_eq!(Instrument::parse("chf=x").yf_ticker(), "CHFUSD=X");
    // a four-letter FX base does not survive a second parse
    let odd = Instrument::parse("abcd=x");
    let again = Instrument::parse(&odd.yf_ticker());
    assert_eq!(odd.yf_ticker(), "ABCDUSD=X");
    assert_eq!(again.yf_ticker(), "ABCDUSDUSD=X");
}
