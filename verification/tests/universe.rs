use tootoo::domain::number::Binary64;
use tootoo::domain::recommendation::{get_feature, set_feature, Candidate, Feature};
use tootoo::time::Date;
use tootoo::universe::{
    build_candidate_universe_db, fetch_limit, is_etf_or_etn_name, ScoredCandidate, UniverseError,
    UniverseOptions,
};

fn number(x: f64) -> Binary64 {
    Binary64::from_bits(x.to_bits())
}

fn score(tv: f64, ret_1d: f64) -> f64 {
    (tv / 1_000_000_000.0) + (ret_1d * 10.0)
}

fn row(ticker: &str, name: &str, s: f64) -> ScoredCandidate {
    ScoredCandidate {
        score: number(s),
        candidate: Candidate {
            ticker: ticker.to_string(),
            name: name.to_string(),
            features: vec![Feature { name: "ret_1d".to_string(), value: number(0.0) }],
        },
    }
}

fn options(size: usize) -> UniverseOptions {
    UniverseOptions { size, min_trading_value: None, oversample: 5 }
}

fn day() -> Date {
    Date::from_ymd(2026, 1, 27).unwrap()
}

#[test]
fn excludes_obvious_etf_names() {
    assert!(is_etf_or_etn_name("KODEX 코스닥150레버리지"));
    assert!(is_etf_or_etn_name("TIGER 미국S&P500"));
    assert!(is_etf_or_etn_name("Foo ETF"));
    assert!(is_etf_or_etn_name("Bar ETN"));
    assert!(!is_etf_or_etn_name("삼성전자"));
}

#[test]
fn fund_names_are_told_by_kind_in_any_case_and_by_brand_as_written() {
    assert!(is_etf_or_etn_name("some eTf thing"));
    assert!(is_etf_or_etn_name("xxetnxx"));
    assert!(is_etf_or_etn_name("  PLUS 고배당  "));
    assert!(is_etf_or_etn_name("1Q 미국"));
    assert!(is_etf_or_etn_name("SOLiD"));
    assert!(!is_etf_or_etn_name("kodex lower case brand"));
    assert!(!is_etf_or_etn_name("Solid"));
    assert!(!is_etf_or_etn_name(""));
    assert!(!is_etf_or_etn_name("   "));
    assert!(!is_etf_or_etn_name("E T F"));
}

#[test]
fn rescoring_prefers_ret_1d_given_equal_trading_value() {
    let tv = 1_000_000_000.0;
    let a = row("KRX:000001", "A", score(tv, 0.02));
    let b = row("KRX:000002", "B", score(tv, -0.01));
    let mut rows = vec![b, a];
    for i in 0..198 {
        rows.push(row(&format!("KRX:{:06}", 100 + i), "Filler", score(0.0, -0.05)));
    }
    let out = build_candidate_universe_db(day(), rows, &options(200)).unwrap();
    assert_eq!(out.len(), 200);
    assert_eq!(out[0].ticker, "KRX:000001");
    assert_eq!(out[1].ticker, "KRX:000002");
}

#[test]
fn thousand_eligible_rows_give_the_two_hundred_best() {
    let mut rows = Vec::new();
    let mut expected: Vec<(f64, String)> = Vec::new();
    for i in 0..1000u32 {
        let s = score(((i * 7919) % 1000) as f64 * 1.0e8, (((i * 31) % 200) as f64 - 100.0) / 1000.0);
        let ticker = format!("KRX:{i:06}");
        rows.push(row(&ticker, &format!("Company {i}"), s));
        expected.push((s, ticker));
    }
    expected.sort_by(|a, b| b.0.partial_cmp(&a.0).unwrap().then_with(|| a.1.cmp(&b.1)));
    let out = build_candidate_universe_db(day(), rows, &options(200)).unwrap();
    assert_eq!(out.len(), 200);
    for (got, want) in out.iter().zip(expected.iter()) {
        assert_eq!(got.ticker, want.1);
    }
}

#[test]
fn too_few_eligible_rows_give_no_universe() {
    let mut rows = Vec::new();
    for i in 0..150 {
        rows.push(row(&format!("KRX:{i:06}"), "Company", 1.0));
    }
    for i in 0..100 {
        rows.push(row(&format!("KRX:9{i:05}"), "KODEX 200", 9.0));
    }
    assert_eq!(
        build_candidate_universe_db(day(), rows, &options(200)).unwrap_err(),
        UniverseError::InsufficientCandidates { as_of_date: day(), expected: 200, got: 150 }
    );
}

#[test]
fn funds_never_enter_the_universe() {
    let mut rows = Vec::new();
    for i in 0..200 {
        rows.push(row(&format!("KRX:{i:06}"), "Company", 1.0));
    }
    rows.insert(17, row("KRX:900000", "TIGER 미국S&P500", 100.0));
    rows.push(row("KRX:900001", "Foo etf", 100.0));
    let out = build_candidate_universe_db(day(), rows, &options(200)).unwrap();
    assert_eq!(out.len(), 200);
    assert!(out.iter().all(|c| c.name == "Company"));
}

#[test]
fn equal_scores_are_ordered_by_ticker_and_equal_rows_keep_their_order() {
    let mut rows = Vec::new();
    rows.push(row("KRX:B", "second of the B", 5.0));
    rows.push(row("KRX:A", "the A", 5.0));
    rows.push(row("KRX:B", "third of the B", 5.0));
    rows[0].candidate.name = "first of the B".to_string();
    rows.insert(1, row("KRX:B", "second of the B", 5.0));
    for i in 0..200 {
        rows.push(row(&format!("KRX:{i:06}"), "Company", 1.0));
    }
    let out = build_candidate_universe_db(day(), rows, &options(200)).unwrap();
    let names: Vec<&str> = out.iter().take(4).map(|c| c.name.as_str()).collect();
    assert_eq!(names, ["the A", "first of the B", "second of the B", "third of the B"]);
}

#[test]
fn what_is_not_a_number_ranks_last() {
    let mut rows = Vec::new();
    rows.push(row("KRX:NAN", "Odd", f64::NAN));
    rows.push(row("KRX:NEG", "Low", f64::NEG_INFINITY));
    for i in 0..199 {
        rows.push(row(&format!("KRX:{i:06}"), "Company", -1.0e300));
    }
    let out = build_candidate_universe_db(day(), rows, &options(200)).unwrap();
    assert_eq!(out.len(), 200);
    assert_eq!(out[199].ticker, "KRX:NEG");
    assert!(out.iter().all(|c| c.ticker != "KRX:NAN"));
}

#[test]
fn size_and_oversample_are_checked_first() {
    assert_eq!(
        build_candidate_universe_db(day(), Vec::new(), &options(199)).unwrap_err(),
        UniverseError::SizeOutOfRange { got: 199 }
    );
    assert_eq!(
        build_candidate_universe_db(day(), Vec::new(), &options(501)).unwrap_err(),
        UniverseError::SizeOutOfRange { got: 501 }
    );
    let zero = UniverseOptions { size: 200, min_trading_value: None, oversample: 0 };
    assert_eq!(
        build_candidate_universe_db(day(), Vec::new(), &zero).unwrap_err(),
        UniverseError::OversampleTooSmall
    );
    assert_eq!(fetch_limit(&zero), Err(UniverseError::OversampleTooSmall));
    assert_eq!(fetch_limit(&options(0)), Err(UniverseError::SizeOutOfRange { got: 0 }));
}

#[test]
fn fetch_limit_is_size_times_oversample() {
    assert_eq!(fetch_limit(&options(200)), Ok(1000));
    assert_eq!(fetch_limit(&options(500)), Ok(2500));
    let once = UniverseOptions { size: 321, min_trading_value: None, oversample: 1 };
    assert_eq!(fetch_limit(&once), Ok(321));
    let huge = UniverseOptions { size: 500, min_trading_value: None, oversample: usize::MAX };
    assert_eq!(fetch_limit(&huge), Ok(usize::MAX));
}

#[test]
fn default_options_ask_for_two_hundred_from_five_times_as_many() {
    let d = UniverseOptions::default();
    assert_eq!(d.size, 200);
    assert_eq!(d.oversample, 5);
    assert!(d.min_trading_value.is_none());
}

#[test]
fn every_universe_error_has_its_words() {
    assert_eq!(
        UniverseError::SizeOutOfRange { got: 7 }.message(),
        "candidate universe size must be 200..=500 (got 7)"
    );
    assert_eq!(UniverseError::OversampleTooSmall.message(), "UNIVERSE_OVERSAMPLE must be >= 1");
    assert_eq!(
        UniverseError::InsufficientCandidates { as_of_date: day(), expected: 200, got: 150 }
            .message(),
        "insufficient candidates for as_of_date=2026-01-27 after ETF/ETN exclusion: expected at least 200, got 150"
    );
}

#[test]
fn placeholders_are_numbered_with_six_digits() {
    let c = tootoo::universe::stub_candidate(7, Vec::new());
    assert_eq!(c.ticker, "KRX:000007");
    assert_eq!(c.name, "Stub 000007");
    let c = tootoo::universe::stub_candidate(500, Vec::new());
    assert_eq!(c.ticker, format!("KRX:{:06}", 500));
    let c = tootoo::universe::stub_candidate(1_234_567, Vec::new());
    assert_eq!(c.ticker, "KRX:1234567");
    assert_eq!(c.name, format!("Stub {:06}", 1_234_567));
    let c = tootoo::universe::stub_candidate(0, Vec::new());
    assert_eq!(c.ticker, "KRX:000000");
    assert_eq!(tootoo::universe::check_size(200), Ok(()));
    assert_eq!(tootoo::universe::check_size(500), Ok(()));
    assert_eq!(
        tootoo::universe::check_size(501),
        Err(UniverseError::SizeOutOfRange { got: 501 })
    );
}

#[test]
fn features_are_a_map_from_names_to_values() {
    let mut features: Vec<Feature> = Vec::new();
    set_feature(&mut features, "ret_1d".to_string(), number(0.02));
    set_feature(&mut features, "volume".to_string(), number(1000.0));
    set_feature(&mut features, "ret_1d".to_string(), number(-0.01));
    set_feature(&mut features, "per".to_string(), number(12.5));
    let names: Vec<&str> = features.iter().map(|f| f.name.as_str()).collect();
    assert_eq!(names, ["ret_1d", "volume", "per"]);
    assert_eq!(get_feature(&features, "ret_1d"), Some(number(-0.01)));
    assert_eq!(get_feature(&features, "volume"), Some(number(1000.0)));
    assert_eq!(get_feature(&features, "per"), Some(number(12.5)));
    assert_eq!(get_feature(&features, "pbr"), None);
    assert_eq!(get_feature(&features, "ret"), None);
    assert_eq!(get_feature(&Vec::new(), "ret_1d"), None);
}
