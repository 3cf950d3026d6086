use rr_bench::config::{parse_duration_str, Config};
use rr_bench::data_gen::DataGenerator;
use rr_bench::pretty_duration::PrettyDuration;

#[test]
fn flags_parse_pairs_and_separated_values() {
    let args = vec![
        "--db-path".to_string(),
        "/tmp/bench.db".to_string(),
        "key=value".to_string(),
    ];
    let config = Config::from_args(&args);
    assert_eq!(config.get("db-path"), Some("/tmp/bench.db".to_string()));
    assert_eq!(config.get("key"), Some("value".to_string()));
    assert_eq!(config.get("missing"), None);
}

#[test]
fn flags_split_at_first_equals_only() {
    let args = vec!["url=postgres://host?a=b".to_string()];
    let config = Config::from_args(&args);
    assert_eq!(config.get("url"), Some("postgres://host?a=b".to_string()));
}

#[test]
fn later_flag_overrides_earlier() {
    let args = vec!["a=1".to_string(), "a=2".to_string()];
    let config = Config::from_args(&args);
    assert_eq!(config.get("a"), Some("2".to_string()));
}

#[test]
fn trailing_flag_without_value_is_dropped() {
    let args = vec!["--flag".to_string()];
    let config = Config::from_args(&args);
    assert_eq!(config.get("flag"), None);
}

#[test]
fn durations_parse_like_humantime() {
    assert_eq!(parse_duration_str("10s"), Ok(10_000_000_000));
    assert_eq!(parse_duration_str("5m"), Ok(300_000_000_000));
    assert_eq!(parse_duration_str("1h"), Ok(3_600_000_000_000));
    assert_eq!(parse_duration_str("32ms"), Ok(32_000_000));
    assert_eq!(parse_duration_str("2d"), Ok(172_800_000_000_000));
    assert_eq!(parse_duration_str("0"), Ok(0));
    assert!(parse_duration_str("bogus").is_err());
    assert!(parse_duration_str("").is_err());
}

#[test]
fn durations_outside_the_accepted_shape_are_rejected() {
    // Only one span of up to nineteen digits plus a unit is accepted.
    assert!(parse_duration_str("2h 37min").is_err());
    assert!(parse_duration_str("1.5s").is_err());
    assert!(parse_duration_str("10 s").is_err());
    assert!(parse_duration_str("99999999999999999999s").is_err());
    // The extreme carry input the parser itself cannot survive never
    // reaches it.
    assert!(parse_duration_str("18446744073709551615s 1000000000ns").is_err());
    // A nineteen-digit span is in shape but overflows 64-bit nanoseconds.
    assert!(parse_duration_str("9999999999999999999s").is_err());
}

#[test]
fn pretty_duration_splits_millis_and_fraction() {
    let d = PrettyDuration::from_nanos(1_234_567);
    assert_eq!(d.as_nanos(), 1_234_567);
    assert_eq!(d.millis_whole(), 1);
    assert_eq!(d.millis_frac_nanos(), 234_567);
}

#[test]
fn generator_is_deterministic_per_seed() {
    let mut a = DataGenerator::new(42);
    let mut b = DataGenerator::new(42);
    let ca = a.generate_customer();
    let cb = b.generate_customer();
    assert_eq!(ca.name, cb.name);
    assert_eq!(ca.address, cb.address);
    assert!(!ca.name.is_empty());
}

#[test]
fn generated_fields_stay_in_documented_ranges() {
    let mut g = DataGenerator::new(7);
    for _ in 0..50 {
        let account = g.generate_account();
        assert!(account.balance_cents < 1_000_000);
        assert!(
            ["Savings", "Checking", "Brokerage", "Investment"]
                .contains(&account.account_type.as_str())
        );
        let trade = g.generate_trade();
        assert!(["buy", "sell"].contains(&trade.trade_type.as_str()));
        assert!((1..1000).contains(&trade.quantity));
        assert!((10_000..50_000).contains(&trade.price_cents));
        let order = g.generate_order();
        assert!((100..100_000).contains(&order.limit_price_cents));
        assert_eq!(order.limit_price_cents % 100, 0);
        assert!(["pending", "completed", "canceled"].contains(&order.status.as_str()));
        let md = g.generate_market_data();
        assert!((10_000..50_000).contains(&md.price_cents));
        assert!((1000..100_000).contains(&md.volume));
    }
}

#[test]
fn tickers_are_four_alphanumeric_characters() {
    let mut g = DataGenerator::new(9);
    for _ in 0..50 {
        let security = g.generate_security();
        assert_eq!(security.ticker.chars().count(), 4);
        assert!(security.ticker.chars().all(|c| c.is_ascii_alphanumeric()));
    }
}
