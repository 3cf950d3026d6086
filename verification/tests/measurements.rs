use rr_bench::measurements::Measurements;

#[test]
fn empty_stats_fail_explicitly() {
    let m = Measurements::new(1_000_000_000);
    assert_eq!(m.total_transactions(), 0);
    assert!(m.min().is_none());
    assert!(m.max().is_none());
    assert!(m.average().is_none());
    assert!(m.median().is_none());
    assert!(m.percentile(95).is_none());
    assert!(m.percentile_95().is_none());
    assert!(m.percentile_99().is_none());
    assert!(m.standard_deviation().is_none());
}

#[test]
fn min_max_average_median_odd() {
    let mut m = Measurements::new(1_000_000_000);
    m.push(3);
    m.push(1);
    m.push(2);
    assert_eq!(m.total_transactions(), 3);
    assert_eq!(m.min(), Some(1));
    assert_eq!(m.max(), Some(3));
    assert_eq!(m.average(), Some(2));
    assert_eq!(m.median(), Some(2));
}

#[test]
fn median_even_count_averages_middle_pair() {
    let mut m = Measurements::new(1_000_000_000);
    for v in [4, 1, 3, 2] {
        m.push(v);
    }
    // sorted: 1 2 3 4; middle pair 2 and 3; truncated mean.
    assert_eq!(m.median(), Some(2));
    assert_eq!(m.average(), Some(2));
}

#[test]
fn min_le_median_le_max_on_samples() {
    let mut m = Measurements::new(1_000_000_000);
    for v in [17, 3, 99, 42, 7, 3, 64] {
        m.push(v);
    }
    let lo = m.min().unwrap();
    let mid = m.median().unwrap();
    let avg = m.average().unwrap();
    let hi = m.max().unwrap();
    assert!(lo <= mid && mid <= hi);
    assert!(lo <= avg && avg <= hi);
}

#[test]
fn percentile_reads_ceiling_index() {
    let mut m = Measurements::new(1_000_000_000);
    for v in [10, 20, 30, 40, 50, 60, 70, 80, 90, 100] {
        m.push(v);
    }
    // index = ceil(p/100 * 10) - 1, clamped.
    assert_eq!(m.percentile(50), Some(50));
    assert_eq!(m.percentile(95), Some(100));
    assert_eq!(m.percentile_95(), Some(100));
    assert_eq!(m.percentile_99(), Some(100));
    assert_eq!(m.percentile(91), Some(100));
    assert_eq!(m.percentile(90), Some(90));
}

#[test]
fn percentile_hundred_is_max_and_near_zero_clamps_to_min() {
    let mut m = Measurements::new(1_000_000_000);
    for v in [25, 5, 75, 45] {
        m.push(v);
    }
    assert_eq!(m.percentile(100), m.max());
    assert_eq!(m.percentile(1), m.min());
    assert_eq!(m.percentile(0), m.min());
}

#[test]
fn ninety_ninth_percentile_uses_its_own_percentage() {
    let mut m = Measurements::new(1_000_000_000);
    // 100 samples 1..=100: p95 reads index 94, p99 reads index 98.
    for v in 1..=100 {
        m.push(v);
    }
    assert_eq!(m.percentile_95(), Some(95));
    assert_eq!(m.percentile_99(), Some(99));
    assert_ne!(m.percentile_95(), m.percentile_99());
}

#[test]
fn standard_deviation_zero_iff_all_equal() {
    let mut same = Measurements::new(1_000_000_000);
    for _ in 0..5 {
        same.push(123);
    }
    assert_eq!(same.standard_deviation(), Some(0));

    let mut diff = Measurements::new(1_000_000_000);
    diff.push(0);
    diff.push(1);
    // A sub-nanosecond true deviation still must not report zero.
    assert!(diff.standard_deviation().unwrap() > 0);
}

#[test]
fn standard_deviation_exact_value() {
    let mut m = Measurements::new(1_000_000_000);
    for v in [2, 4, 4, 4, 5, 5, 7, 9] {
        m.push(v);
    }
    // mean 5, squared deviations sum 32, population variance 4, sigma 2.
    assert_eq!(m.average(), Some(5));
    assert_eq!(m.standard_deviation(), Some(2));
}

#[test]
fn throughput_uses_configured_duration() {
    let mut m = Measurements::new(2_000_000_000);
    for _ in 0..20 {
        m.push(100_000_000);
    }
    // 20 transactions over the configured 2 s: 10.0 tx/s.
    assert_eq!(m.tps_milli(), 10_000);
}
