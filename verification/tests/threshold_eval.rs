use bencher_core::benchmarks::{JsonBenchmarksMap, JsonMetrics};
use bencher_core::latency::Latency;
use bencher_core::metric::JsonMetric;
use bencher_core::threshold::{JsonSide, Side, StatisticKind, Threshold};
use bencher_core::SCALE;

fn threshold(statistic: StatisticKind, side: Side) -> Threshold {
    Threshold {
        branch: 1,
        testbed: 2,
        metric_kind: String::from("latency"),
        statistic,
        side,
    }
}

fn history() -> Vec<u64> {
    vec![100 * SCALE, 102 * SCALE, 98 * SCALE, 101 * SCALE, 99 * SCALE]
}

fn one_benchmark_map(value: u64) -> JsonBenchmarksMap {
    let mut kinds = JsonMetrics::new();
    kinds.insert(
        String::from("latency"),
        JsonMetric { value, lower_bound: None, upper_bound: None },
    );
    let mut map = JsonBenchmarksMap::new();
    map.insert(String::from("tests::benchmark_a"), kinds);
    map
}

fn histories() -> Vec<(String, Vec<u64>)> {
    vec![(String::from("tests::benchmark_a"), history())]
}

#[test]
fn z_score_right_alerts_above_boundary() {
    let th = threshold(StatisticKind::ZScore(3 * SCALE), Side::Right);
    let (latency, alerts) =
        Latency::new(7, Some(th), &one_benchmark_map(107 * SCALE), &histories()).unwrap();
    assert!(alerts.is_empty());
    let latency = latency.unwrap();
    let alert = latency.z_score(11, "tests::benchmark_a", 107 * SCALE).unwrap();
    // boundary = 100 + 3 * 1.5811 = 104.7433
    assert_eq!(alert.boundary, 1_047_433);
    assert_eq!(alert.outlier, 107 * SCALE);
    assert_eq!(alert.side, JsonSide::Right);
    assert_eq!(alert.report, 7);
    assert_eq!(alert.perf, Some(11));
    assert_eq!(alert.branch, 1);
    assert_eq!(alert.testbed, 2);
    assert_eq!(alert.benchmark, "tests::benchmark_a");
    assert_eq!(alert.metric_kind, "latency");

    assert!(latency.z_score(11, "tests::benchmark_a", 103 * SCALE).is_none());
}

#[test]
fn z_score_without_baseline_is_silent() {
    let th = threshold(StatisticKind::ZScore(3 * SCALE), Side::Right);
    let sparse = vec![(String::from("tests::benchmark_a"), vec![100 * SCALE])];
    let (latency, alerts) =
        Latency::new(7, Some(th), &one_benchmark_map(999 * SCALE), &sparse).unwrap();
    assert!(alerts.is_empty());
    let latency = latency.unwrap();
    assert!(latency.z_score(11, "tests::benchmark_a", 999 * SCALE).is_none());
    assert!(latency.z_score(11, "tests::unknown", 999 * SCALE).is_none());
}

#[test]
fn no_threshold_no_alerts() {
    let (latency, alerts) =
        Latency::new(7, None, &one_benchmark_map(107 * SCALE), &histories()).unwrap();
    assert!(latency.is_none());
    assert!(alerts.is_empty());
}

#[test]
fn static_threshold_both_sides() {
    let th = threshold(StatisticKind::Static(50 * SCALE), Side::Both);
    let (latency, _) =
        Latency::new(7, Some(th), &one_benchmark_map(60 * SCALE), &histories()).unwrap();
    let latency = latency.unwrap();
    let alert = latency.z_score(1, "tests::benchmark_a", 60 * SCALE).unwrap();
    assert_eq!(alert.side, JsonSide::Right);
    assert_eq!(alert.boundary, 50 * SCALE);
    let alert = latency.z_score(1, "tests::benchmark_a", 40 * SCALE).unwrap();
    assert_eq!(alert.side, JsonSide::Left);
    assert!(latency.z_score(1, "tests::benchmark_a", 50 * SCALE).is_none());
}

#[test]
fn percentage_threshold_left() {
    // 10% below the mean of 100.0 -> boundary 90.0
    let th = threshold(StatisticKind::Percentage(1000), Side::Left);
    let (latency, _) =
        Latency::new(7, Some(th), &one_benchmark_map(80 * SCALE), &histories()).unwrap();
    let latency = latency.unwrap();
    let alert = latency.z_score(1, "tests::benchmark_a", 80 * SCALE).unwrap();
    assert_eq!(alert.side, JsonSide::Left);
    assert_eq!(alert.boundary, 90 * SCALE);
    assert!(latency.z_score(1, "tests::benchmark_a", 95 * SCALE).is_none());
}

#[test]
fn t_test_batch_is_terminal() {
    // 0.05 one-sided: critical value 1.6449, boundary 100 + 1.6449 * 1.5811.
    let th = threshold(StatisticKind::TTest(500), Side::Right);
    let (latency, alerts) =
        Latency::new(7, Some(th), &one_benchmark_map(107 * SCALE), &histories()).unwrap();
    // The batch pass is terminal: no evaluator instance remains.
    assert!(latency.is_none());
    assert_eq!(alerts.len(), 1);
    assert_eq!(alerts[0].outlier, 107 * SCALE);
    assert_eq!(alerts[0].side, JsonSide::Right);
    assert_eq!(alerts[0].perf, None);
    // boundary = 1000000 + (16449 * 15811) / 10000 = 1026007 (truncated)
    assert_eq!(alerts[0].boundary, 1_000_000 + (16449u64 * 15811) / 10000);
}

#[test]
fn t_test_quiet_below_boundary() {
    let th = threshold(StatisticKind::TTest(500), Side::Right);
    let (latency, alerts) =
        Latency::new(7, Some(th), &one_benchmark_map(101 * SCALE), &histories()).unwrap();
    assert!(latency.is_none());
    assert!(alerts.is_empty());
}

#[test]
fn t_test_unsupported_level_is_config_error() {
    let th = threshold(StatisticKind::TTest(123), Side::Right);
    assert!(Latency::new(7, Some(th), &one_benchmark_map(101 * SCALE), &histories()).is_err());
    // A level at or beyond 1.0 is never tabulated.
    let th = threshold(StatisticKind::TTest(10000), Side::Both);
    assert!(Latency::new(7, Some(th), &one_benchmark_map(101 * SCALE), &histories()).is_err());
}

#[test]
fn independent_metric_kinds_alert_independently() {
    // Two benchmarks, one breaching, under one batch threshold.
    let mut map = one_benchmark_map(107 * SCALE);
    let mut kinds = JsonMetrics::new();
    kinds.insert(
        String::from("latency"),
        JsonMetric { value: 100 * SCALE, lower_bound: None, upper_bound: None },
    );
    map.insert(String::from("tests::benchmark_b"), kinds);
    let mut hs = histories();
    hs.push((String::from("tests::benchmark_b"), history()));
    let th = threshold(StatisticKind::TTest(500), Side::Right);
    let (_, alerts) = Latency::new(7, Some(th), &map, &hs).unwrap();
    assert_eq!(alerts.len(), 1);
    assert_eq!(alerts[0].benchmark, "tests::benchmark_a");
}
