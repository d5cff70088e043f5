use bencher_core::adapter_rust::{parse_rust_bench, to_duration, to_u64, AdapterRustBench, Units};
use bencher_core::SCALE;

fn bench_output_zero() -> String {
    let mut s = String::new();
    s.push('\n');
    s.push_str("running 0 tests\n");
    s.push('\n');
    s.push_str("test result: ok. 0 passed; 0 failed; 0 ignored; 0 measured\n");
    s
}

fn bench_output_one() -> String {
    let mut s = String::new();
    s.push('\n');
    s.push_str("running 1 test\n");
    s.push_str("test tests::benchmark_a ... bench:       3,247 ns/iter (+/- 1,044)\n");
    s.push('\n');
    s.push_str("test result: ok. 0 passed; 0 failed; 0 ignored; 1 measured\n");
    s
}

fn bench_output_two() -> String {
    let mut s = String::new();
    s.push('\n');
    s.push_str("running 2 tests\n");
    s.push_str("test tests::benchmark_a ... bench:       3,247 ns/iter (+/- 1,044)\n");
    s.push_str("test tests::benchmark_b ... bench:       3,443 ns/iter (+/- 2,275)\n");
    s.push('\n');
    s.push_str("test result: ok. 0 passed; 0 failed; 0 ignored; 2 measured\n");
    s
}

#[test]
fn test_adapter_rust_zero() {
    let map = AdapterRustBench::convert(&bench_output_zero()).expect("Failed to convert contents");
    assert_eq!(map.len(), 0);
}

#[test]
fn test_adapter_rust_one() {
    let map = AdapterRustBench::convert(&bench_output_one()).expect("Failed to convert contents");
    assert_eq!(map.len(), 1);
    let metrics = map.get("tests::benchmark_a").unwrap();
    let m = metrics.get("latency").unwrap();
    assert_eq!(m.value, 3247 * SCALE);
}

#[test]
fn test_adapter_rust_two() {
    let map = AdapterRustBench::convert(&bench_output_two()).expect("Failed to convert contents");
    assert_eq!(map.len(), 2);
}

#[test]
fn scenario_three_benches_and_ignored() {
    let mut s = String::new();
    s.push('\n');
    s.push_str("running 3 tests\n");
    s.push_str("test tests::benchmark_a ... bench:       3,247 ns/iter (+/- 1,044)\n");
    s.push_str("test tests::benchmark_b ... bench:       3,443 ns/iter (+/- 2,275)\n");
    s.push_str("test tests::ignored_one ... ignored\n");
    s.push_str("test tests::benchmark_c ... bench:       3,361 ns/iter (+/- 1,093)\n");
    s.push('\n');
    let map = AdapterRustBench::convert(&s).expect("Failed to convert contents");
    assert_eq!(map.len(), 3);

    let m = map.get("tests::benchmark_a").unwrap().get("latency").unwrap();
    assert_eq!(m.value, 3247 * SCALE);
    assert_eq!(m.lower_bound, Some(1044 * SCALE));
    assert_eq!(m.upper_bound, Some(1044 * SCALE));

    let m = map.get("tests::benchmark_b").unwrap().get("latency").unwrap();
    assert_eq!(m.value, 3443 * SCALE);
    assert_eq!(m.lower_bound, Some(2275 * SCALE));
    assert_eq!(m.upper_bound, Some(2275 * SCALE));

    let m = map.get("tests::benchmark_c").unwrap().get("latency").unwrap();
    assert_eq!(m.value, 3361 * SCALE);
    assert_eq!(m.lower_bound, Some(1093 * SCALE));
    assert_eq!(m.upper_bound, Some(1093 * SCALE));

    assert!(map.get("tests::ignored_one").is_none());
}

#[test]
fn leading_blank_line_is_optional() {
    let mut s = String::new();
    s.push_str("running 1 test\n");
    s.push_str("test tests::benchmark_a ... bench: 5 ns/iter (+/- 1)\n");
    s.push('\n');
    let map = AdapterRustBench::convert(&s).expect("header-first input must parse");
    assert_eq!(map.len(), 1);
    let m = map.get("tests::benchmark_a").unwrap().get("latency").unwrap();
    assert_eq!(m.value, 5 * SCALE);
}

#[test]
fn malformed_line_fails_whole_parse() {
    let mut s = String::new();
    s.push('\n');
    s.push_str("running 2 tests\n");
    s.push_str("test tests::benchmark_a ... bench:       3,247 ns/iter (+/- 1,044)\n");
    s.push_str("test tests::benchmark_b ... bench:       oops ns/iter (+/- 1)\n");
    s.push('\n');
    assert!(AdapterRustBench::convert(&s).is_err());
}

#[test]
fn missing_header_fails() {
    assert!(parse_rust_bench("garbage").is_err());
    assert!(parse_rust_bench("\nwalking 3 tests\n\n").is_err());
}

#[test]
fn unknown_unit_fails() {
    let mut s = String::new();
    s.push('\n');
    s.push_str("running 1 test\n");
    s.push_str("test tests::benchmark_a ... bench: 10 parsecs/iter (+/- 1)\n");
    s.push('\n');
    assert!(AdapterRustBench::convert(&s).is_err());
}

#[test]
fn microseconds_scale_to_nanoseconds() {
    let mut s = String::new();
    s.push('\n');
    s.push_str("running 1 test\n");
    s.push_str("test tests::benchmark_a ... bench: 2 μs/iter (+/- 1)\n");
    s.push('\n');
    let map = AdapterRustBench::convert(&s).unwrap();
    let m = map.get("tests::benchmark_a").unwrap().get("latency").unwrap();
    assert_eq!(m.value, 2 * 1000 * SCALE);
    assert_eq!(m.lower_bound, Some(1000 * SCALE));
}

#[test]
fn to_u64_strips_and_overflows() {
    let digits: Vec<char> = "3247".chars().collect();
    assert_eq!(to_u64(&digits), Some(3247));
    let digits: Vec<char> = "18446744073709551615".chars().collect();
    assert_eq!(to_u64(&digits), Some(u64::MAX));
    let digits: Vec<char> = "18446744073709551616".chars().collect();
    assert_eq!(to_u64(&digits), None);
}

#[test]
fn to_duration_unit_factors() {
    assert_eq!(to_duration(7, &Units::Nano), 7);
    assert_eq!(to_duration(7, &Units::Micro), 7_000);
    assert_eq!(to_duration(7, &Units::Milli), 7_000_000);
    assert_eq!(to_duration(7, &Units::Sec), 7_000_000_000);
}

#[test]
fn units_from_abbrev() {
    let ns: Vec<char> = "ns".chars().collect();
    assert!(Units::from_abbrev(&ns).is_some());
    let us: Vec<char> = "μs".chars().collect();
    assert!(Units::from_abbrev(&us).is_some());
    let bad: Vec<char> = "h".chars().collect();
    assert!(Units::from_abbrev(&bad).is_none());
}

#[test]
fn thousands_separators_are_stripped() {
    let mut s = String::new();
    s.push('\n');
    s.push_str("running 1 test\n");
    s.push_str("test tests::benchmark_a ... bench: 1,234,567 ns/iter (+/- 1,044)\n");
    s.push('\n');
    let map = AdapterRustBench::convert(&s).unwrap();
    let m = map.get("tests::benchmark_a").unwrap().get("latency").unwrap();
    assert_eq!(m.value, 1_234_567 * SCALE);
    // A trailing separator after the digit groups is consumed with them.
    let mut s = String::new();
    s.push('\n');
    s.push_str("running 1 test\n");
    s.push_str("test tests::benchmark_a ... bench: 12, ns/iter (+/- 1)\n");
    s.push('\n');
    let map = AdapterRustBench::convert(&s).unwrap();
    let m = map.get("tests::benchmark_a").unwrap().get("latency").unwrap();
    assert_eq!(m.value, 12 * SCALE);
}

#[test]
fn duplicate_benchmark_keeps_last() {
    let mut s = String::new();
    s.push('\n');
    s.push_str("running 2 tests\n");
    s.push_str("test tests::benchmark_a ... bench: 1 ns/iter (+/- 1)\n");
    s.push_str("test tests::benchmark_a ... bench: 2 ns/iter (+/- 2)\n");
    s.push('\n');
    let map = AdapterRustBench::convert(&s).unwrap();
    assert_eq!(map.len(), 1);
    let m = map.get("tests::benchmark_a").unwrap().get("latency").unwrap();
    assert_eq!(m.value, 2 * SCALE);
}
