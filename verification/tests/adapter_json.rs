use bencher_core::adapter_json::{parse_json, serialize_json, AdapterJson, Settings};
use bencher_core::benchmarks::{JsonBenchmarksMap, JsonMetrics};
use bencher_core::metric::JsonMetric;
use bencher_core::SCALE;

fn canonical_latency_report() -> String {
    let mut s = String::new();
    s.push('{');
    s.push_str("\"tests::benchmark_a\":{\"latency\":{\"value\":32470000,");
    s.push_str("\"lower_bound\":10440000,\"upper_bound\":10440000}},");
    s.push_str("\"tests::benchmark_b\":{\"latency\":{\"value\":34430000,");
    s.push_str("\"lower_bound\":22750000,\"upper_bound\":22750000}},");
    s.push_str("\"tests::benchmark_c\":{\"latency\":{\"value\":33610000,");
    s.push_str("\"lower_bound\":10930000,\"upper_bound\":10930000}}");
    s.push('}');
    s
}

fn validate_metrics(metrics: &JsonMetrics, value: u64, lower: Option<u64>, upper: Option<u64>) {
    let m = metrics.get("latency").unwrap();
    assert_eq!(m.value, value);
    assert_eq!(m.lower_bound, lower);
    assert_eq!(m.upper_bound, upper);
}

#[test]
fn test_adapter_json_latency() {
    let results = AdapterJson::parse(&canonical_latency_report(), Settings::default()).unwrap();
    assert_eq!(results.len(), 3);

    let metrics = results.get("tests::benchmark_a").unwrap();
    validate_metrics(metrics, 3247 * SCALE, Some(1044 * SCALE), Some(1044 * SCALE));

    let metrics = results.get("tests::benchmark_b").unwrap();
    validate_metrics(metrics, 3443 * SCALE, Some(2275 * SCALE), Some(2275 * SCALE));

    let metrics = results.get("tests::benchmark_c").unwrap();
    validate_metrics(metrics, 3361 * SCALE, Some(1093 * SCALE), Some(1093 * SCALE));
}

fn sample_map() -> JsonBenchmarksMap {
    let mut map = JsonBenchmarksMap::new();
    let mut kinds = JsonMetrics::new();
    kinds.insert(
        String::from("latency"),
        JsonMetric { value: 32470000, lower_bound: Some(10440000), upper_bound: Some(10440000) },
    );
    kinds.insert(
        String::from("throughput"),
        JsonMetric { value: 5, lower_bound: None, upper_bound: None },
    );
    map.insert(String::from("tests::benchmark_a"), kinds);
    let mut kinds_b = JsonMetrics::new();
    kinds_b.insert(
        String::from("latency"),
        JsonMetric { value: 0, lower_bound: None, upper_bound: Some(u64::MAX) },
    );
    map.insert(String::from("tests::benchmark_b"), kinds_b);
    map
}

#[test]
fn round_trip_canonical_form() {
    let map = sample_map();
    let text = serialize_json(&map);
    let back = parse_json(&text).expect("canonical form must parse");
    assert_eq!(back.len(), 2);
    let metrics = back.get("tests::benchmark_a").unwrap();
    validate_metrics(metrics, 32470000, Some(10440000), Some(10440000));
    let m = metrics.get("throughput").unwrap();
    assert_eq!(m.value, 5);
    assert_eq!(m.lower_bound, None);
    let metrics = back.get("tests::benchmark_b").unwrap();
    validate_metrics(metrics, 0, None, Some(u64::MAX));
    assert_eq!(serialize_json(&back), text);
}

#[test]
fn round_trip_empty_map() {
    let map = JsonBenchmarksMap::new();
    let text = serialize_json(&map);
    assert_eq!(text, "{}");
    let back = parse_json(&text).unwrap();
    assert_eq!(back.len(), 0);
}

#[test]
fn parse_rejects_malformed() {
    assert!(parse_json("").is_err());
    assert!(parse_json("{").is_err());
    assert!(parse_json("[]").is_err());
    assert!(parse_json("{\"a\":{\"latency\":{\"value\":1,\"lower_bound\":null}}}").is_err());
    assert!(parse_json("{\"a\"{}}").is_err());
    assert!(parse_json("{\"a\":{}}").is_ok());
    let ok = "{\"a\":{\"latency\":{\"value\":1,\"lower_bound\":null,\"upper_bound\":null}}}";
    assert!(parse_json(ok).is_ok());
}

#[test]
fn parse_rejects_duplicate_keys() {
    let dup = "{\"a\":{\"latency\":{\"value\":1,\"lower_bound\":null,\"upper_bound\":null}},\
\"a\":{\"latency\":{\"value\":2,\"lower_bound\":null,\"upper_bound\":null}}}";
    assert!(parse_json(dup).is_err());
    let dup_kind = "{\"a\":{\"latency\":{\"value\":1,\"lower_bound\":null,\"upper_bound\":null},\
\"latency\":{\"value\":2,\"lower_bound\":null,\"upper_bound\":null}}}";
    assert!(parse_json(dup_kind).is_err());
}

#[test]
fn parse_rejects_oversized_number() {
    let big = "{\"a\":{\"latency\":{\"value\":18446744073709551616,\
\"lower_bound\":null,\"upper_bound\":null}}}";
    assert!(parse_json(big).is_err());
    let fits = "{\"a\":{\"latency\":{\"value\":18446744073709551615,\
\"lower_bound\":null,\"upper_bound\":null}}}";
    assert_eq!(
        parse_json(fits).unwrap().get("a").unwrap().get("latency").unwrap().value,
        u64::MAX
    );
}

#[test]
fn whitespace_between_tokens_is_insignificant() {
    let pretty = "  {\n  \"tests::benchmark_a\" : {\n    \"latency\" : {\n      \"value\" : 32470000 ,\n      \"lower_bound\" : null ,\n      \"upper_bound\" : 10440000\n    }\n  } ,\n  \"b\" : {}\n}\n";
    let map = parse_json(pretty).expect("whitespace between tokens must be accepted");
    assert_eq!(map.len(), 2);
    let m = map.get("tests::benchmark_a").unwrap().get("latency").unwrap();
    assert_eq!(m.value, 32470000);
    assert_eq!(m.lower_bound, None);
    assert_eq!(m.upper_bound, Some(10440000));
    // Whitespace never splits a token or enters a name or number.
    assert!(parse_json("{\"a\":{\"latency\":{\"val ue\":1,\"lower_bound\":null,\"upper_bound\":null}}}").is_err());
    assert!(parse_json("{\"a\":{\"latency\":{\"value\":1 2,\"lower_bound\":null,\"upper_bound\":null}}}").is_err());
}

#[test]
fn names_with_escape_characters_are_refused() {
    // The canonical form carries no escapes: a backslash in a name cannot
    // round-trip and is rejected.
    let bad = "{\"a\\b\":{\"latency\":{\"value\":1,\"lower_bound\":null,\"upper_bound\":null}}}";
    assert!(parse_json(bad).is_err());
}

#[test]
fn parse_rejects_trailing_input() {
    let ok = "{\"a\":{\"latency\":{\"value\":1,\"lower_bound\":null,\"upper_bound\":null}}}";
    let mut with_ws_tail = String::from(ok);
    with_ws_tail.push_str(" \n\t");
    assert!(parse_json(&with_ws_tail).is_ok());
    let mut with_tail = String::from(ok);
    with_tail.push('x');
    assert!(parse_json(&with_tail).is_err());
}
