use elara::metrics::{HistogramBound, Labels};
use elara::prometheus::{escape_label_value, format_labels};
use elara::registry::MetricsRegistry;

/// A key that orders floating-point bounds as their values do.
fn order_key(x: f64) -> u64 {
    let bits = if x == 0.0 { 0 } else { x.to_bits() };
    if bits >> 63 == 1 {
        !bits
    } else {
        bits | (1 << 63)
    }
}

fn hbounds(v: &[&str]) -> Vec<HistogramBound> {
    v.iter()
        .map(|s| HistogramBound { order_key: Some(order_key(s.parse::<f64>().unwrap())), text: s.to_string() })
        .collect()
}

fn inc_by(registry: &mut MetricsRegistry, name: &str, n: u64) {
    let id = registry.get_counter(name).unwrap();
    registry.counter_inc_by(id, n);
}

fn set(registry: &mut MetricsRegistry, name: &str, v: i64) {
    let id = registry.get_gauge(name).unwrap();
    registry.gauge_set(id, v);
}

fn record(registry: &mut MetricsRegistry, name: &str, bucket: usize, micros: u64) {
    let id = registry.get_histogram(name).unwrap();
    registry.histogram_record(id, bucket, micros);
}

#[test]
fn test_prometheus_export_format() {
    let mut registry = MetricsRegistry::new();

    registry.register_counter("test_counter".to_string(), vec![]).unwrap();
    inc_by(&mut registry, "test_counter", 5);

    registry.register_gauge("test_gauge".to_string(), vec![]).unwrap();
    set(&mut registry, "test_gauge", -10);

    registry.register_histogram("test_histogram".to_string(), hbounds(&["1.0", "5.0", "10.0"]), vec![]).unwrap();
    record(&mut registry, "test_histogram", 1, 3_000_000);
    record(&mut registry, "test_histogram", 2, 7_000_000);

    let output = registry.export_prometheus(&vec![format!("{}", 10.0f64)]);

    assert!(output.contains("# TYPE test_counter counter"));
    assert!(output.contains("test_counter 5"));

    assert!(output.contains("# TYPE test_gauge gauge"));
    assert!(output.contains("test_gauge -10"));

    assert!(output.contains("# TYPE test_histogram histogram"));
    assert!(output.contains("test_histogram_bucket"));
    assert!(output.contains("le=\"1.0\""));
    assert!(output.contains("le=\"+Inf\""));
    assert!(output.contains("test_histogram_sum"));
    assert!(output.contains("test_histogram_count 2"));
}

#[test]
fn test_prometheus_export_with_labels() {
    let mut registry = MetricsRegistry::new();

    registry.register_counter(
        "labeled_counter".to_string(),
        vec![
            ("node_id".to_string(), "node-1".to_string()),
            ("region".to_string(), "us-west".to_string()),
        ],
    ).unwrap();
    inc_by(&mut registry, "labeled_counter", 1);

    let output = registry.export_prometheus(&vec![]);

    assert!(output.contains("labeled_counter{"));
    assert!(output.contains("node_id=\"node-1\""));
    assert!(output.contains("region=\"us-west\""));
}

#[test]
fn test_label_escaping() {
    let mut registry = MetricsRegistry::new();

    registry.register_counter(
        "escaped_counter".to_string(),
        vec![("label".to_string(), "value with \"quotes\" and \\backslash".to_string())],
    ).unwrap();
    inc_by(&mut registry, "escaped_counter", 1);

    let output = registry.export_prometheus(&vec![]);

    assert!(output.contains("\\\""));
    assert!(output.contains("\\\\"));
}

#[test]
fn exact_export_of_each_kind() {
    let mut registry = MetricsRegistry::new();
    registry.register_counter("c".to_string(), vec![]).unwrap();
    inc_by(&mut registry, "c", 3);
    registry.register_gauge("g".to_string(), vec![("b".to_string(), "2".to_string()), ("a".to_string(), "1".to_string())]).unwrap();
    set(&mut registry, "g", -4);
    registry.register_histogram("h".to_string(), hbounds(&["1.0", "2.0"]), vec![]).unwrap();
    record(&mut registry, "h", 0, 500_000);
    record(&mut registry, "h", 2, 3_000_000);
    record(&mut registry, "h", 1, 1_500_000);
    let output = registry.export_prometheus(&vec!["5".to_string()]);
    let expected = "# HELP c Counter metric\n# TYPE c counter\nc 3\n\
# HELP g Gauge metric\n# TYPE g gauge\ng{a=\"1\",b=\"2\"} -4\n\
# HELP h Histogram metric\n# TYPE h histogram\n\
h_bucket{le=\"1.0\"} 1\nh_bucket{le=\"2.0\"} 2\nh_bucket{le=\"+Inf\"} 3\n\
h_sum 5\nh_count 3\n";
    assert_eq!(output, expected);
}

#[test]
fn histogram_labels_precede_le() {
    let mut registry = MetricsRegistry::new();
    registry.register_histogram("h".to_string(), hbounds(&["1.0"]), vec![("node".to_string(), "n1".to_string())]).unwrap();
    record(&mut registry, "h", 0, 1);
    let output = registry.export_prometheus(&vec!["0.000001".to_string()]);
    assert!(output.contains("h_bucket{node=\"n1\",le=\"1.0\"} 1\n"));
    assert!(output.contains("h_bucket{node=\"n1\",le=\"+Inf\"} 1\n"));
    assert!(output.contains("h_sum{node=\"n1\"} 0.000001\n"));
    assert!(output.contains("h_count{node=\"n1\"} 1\n"));
}

#[test]
fn test_empty_registry() {
    let registry = MetricsRegistry::new();
    assert_eq!(registry.export_prometheus(&vec![]), "");
}

#[test]
fn escaping_of_each_special_character() {
    assert_eq!(escape_label_value("a\\b"), "a\\\\b");
    assert_eq!(escape_label_value("say \"hi\""), "say \\\"hi\\\"");
    assert_eq!(escape_label_value("two\nlines"), "two\\nlines");
    assert_eq!(escape_label_value("plain"), "plain");
    assert!(!escape_label_value("x\ny\nz").contains('\n'));
}

#[test]
fn labels_are_sorted_and_braced() {
    let labels = Labels::from_pairs(vec![
        ("zone".to_string(), "b".to_string()),
        ("app".to_string(), "x\"y".to_string()),
    ]);
    assert_eq!(format_labels(&labels), "{app=\"x\\\"y\",zone=\"b\"}");
    assert_eq!(format_labels(&Labels::empty()), "");
}

fn bucket_of(bounds: &[f64], value: f64) -> usize {
    bounds.iter().position(|&b| value <= b).unwrap_or(bounds.len())
}

#[test]
fn test_prometheus_format_compliance() {
    let mut registry = MetricsRegistry::new();
    registry.register_counter("test_counter".to_string(), vec![]).unwrap();
    inc_by(&mut registry, "test_counter", 42);
    registry.register_gauge("test_gauge".to_string(), vec![]).unwrap();
    set(&mut registry, "test_gauge", 100);
    let bounds = [1.0, 10.0, 100.0, 1000.0];
    registry.register_histogram("test_histogram".to_string(), hbounds(&["1.0", "10.0", "100.0", "1000.0"]), vec![]).unwrap();
    for v in [5.0, 50.0, 500.0] {
        record(&mut registry, "test_histogram", bucket_of(&bounds, v), (v * 1_000_000.0) as u64);
    }
    let sum = registry.histogram(registry.get_histogram("test_histogram").unwrap()).get_sum_micros() as f64 / 1_000_000.0;
    let output = registry.export_prometheus(&vec![format!("{}", sum)]);

    assert!(output.contains("# HELP test_counter"));
    assert!(output.contains("# TYPE test_counter counter"));
    assert!(output.contains("# HELP test_gauge"));
    assert!(output.contains("# TYPE test_gauge gauge"));
    assert!(output.contains("# HELP test_histogram"));
    assert!(output.contains("# TYPE test_histogram histogram"));
    assert!(output.contains("test_counter 42"));
    assert!(output.contains("test_gauge 100"));
    assert!(output.contains("test_histogram_bucket{le=\"1.0\"}"));
    assert!(output.contains("test_histogram_bucket{le=\"10.0\"}"));
    assert!(output.contains("test_histogram_bucket{le=\"100.0\"}"));
    assert!(output.contains("test_histogram_bucket{le=\"1000.0\"}"));
    assert!(output.contains("test_histogram_bucket{le=\"+Inf\"}"));
    assert!(output.contains("test_histogram_sum 555"));
    assert!(output.contains("test_histogram_count 3"));
}

#[test]
fn test_histogram_cumulative_buckets() {
    let mut registry = MetricsRegistry::new();
    let bounds = [0.1, 0.5, 1.0, 5.0];
    registry.register_histogram("request_duration".to_string(), hbounds(&["0.1", "0.5", "1.0", "5.0"]), vec![]).unwrap();
    for v in [0.05, 0.3, 0.7, 2.0, 10.0] {
        record(&mut registry, "request_duration", bucket_of(&bounds, v), (v * 1_000_000.0) as u64);
    }
    let sum = registry.histogram(registry.get_histogram("request_duration").unwrap()).get_sum_micros() as f64 / 1_000_000.0;
    let output = registry.export_prometheus(&vec![format!("{}", sum)]);

    assert!(output.contains("request_duration_bucket{le=\"0.1\"} 1"));
    assert!(output.contains("request_duration_bucket{le=\"0.5\"} 2"));
    assert!(output.contains("request_duration_bucket{le=\"1.0\"} 3"));
    assert!(output.contains("request_duration_bucket{le=\"5.0\"} 4"));
    assert!(output.contains("request_duration_bucket{le=\"+Inf\"} 5"));
    assert!(output.contains("request_duration_count 5"));
    assert!(output.contains("request_duration_sum 13.05"));
}

#[test]
fn test_special_characters_in_labels() {
    let mut registry = MetricsRegistry::new();
    registry.register_counter(
        "test_metric".to_string(),
        vec![
            ("path".to_string(), "/api/v1/\"test\"".to_string()),
            ("message".to_string(), "line1\nline2".to_string()),
            ("backslash".to_string(), "path\\to\\file".to_string()),
        ],
    ).unwrap();
    inc_by(&mut registry, "test_metric", 1);
    let output = registry.export_prometheus(&vec![]);
    assert!(output.contains("\\\""));
    assert!(output.contains("\\n"));
    assert!(output.contains("\\\\"));
    assert_eq!(output.lines().count(), 3);
}

#[test]
fn update_through_any_handle_is_exported() {
    let mut registry = MetricsRegistry::new();
    let first = registry.register_counter("shared".to_string(), vec![]).unwrap();
    let second = registry.get_counter("shared").unwrap();
    assert_eq!(first, second);
    registry.counter_inc_by(first, 2);
    registry.counter_inc(second);
    assert_eq!(registry.counter(first).get(), 3);
    assert_eq!(registry.counter(second).get(), 3);
    let output = registry.export_prometheus(&vec![]);
    assert!(output.contains("shared 3"));
}
