use elara::metrics::{Counter, Gauge, HistogramBound, HistogramCounts, MetricsError};
use elara::node_metrics::NodeMetrics;
use elara::registry::MetricsRegistry;


/// A key that orders floating-point bounds as their values do.
fn order_key(x: f64) -> Option<u64> {
    if x.is_nan() {
        return None;
    }
    let bits = if x == 0.0 { 0 } else { x.to_bits() };
    Some(if bits >> 63 == 1 { !bits } else { bits | (1 << 63) })
}

fn hbounds(v: &[f64]) -> Vec<HistogramBound> {
    v.iter().map(|&x| HistogramBound { order_key: order_key(x), text: format!("{:?}", x) }).collect()
}

/// The bucket an observation falls in: the first bound it does not exceed,
/// or the overflow bucket.
fn bucket_of(bounds: &[f64], value: f64) -> usize {
    bounds.iter().position(|&b| value <= b).unwrap_or(bounds.len())
}

#[test]
fn test_counter_basic() {
    let mut counter = Counter::new("test_counter".to_string(), vec![]);
    assert_eq!(counter.get(), 0);

    counter.inc();
    assert_eq!(counter.get(), 1);

    counter.inc_by(5);
    assert_eq!(counter.get(), 6);
}

#[test]
fn test_gauge_basic() {
    let mut gauge = Gauge::new("test_gauge".to_string(), vec![]);
    assert_eq!(gauge.get(), 0);

    gauge.set(10);
    assert_eq!(gauge.get(), 10);

    gauge.inc();
    assert_eq!(gauge.get(), 11);

    gauge.dec();
    assert_eq!(gauge.get(), 10);

    gauge.add(5);
    assert_eq!(gauge.get(), 15);

    gauge.sub(3);
    assert_eq!(gauge.get(), 12);
}

#[test]
fn test_counter_with_labels() {
    let counter = Counter::new(
        "test_counter".to_string(),
        vec![
            ("node_id".to_string(), "node-1".to_string()),
            ("region".to_string(), "us-west".to_string()),
        ],
    );

    assert_eq!(counter.labels().get("node_id").unwrap(), "node-1");
    assert_eq!(counter.labels().get("region").unwrap(), "us-west");
}

#[test]
fn test_histogram_basic() {
    let bounds = [1.0, 5.0, 10.0, 50.0, 100.0];
    let mut histogram = HistogramCounts::new(
        "test_histogram".to_string(),
        hbounds(&bounds),
        vec![],
    );

    for v in [0.5, 3.0, 7.0, 25.0, 75.0, 150.0] {
        histogram.record(bucket_of(&bounds, v), (v * 1_000_000.0) as u64);
    }

    assert_eq!(histogram.get_count(), 6);

    let counts = histogram.get_bucket_counts();
    assert_eq!(counts[0], 1);
    assert_eq!(counts[1], 1);
    assert_eq!(counts[2], 1);
    assert_eq!(counts[3], 1);
    assert_eq!(counts[4], 1);
    assert_eq!(counts[5], 1);
    assert_eq!(histogram.get_sum_micros(), 260_500_000);
}

#[test]
fn test_histogram_percentiles() {
    let bounds = [10.0, 20.0, 30.0, 40.0, 50.0, 60.0, 70.0, 80.0, 90.0, 100.0];
    let mut histogram = HistogramCounts::new(
        "test_histogram".to_string(),
        hbounds(&bounds),
        vec![],
    );
    for i in 1..=100 {
        let v = i as f64;
        histogram.record(bucket_of(&bounds, v), (v * 1_000_000.0) as u64);
    }
    assert_eq!(histogram.get_count(), 100);

    let target = |p: f64| (histogram.get_count() as f64 * p).ceil() as u64;
    let p50 = bounds[histogram.percentile_bucket(target(0.50))];
    let p95 = bounds[histogram.percentile_bucket(target(0.95))];
    let p99 = bounds[histogram.percentile_bucket(target(0.99))];

    assert!(p50 <= p95);
    assert!(p95 <= p99);
    assert!(p50 >= 40.0 && p50 <= 60.0);
    assert!(p95 >= 90.0 && p95 <= 100.0);
    assert!(p99 >= 90.0 && p99 <= 100.0);
    assert_eq!(p50, 50.0);
}

#[test]
fn percentile_of_overflow_answers_last_bound() {
    let mut histogram = HistogramCounts::new("h".to_string(), hbounds(&[1.0, 2.0]), vec![]);
    histogram.record(2, 5_000_000);
    histogram.record(2, 6_000_000);
    assert_eq!(histogram.percentile_bucket(1), 1);
    assert_eq!(histogram.percentile_bucket(2), 1);
    // a target never reached also answers with the last finite bucket
    assert_eq!(histogram.percentile_bucket(3), 1);
    // target 0 is reached at the first bucket
    assert_eq!(histogram.percentile_bucket(0), 0);
}

#[test]
fn test_registry_counter() {
    let mut registry = MetricsRegistry::new();

    let counter = registry.register_counter("test_counter".to_string(), vec![]).unwrap();
    registry.counter_inc(counter);

    let counter2 = registry.get_counter("test_counter").unwrap();
    assert_eq!(registry.counter(counter2).get(), 1);

    registry.counter_inc(counter2);
    assert_eq!(registry.counter(counter).get(), 2);
}

#[test]
fn test_registry_gauge() {
    let mut registry = MetricsRegistry::new();

    let gauge = registry.register_gauge("test_gauge".to_string(), vec![]).unwrap();
    registry.gauge_set(gauge, 42);

    let gauge2 = registry.get_gauge("test_gauge").unwrap();
    assert_eq!(registry.gauge(gauge2).get(), 42);
}

#[test]
fn test_registry_histogram() {
    let mut registry = MetricsRegistry::new();

    let bounds = [1.0, 10.0, 100.0];
    let hist = registry.register_histogram("test_histogram".to_string(), hbounds(&bounds), vec![]).unwrap();
    registry.histogram_record(hist, bucket_of(&bounds, 5.0), 5_000_000);

    let hist2 = registry.get_histogram("test_histogram").unwrap();
    assert_eq!(registry.histogram(hist2).get_count(), 1);
    assert_eq!(registry.histogram(hist2).bound_texts(), &vec!["1.0".to_string(), "10.0".to_string(), "100.0".to_string()]);
}

#[test]
fn test_registry_list_metrics() {
    let mut registry = MetricsRegistry::new();

    registry.register_counter("counter1".to_string(), vec![]).unwrap();
    registry.register_counter("counter2".to_string(), vec![]).unwrap();
    registry.register_gauge("gauge1".to_string(), vec![]).unwrap();
    registry.register_histogram("histogram1".to_string(), hbounds(&[1.0, 10.0]), vec![]).unwrap();

    let counter_names = registry.counter_names();
    assert_eq!(counter_names.len(), 2);
    assert!(counter_names.contains(&"counter1".to_string()));
    assert!(counter_names.contains(&"counter2".to_string()));

    let gauge_names = registry.gauge_names();
    assert_eq!(gauge_names.len(), 1);
    assert!(gauge_names.contains(&"gauge1".to_string()));

    let histogram_names = registry.histogram_names();
    assert_eq!(histogram_names.len(), 1);
    assert!(histogram_names.contains(&"histogram1".to_string()));
}

#[test]
fn registering_a_taken_name_is_refused() {
    let mut registry = MetricsRegistry::new();
    let c = registry.register_counter("c".to_string(), vec![("a".to_string(), "1".to_string())]).unwrap();
    registry.counter_inc_by(c, 7);
    let again = registry.register_counter("c".to_string(), vec![("b".to_string(), "2".to_string())]);
    assert_eq!(again, Err(MetricsError::AlreadyExists("c".to_string())));
    assert_eq!(registry.counter(c).get(), 7);
    assert_eq!(registry.counter(c).labels().get("a").map(|s| s.as_str()), Some("1"));
    assert!(registry.counter(c).labels().get("b").is_none());
    assert_eq!(registry.counter_names(), vec!["c".to_string()]);

    let g = registry.register_gauge("g".to_string(), vec![]).unwrap();
    assert_eq!(registry.register_gauge("g".to_string(), vec![]), Err(MetricsError::AlreadyExists("g".to_string())));
    registry.gauge_set(g, -3);
    assert_eq!(registry.gauge(registry.get_gauge("g").unwrap()).get(), -3);

    registry.register_histogram("h".to_string(), hbounds(&[1.0]), vec![]).unwrap();
    assert_eq!(
        registry.register_histogram("h".to_string(), hbounds(&[2.0, 3.0]), vec![]),
        Err(MetricsError::AlreadyExists("h".to_string()))
    );
    assert_eq!(registry.histogram_names().len(), 1);
    assert_eq!(registry.histogram(registry.get_histogram("h").unwrap()).bucket_count(), 1);
}

#[test]
fn invalid_histogram_bounds_are_refused() {
    let mut registry = MetricsRegistry::new();
    assert_eq!(
        registry.register_histogram("h".to_string(), vec![], vec![]),
        Err(MetricsError::InvalidConfig("Histogram buckets cannot be empty".to_string()))
    );
    let unsorted = MetricsError::InvalidConfig("Histogram buckets must be sorted in ascending order".to_string());
    assert_eq!(registry.register_histogram("h".to_string(), hbounds(&[10.0, 5.0]), vec![]), Err(unsorted.clone()));
    assert_eq!(registry.register_histogram("h".to_string(), hbounds(&[1.0, 1.0]), vec![]), Err(unsorted.clone()));
    assert_eq!(registry.register_histogram("h".to_string(), hbounds(&[1.0, f64::NAN]), vec![]), Err(unsorted.clone()));
    assert_eq!(registry.register_histogram("h".to_string(), hbounds(&[-0.0, 0.0]), vec![]), Err(unsorted));
    assert!(registry.histogram_names().is_empty());
    assert!(registry.get_histogram("h").is_none());

    assert!(registry.register_histogram("h".to_string(), hbounds(&[-1.0, -0.5, 0.0, 2.0]), vec![]).is_ok());
    assert!(registry.register_histogram("nan".to_string(), hbounds(&[f64::NAN]), vec![]).is_ok());
    assert_eq!(registry.histogram_names(), vec!["h".to_string(), "nan".to_string()]);
}

#[test]
fn lookups_of_unknown_metrics_find_nothing() {
    let registry = MetricsRegistry::new();
    assert!(registry.get_counter("missing").is_none());
    assert!(registry.get_gauge("missing").is_none());
    assert!(registry.get_histogram("missing").is_none());
}

#[test]
fn later_label_value_replaces_earlier() {
    let counter = Counter::new(
        "c".to_string(),
        vec![("k".to_string(), "v1".to_string()), ("k".to_string(), "v2".to_string())],
    );
    assert_eq!(counter.labels().len(), 1);
    assert_eq!(counter.labels().get("k").unwrap(), "v2");
}

#[test]
fn counter_wraps_and_gauge_add_sub_are_inverse() {
    let mut counter = Counter::new("c".to_string(), vec![]);
    counter.inc_by(u64::MAX);
    counter.inc_by(3);
    assert_eq!(counter.get(), 2);

    let mut gauge = Gauge::new("g".to_string(), vec![]);
    gauge.set(i64::MAX);
    gauge.add(10);
    gauge.sub(10);
    assert_eq!(gauge.get(), i64::MAX);
    gauge.inc();
    gauge.dec();
    assert_eq!(gauge.get(), i64::MAX);
}

#[test]
fn test_node_metrics_creation() {
    let mut registry = MetricsRegistry::new();
    let metrics = NodeMetrics::new(&mut registry);

    assert_eq!(registry.gauge(metrics.active_connections).get(), 0);
    assert_eq!(registry.counter(metrics.total_connections).get(), 0);
    assert_eq!(registry.counter(metrics.failed_connections).get(), 0);
    assert_eq!(registry.counter(metrics.messages_sent).get(), 0);
    assert_eq!(registry.counter(metrics.messages_received).get(), 0);
    assert_eq!(registry.counter(metrics.messages_dropped).get(), 0);
    assert_eq!(registry.gauge(metrics.memory_usage_bytes).get(), 0);
    assert_eq!(registry.gauge(metrics.cpu_usage_percent).get(), 0);
    assert_eq!(registry.gauge(metrics.time_drift_ms).get(), 0);
    assert_eq!(registry.gauge(metrics.state_divergence_count).get(), 0);
}

#[test]
fn test_node_metrics_connection_tracking() {
    let mut registry = MetricsRegistry::new();
    let metrics = NodeMetrics::new(&mut registry);

    registry.gauge_inc(metrics.active_connections);
    registry.counter_inc(metrics.total_connections);
    assert_eq!(registry.gauge(metrics.active_connections).get(), 1);
    assert_eq!(registry.counter(metrics.total_connections).get(), 1);

    registry.gauge_inc(metrics.active_connections);
    registry.counter_inc(metrics.total_connections);
    assert_eq!(registry.gauge(metrics.active_connections).get(), 2);
    assert_eq!(registry.counter(metrics.total_connections).get(), 2);

    registry.gauge_dec(metrics.active_connections);
    assert_eq!(registry.gauge(metrics.active_connections).get(), 1);
    assert_eq!(registry.counter(metrics.total_connections).get(), 2);

    registry.counter_inc(metrics.failed_connections);
    assert_eq!(registry.counter(metrics.failed_connections).get(), 1);
}

#[test]
fn test_node_metrics_message_tracking() {
    let mut registry = MetricsRegistry::new();
    let metrics = NodeMetrics::new(&mut registry);

    registry.counter_inc_by(metrics.messages_sent, 10);
    assert_eq!(registry.counter(metrics.messages_sent).get(), 10);

    registry.counter_inc_by(metrics.messages_received, 8);
    assert_eq!(registry.counter(metrics.messages_received).get(), 8);

    registry.counter_inc(metrics.messages_dropped);
    assert_eq!(registry.counter(metrics.messages_dropped).get(), 1);

    let size_bounds = [64.0, 256.0, 1024.0, 4096.0, 16384.0, 65536.0, 262144.0, 1048576.0];
    registry.histogram_record(metrics.message_size_bytes, bucket_of(&size_bounds, 512.0), 512_000_000);
    registry.histogram_record(metrics.message_size_bytes, bucket_of(&size_bounds, 2048.0), 2_048_000_000);
    assert_eq!(registry.histogram(metrics.message_size_bytes).get_count(), 2);
}

#[test]
fn test_node_metrics_latency_tracking() {
    let mut registry = MetricsRegistry::new();
    let metrics = NodeMetrics::new(&mut registry);
    let latency_bounds = [1.0, 5.0, 10.0, 25.0, 50.0, 100.0, 250.0, 500.0, 1000.0, 2500.0, 5000.0];
    let sync_bounds = [10.0, 50.0, 100.0, 250.0, 500.0, 1000.0, 2500.0, 5000.0, 10000.0, 30000.0];

    for v in [5.0, 15.0, 50.0] {
        registry.histogram_record(metrics.message_latency_ms, bucket_of(&latency_bounds, v), (v * 1_000_000.0) as u64);
    }
    assert_eq!(registry.histogram(metrics.message_latency_ms).get_count(), 3);

    for v in [100.0, 500.0] {
        registry.histogram_record(metrics.state_sync_latency_ms, bucket_of(&sync_bounds, v), (v * 1_000_000.0) as u64);
    }
    assert_eq!(registry.histogram(metrics.state_sync_latency_ms).get_count(), 2);

    let latency = registry.histogram(metrics.message_latency_ms);
    let count = latency.get_count() as f64;
    let p50 = latency.percentile_bucket((count * 0.50).ceil() as u64);
    let p95 = latency.percentile_bucket((count * 0.95).ceil() as u64);
    assert!(latency_bounds[p50] <= latency_bounds[p95]);
}

#[test]
fn test_node_metrics_resource_tracking() {
    let mut registry = MetricsRegistry::new();
    let metrics = NodeMetrics::new(&mut registry);

    registry.gauge_set(metrics.memory_usage_bytes, 512 * 1024 * 1024);
    assert_eq!(registry.gauge(metrics.memory_usage_bytes).get(), 536870912);

    registry.gauge_set(metrics.cpu_usage_percent, 45);
    assert_eq!(registry.gauge(metrics.cpu_usage_percent).get(), 45);

    registry.gauge_set(metrics.cpu_usage_percent, 60);
    assert_eq!(registry.gauge(metrics.cpu_usage_percent).get(), 60);
}

#[test]
fn test_node_metrics_protocol_tracking() {
    let mut registry = MetricsRegistry::new();
    let metrics = NodeMetrics::new(&mut registry);

    registry.gauge_set(metrics.time_drift_ms, 50);
    assert_eq!(registry.gauge(metrics.time_drift_ms).get(), 50);

    registry.gauge_set(metrics.time_drift_ms, -25);
    assert_eq!(registry.gauge(metrics.time_drift_ms).get(), -25);

    registry.gauge_set(metrics.state_divergence_count, 0);
    assert_eq!(registry.gauge(metrics.state_divergence_count).get(), 0);

    registry.gauge_inc(metrics.state_divergence_count);
    assert_eq!(registry.gauge(metrics.state_divergence_count).get(), 1);
}

#[test]
fn test_node_metrics_registry_integration() {
    let mut registry = MetricsRegistry::new();
    let _metrics = NodeMetrics::new(&mut registry);

    let counter_names = registry.counter_names();
    assert!(counter_names.contains(&"elara_total_connections".to_string()));
    assert!(counter_names.contains(&"elara_failed_connections".to_string()));
    assert!(counter_names.contains(&"elara_messages_sent".to_string()));
    assert!(counter_names.contains(&"elara_messages_received".to_string()));
    assert!(counter_names.contains(&"elara_messages_dropped".to_string()));

    let gauge_names = registry.gauge_names();
    assert!(gauge_names.contains(&"elara_active_connections".to_string()));
    assert!(gauge_names.contains(&"elara_memory_usage_bytes".to_string()));
    assert!(gauge_names.contains(&"elara_cpu_usage_percent".to_string()));
    assert!(gauge_names.contains(&"elara_time_drift_ms".to_string()));
    assert!(gauge_names.contains(&"elara_state_divergence_count".to_string()));

    let histogram_names = registry.histogram_names();
    assert!(histogram_names.contains(&"elara_message_size_bytes".to_string()));
    assert!(histogram_names.contains(&"elara_message_latency_ms".to_string()));
    assert!(histogram_names.contains(&"elara_state_sync_latency_ms".to_string()));
}

#[test]
fn test_node_metrics_histogram_buckets() {
    let mut registry = MetricsRegistry::new();
    let metrics = NodeMetrics::new(&mut registry);

    let latency_buckets = registry.histogram(metrics.message_latency_ms).bound_texts();
    assert_eq!(latency_buckets[0], "1.0");
    assert_eq!(latency_buckets[latency_buckets.len() - 1], "5000.0");

    let sync_buckets = registry.histogram(metrics.state_sync_latency_ms).bound_texts();
    assert_eq!(sync_buckets[0], "10.0");
    assert_eq!(sync_buckets[sync_buckets.len() - 1], "30000.0");

    let size_buckets = registry.histogram(metrics.message_size_bytes).bound_texts();
    assert_eq!(size_buckets[0], "64.0");
    assert_eq!(size_buckets[size_buckets.len() - 1], "1048576.0");
    assert_eq!(size_buckets.len(), 8);
    assert_eq!(registry.histogram(metrics.message_size_bytes).get_bucket_counts().len(), 9);
}

#[test]
fn test_node_metrics_accessor_methods() {
    let mut registry = MetricsRegistry::new();
    let metrics = NodeMetrics::new(&mut registry);

    registry.gauge_inc(metrics.active_connections);
    assert_eq!(registry.gauge(metrics.active_connections()).get(), 1);

    registry.counter_inc(metrics.total_connections);
    assert_eq!(registry.counter(metrics.total_connections()).get(), 1);

    registry.counter_inc_by(metrics.messages_sent, 5);
    assert_eq!(registry.counter(metrics.messages_sent()).get(), 5);

    registry.histogram_record(metrics.message_latency_ms, 5, 42_000_000);
    assert_eq!(registry.histogram(metrics.message_latency_ms()).get_count(), 1);
    assert_eq!(registry.histogram(metrics.state_sync_latency_ms()).name(), "elara_state_sync_latency_ms");
    assert_eq!(registry.gauge(metrics.quarantine_buffer_size()).name(), "elara_quarantine_buffer_size");
}

#[test]
fn node_metrics_share_metrics_registered_before() {
    let mut registry = MetricsRegistry::new();
    let sent = registry.register_counter("elara_messages_sent".to_string(), vec![]).unwrap();
    registry.counter_inc_by(sent, 4);
    let metrics = NodeMetrics::new(&mut registry);
    assert_eq!(metrics.messages_sent, sent);
    assert_eq!(registry.counter(metrics.messages_sent).get(), 4);
    assert_eq!(registry.counter_names().len(), 5);
    assert_eq!(registry.counter_names()[0], "elara_messages_sent");

    // a second set of node metrics on the same registry shares every metric
    let again = NodeMetrics::new(&mut registry);
    registry.counter_inc(again.messages_sent);
    assert_eq!(registry.counter(metrics.messages_sent).get(), 5);
    assert_eq!(registry.counter_names().len(), 5);
}
