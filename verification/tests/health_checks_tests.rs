use elara::health::{HealthCache, HealthCheckResult, HealthStatus};
use elara::health_checks::{ConnectionHealthCheck, MemoryHealthCheck, StateDivergenceCheck, TimeDriftCheck};

/// Process memory in MB used where a check reads the process's memory.
const PROCESS_MEMORY_MB: usize = 50;
/// Active connections of a freshly created node.
const NODE_ACTIVE_CONNECTIONS: usize = 0;
/// Drift and pending events of a freshly created node.
const NODE_DRIFT_MS: i64 = 0;
const NODE_PENDING_EVENTS: usize = 0;

fn check_health(cache: &mut HealthCache, now_ms: u64, results: Vec<(String, HealthCheckResult)>) -> HealthStatus {
    match cache.lookup(now_ms) {
        Some(status) => status,
        None => cache.store(results, now_ms),
    }
}

#[test]
fn health_checks_test_test_connection_health_check_creation() {
    let check = ConnectionHealthCheck::new(5);
    assert_eq!(check.name(), "connections");
    assert_eq!(check.min_connections(), 5);
}

#[test]
fn test_connection_health_check_with_different_thresholds() {
    assert_eq!(ConnectionHealthCheck::new(1).min_connections(), 1);
    assert_eq!(ConnectionHealthCheck::new(10).min_connections(), 10);
    assert_eq!(ConnectionHealthCheck::new(100).min_connections(), 100);
}

#[test]
fn test_connection_health_check_returns_result() {
    let check = ConnectionHealthCheck::new(3);
    let result = check.check(NODE_ACTIVE_CONNECTIONS);
    assert!(result.is_degraded() || result.is_healthy(), "Check should return a valid result");
}

#[test]
fn connection_check_reason() {
    assert_eq!(
        ConnectionHealthCheck::new(3).check(0),
        HealthCheckResult::Degraded { reason: "Only 0 active connections (minimum: 3)".to_string() }
    );
    assert_eq!(
        ConnectionHealthCheck::new(3).check(2),
        HealthCheckResult::Degraded { reason: "Only 2 active connections (minimum: 3)".to_string() }
    );
    assert!(ConnectionHealthCheck::new(3).check(3).is_healthy());
    assert!(ConnectionHealthCheck::new(3).check(7).is_healthy());
    assert!(ConnectionHealthCheck::new(0).check(0).is_healthy());
}

#[test]
fn test_memory_health_check_creation() {
    let check = MemoryHealthCheck::new(2048);
    assert_eq!(check.name(), "memory");
    assert_eq!(check.max_memory_mb(), 2048);
}

#[test]
fn test_memory_health_check_with_high_threshold() {
    let check = MemoryHealthCheck::new(100_000);
    assert!(check.check(PROCESS_MEMORY_MB).is_healthy(), "Should be healthy with very high threshold");
}

#[test]
fn test_memory_health_check_with_low_threshold() {
    let check = MemoryHealthCheck::new(1);
    assert!(check.check(PROCESS_MEMORY_MB).is_unhealthy(), "Should be unhealthy with very low threshold");
}

#[test]
fn test_memory_health_check_threshold_boundary() {
    let check_low = MemoryHealthCheck::new(10);
    let check_high = MemoryHealthCheck::new(10_000);
    assert!(check_low.check(PROCESS_MEMORY_MB).is_unhealthy());
    assert!(check_high.check(PROCESS_MEMORY_MB).is_healthy());
    // usage equal to the limit is already unhealthy
    assert!(MemoryHealthCheck::new(50).check(50).is_unhealthy());
    assert!(MemoryHealthCheck::new(51).check(50).is_healthy());
}

#[test]
fn test_memory_health_check_reason_format() {
    let check = MemoryHealthCheck::new(1);
    let result = check.check(PROCESS_MEMORY_MB);
    if let HealthCheckResult::Unhealthy { reason } = result {
        assert!(reason.contains("Memory usage"));
        assert!(reason.contains("MB"));
        assert!(reason.contains("exceeds limit"));
        assert_eq!(reason, "Memory usage 50MB exceeds limit 1MB");
    } else {
        panic!("Expected Unhealthy result");
    }
}

#[test]
fn health_checks_test_test_time_drift_check_creation() {
    let check = TimeDriftCheck::new(100);
    assert_eq!(check.name(), "time_drift");
    assert_eq!(check.max_drift_ms(), 100);
}

#[test]
fn test_time_drift_check_with_different_thresholds() {
    assert_eq!(TimeDriftCheck::new(50).max_drift_ms(), 50);
    assert_eq!(TimeDriftCheck::new(100).max_drift_ms(), 100);
    assert_eq!(TimeDriftCheck::new(500).max_drift_ms(), 500);
}

#[test]
fn test_time_drift_check_returns_result() {
    let check = TimeDriftCheck::new(100);
    let result = check.check(NODE_DRIFT_MS);
    assert!(result.is_healthy() || result.is_degraded(), "Check should return a valid result");
}

#[test]
fn test_time_drift_check_with_zero_drift() {
    let check = TimeDriftCheck::new(100);
    assert!(check.check(NODE_DRIFT_MS).is_healthy(), "Should be healthy with zero drift");
}

#[test]
fn time_drift_uses_magnitude() {
    let check = TimeDriftCheck::new(100);
    assert!(check.check(-99).is_healthy());
    assert_eq!(
        check.check(-100),
        HealthCheckResult::Degraded { reason: "Time drift -100ms exceeds limit 100ms".to_string() }
    );
    assert!(check.check(150).is_degraded());
}

#[test]
fn health_checks_test_test_state_divergence_check_creation() {
    let check = StateDivergenceCheck::new();
    assert_eq!(check.name(), "state_convergence");
    assert_eq!(check.max_pending_events(), 1000);
}

#[test]
fn test_state_divergence_check_with_custom_threshold() {
    let check = StateDivergenceCheck::with_threshold(500);
    assert_eq!(check.max_pending_events(), 500);
}

#[test]
fn test_state_divergence_check_with_different_thresholds() {
    assert_eq!(StateDivergenceCheck::with_threshold(100).max_pending_events(), 100);
    assert_eq!(StateDivergenceCheck::with_threshold(1000).max_pending_events(), 1000);
    assert_eq!(StateDivergenceCheck::with_threshold(5000).max_pending_events(), 5000);
}

#[test]
fn test_state_divergence_check_returns_result() {
    let check = StateDivergenceCheck::new();
    let result = check.check(NODE_PENDING_EVENTS);
    assert!(result.is_healthy() || result.is_degraded(), "Check should return a valid result");
}

#[test]
fn test_state_divergence_check_with_zero_pending() {
    let check = StateDivergenceCheck::new();
    assert!(check.check(NODE_PENDING_EVENTS).is_healthy(), "Should be healthy with zero pending events");
}

#[test]
fn state_divergence_reason() {
    let check = StateDivergenceCheck::with_threshold(10);
    assert_eq!(check.check_convergence(12), (false, 12));
    assert_eq!(check.check_convergence(9), (true, 9));
    assert_eq!(
        check.check(12),
        HealthCheckResult::Degraded {
            reason: "State convergence slow: 12 pending events (threshold: 10)".to_string()
        }
    );
}

#[test]
fn health_checks_test_test_all_builtin_checks_with_health_checker() {
    let c = ConnectionHealthCheck::new(3);
    let m = MemoryHealthCheck::new(100_000);
    let t = TimeDriftCheck::new(100);
    let s = StateDivergenceCheck::new();
    let results = vec![
        (c.name().to_string(), c.check(NODE_ACTIVE_CONNECTIONS)),
        (m.name().to_string(), m.check(PROCESS_MEMORY_MB)),
        (t.name().to_string(), t.check(NODE_DRIFT_MS)),
        (s.name().to_string(), s.check(NODE_PENDING_EVENTS)),
    ];
    assert_eq!(results.len(), 4);

    let mut cache = HealthCache::new(30_000);
    let status = check_health(&mut cache, 0, results);
    assert_eq!(status.checks.len(), 4);

    assert!(status.check("connections").is_some());
    assert!(status.check("memory").is_some());
    assert!(status.check("time_drift").is_some());
    assert!(status.check("state_convergence").is_some());
}

#[test]
fn test_builtin_checks_aggregation_all_healthy() {
    let m = MemoryHealthCheck::new(100_000);
    let t = TimeDriftCheck::new(1000);
    let s = StateDivergenceCheck::with_threshold(10000);
    let results = vec![
        (m.name().to_string(), m.check(PROCESS_MEMORY_MB)),
        (t.name().to_string(), t.check(NODE_DRIFT_MS)),
        (s.name().to_string(), s.check(NODE_PENDING_EVENTS)),
    ];
    let mut cache = HealthCache::new(30_000);
    let status = check_health(&mut cache, 0, results);

    assert!(status.check("memory").unwrap().is_healthy());
    assert!(status.is_healthy() || status.is_degraded(), "Overall status should be healthy or degraded");
}

#[test]
fn test_builtin_checks_aggregation_with_unhealthy() {
    let m = MemoryHealthCheck::new(1);
    let t = TimeDriftCheck::new(1000);
    let results = vec![
        (m.name().to_string(), m.check(PROCESS_MEMORY_MB)),
        (t.name().to_string(), t.check(NODE_DRIFT_MS)),
    ];
    let mut cache = HealthCache::new(30_000);
    let status = check_health(&mut cache, 0, results);

    assert!(status.check("memory").unwrap().is_unhealthy());
    assert!(status.is_unhealthy(), "Overall status should be unhealthy when any check is unhealthy");
}

#[test]
fn test_memory_check_with_zero_threshold() {
    let check = MemoryHealthCheck::new(0);
    assert!(check.check(PROCESS_MEMORY_MB).is_unhealthy());
    assert!(check.check(0).is_unhealthy());
}

#[test]
fn test_time_drift_check_with_zero_threshold() {
    let check = TimeDriftCheck::new(0);
    let result = check.check(NODE_DRIFT_MS);
    assert!(result.is_healthy() || result.is_degraded());
    assert!(result.is_degraded());
}

#[test]
fn test_state_divergence_check_with_zero_threshold() {
    let check = StateDivergenceCheck::with_threshold(0);
    assert!(check.check(NODE_PENDING_EVENTS).is_degraded());
}

#[test]
fn test_multiple_instances_of_same_check_type() {
    let a = MemoryHealthCheck::new(100_000);
    let b = MemoryHealthCheck::new(1);
    let results = vec![
        (a.name().to_string(), a.check(PROCESS_MEMORY_MB)),
        (b.name().to_string(), b.check(PROCESS_MEMORY_MB)),
    ];
    assert_eq!(results.len(), 2);
    let mut cache = HealthCache::new(30_000);
    let status = check_health(&mut cache, 0, results);
    // both report under the same name: the later result is kept
    assert_eq!(status.checks.len(), 1);
    assert!(status.is_unhealthy());
}

#[test]
fn test_check_names_are_valid_identifiers() {
    let names = [
        ConnectionHealthCheck::new(3).name(),
        MemoryHealthCheck::new(2048).name(),
        TimeDriftCheck::new(100).name(),
        StateDivergenceCheck::new().name(),
    ];
    for name in names {
        assert!(
            name.chars().all(|c| c.is_lowercase() || c.is_numeric() || c == '_'),
            "Check name '{}' should be a valid identifier",
            name
        );
        assert!(!name.is_empty(), "Check name should not be empty");
    }
}

#[test]
fn test_all_checks_implement_send_sync() {
    fn assert_send_sync<T: Send + Sync>() {}

    assert_send_sync::<ConnectionHealthCheck>();
    assert_send_sync::<MemoryHealthCheck>();
    assert_send_sync::<TimeDriftCheck>();
    assert_send_sync::<StateDivergenceCheck>();
}

#[test]
fn test_builtin_checks_caching() {
    let m = MemoryHealthCheck::new(100_000);
    let t = TimeDriftCheck::new(100);
    let run = || vec![(m.name().to_string(), m.check(PROCESS_MEMORY_MB)), (t.name().to_string(), t.check(NODE_DRIFT_MS))];
    let mut cache = HealthCache::new(100);

    let status1 = check_health(&mut cache, 10, run());
    let timestamp1 = status1.timestamp_ms;

    let status2 = check_health(&mut cache, 20, run());
    let timestamp2 = status2.timestamp_ms;
    assert_eq!(timestamp1, timestamp2, "Should return cached result within TTL");

    let status3 = check_health(&mut cache, 160, run());
    let timestamp3 = status3.timestamp_ms;
    assert!(timestamp3 > timestamp1, "Should execute checks again after TTL");
}
