use elara::health::{aggregate_results, HealthCache, HealthCheckResult, HealthCheckerConfig, HealthStatus};
use elara::health_checks::{
    ConnectionHealthCheck, HealthCheckConfig, MemoryHealthCheck, StateDivergenceCheck, TimeDriftCheck,
};

/// Process memory in MB used where a check reads the process's memory.
const PROCESS_MEMORY_MB: usize = 50;
/// Active connections of a freshly created node.
const NODE_ACTIVE_CONNECTIONS: usize = 0;

fn healthy(name: &str) -> (String, HealthCheckResult) {
    (name.to_string(), HealthCheckResult::Healthy)
}

fn degraded(name: &str, reason: &str) -> (String, HealthCheckResult) {
    (name.to_string(), HealthCheckResult::Degraded { reason: reason.to_string() })
}

fn unhealthy(name: &str, reason: &str) -> (String, HealthCheckResult) {
    (name.to_string(), HealthCheckResult::Unhealthy { reason: reason.to_string() })
}

/// What a health checker does at time `now_ms`: serve the cached status while
/// it is valid, or else run the checks (here: their results) and cache them.
fn check_health(cache: &mut HealthCache, now_ms: u64, results: Vec<(String, HealthCheckResult)>) -> HealthStatus {
    match cache.lookup(now_ms) {
        Some(status) => status,
        None => cache.store(results, now_ms),
    }
}

fn builtin_results(node_drift_ms: i64, pending: usize) -> Vec<(String, HealthCheckResult)> {
    let c = ConnectionHealthCheck::new(3);
    let m = MemoryHealthCheck::new(100_000);
    let t = TimeDriftCheck::new(100);
    let s = StateDivergenceCheck::new();
    vec![
        (c.name().to_string(), c.check(NODE_ACTIVE_CONNECTIONS)),
        (m.name().to_string(), m.check(PROCESS_MEMORY_MB)),
        (t.name().to_string(), t.check(node_drift_ms)),
        (s.name().to_string(), s.check(pending)),
    ]
}

#[test]
fn test_health_check_result_methods() {
    let healthy = HealthCheckResult::Healthy;
    assert!(healthy.is_healthy());
    assert!(!healthy.is_degraded());
    assert!(!healthy.is_unhealthy());
    assert_eq!(healthy.reason(), None);

    let degraded = HealthCheckResult::Degraded { reason: "test".to_string() };
    assert!(!degraded.is_healthy());
    assert!(degraded.is_degraded());
    assert!(!degraded.is_unhealthy());
    assert_eq!(degraded.reason(), Some("test"));

    let unhealthy = HealthCheckResult::Unhealthy { reason: "test".to_string() };
    assert!(!unhealthy.is_healthy());
    assert!(!unhealthy.is_degraded());
    assert!(unhealthy.is_unhealthy());
    assert_eq!(unhealthy.reason(), Some("test"));
}

#[test]
fn test_health_checker_empty() {
    let mut cache = HealthCache::new(30_000);
    let status = check_health(&mut cache, 0, vec![]);
    assert!(status.is_healthy());
    assert_eq!(status.checks.len(), 0);
}

#[test]
fn test_health_checker_all_healthy() {
    let mut cache = HealthCache::new(30_000);
    let status = check_health(&mut cache, 0, vec![healthy("always_healthy")]);
    assert!(status.is_healthy());
    assert_eq!(status.checks.len(), 1);
}

#[test]
fn test_health_checker_degraded() {
    let mut cache = HealthCache::new(30_000);
    let status = check_health(
        &mut cache,
        0,
        vec![healthy("always_healthy"), degraded("always_degraded", "Test degradation")],
    );
    assert!(status.is_degraded());
    assert_eq!(status.checks.len(), 2);
}

#[test]
fn test_health_checker_unhealthy() {
    let mut cache = HealthCache::new(30_000);
    let status = check_health(
        &mut cache,
        0,
        vec![
            healthy("always_healthy"),
            degraded("always_degraded", "Test degradation"),
            unhealthy("always_unhealthy", "Test failure"),
        ],
    );
    assert!(status.is_unhealthy());
    assert_eq!(status.checks.len(), 3);
}

#[test]
fn test_health_checker_precedence() {
    let mut cache = HealthCache::new(30_000);
    let status = check_health(
        &mut cache,
        0,
        vec![degraded("always_degraded", "Test degradation"), unhealthy("always_unhealthy", "Test failure")],
    );
    assert!(status.is_unhealthy());

    let mut cache = HealthCache::new(30_000);
    let status = check_health(
        &mut cache,
        0,
        vec![healthy("always_healthy"), degraded("always_degraded", "Test degradation")],
    );
    assert!(status.is_degraded());
}

#[test]
fn test_health_checker_caching() {
    let mut cache = HealthCache::new(100);
    let status1 = check_health(&mut cache, 1_000, vec![healthy("always_healthy")]);
    let timestamp1 = status1.timestamp_ms;

    let status2 = check_health(&mut cache, 1_050, vec![healthy("always_healthy")]);
    let timestamp2 = status2.timestamp_ms;
    assert_eq!(timestamp1, timestamp2);

    let status3 = check_health(&mut cache, 1_150, vec![healthy("always_healthy")]);
    let timestamp3 = status3.timestamp_ms;
    assert!(timestamp3 > timestamp1);
}

#[test]
fn stored_status_is_served_until_the_ttl_has_passed() {
    let mut cache = HealthCache::new(1_000);
    assert!(cache.lookup(5_000).is_none());
    let stored = cache.store(vec![healthy("a"), ("b".to_string(), HealthCheckResult::Degraded { reason: "slow".to_string() })], 5_000);
    let again = cache.lookup(5_001).unwrap();
    assert_eq!(again.timestamp_ms, 5_000);
    assert_eq!(again.overall, stored.overall);
    assert_eq!(again.checks, stored.checks);
    assert!(cache.lookup(5_999).is_some());
    assert!(cache.lookup(6_000).is_none());
    assert!(cache.lookup(7_000).is_none());
}

#[test]
fn test_health_checker_clear_cache() {
    let mut cache = HealthCache::new(30_000);
    let status1 = check_health(&mut cache, 5, vec![healthy("always_healthy")]);
    let timestamp1 = status1.timestamp_ms;

    cache.clear();

    let status2 = check_health(&mut cache, 6, vec![healthy("always_healthy")]);
    let timestamp2 = status2.timestamp_ms;
    assert!(timestamp2 > timestamp1);
}

#[test]
fn test_health_status_aggregation() {
    let mut checks = vec![healthy("check1"), healthy("check2")];
    let status = HealthStatus::new(checks.iter().map(|(n, r)| (n.clone(), r.duplicate())).collect(), 0);
    assert!(status.is_healthy());

    checks.push(degraded("check3", "test"));
    let status = HealthStatus::new(checks.iter().map(|(n, r)| (n.clone(), r.duplicate())).collect(), 0);
    assert!(status.is_degraded());

    checks.push(unhealthy("check4", "test"));
    let status = HealthStatus::new(checks, 0);
    assert!(status.is_unhealthy());
}

#[test]
fn later_result_under_a_name_replaces_earlier() {
    let status = HealthStatus::new(
        vec![unhealthy("a", "first"), healthy("b"), healthy("a")],
        7,
    );
    assert_eq!(status.checks.len(), 2);
    assert_eq!(status.checks[0].0, "a");
    assert!(status.check("a").unwrap().is_healthy());
    assert!(status.is_healthy());
    assert_eq!(status.timestamp_ms, 7);
    assert!(status.check("missing").is_none());
}

#[test]
fn overall_is_the_last_of_the_worst() {
    let overall = aggregate_results(&vec![
        degraded("a", "first"),
        healthy("b"),
        degraded("c", "second"),
    ]);
    assert_eq!(overall, HealthCheckResult::Degraded { reason: "second".to_string() });
    assert_eq!(aggregate_results(&vec![]), HealthCheckResult::Healthy);
}

#[test]
fn cache_with_zero_ttl_never_serves() {
    let mut cache = HealthCache::new(0);
    cache.store(vec![healthy("x")], 10);
    assert!(cache.lookup(10).is_none());
}

#[test]
fn cache_serves_until_ttl_elapses() {
    let mut cache = HealthCache::with_config(HealthCheckerConfig::default());
    assert_eq!(cache.cache_ttl_ms(), 30_000);
    assert!(cache.lookup(0).is_none());
    cache.store(vec![degraded("x", "slow")], 1_000);
    assert!(cache.lookup(1_000).unwrap().is_degraded());
    assert!(cache.lookup(30_999).is_some());
    assert!(cache.lookup(31_000).is_none());
    // a clock reading before the stamp counts as no time elapsed
    assert!(cache.lookup(500).is_some());
}

#[test]
fn test_memory_health_check() {
    let check = MemoryHealthCheck::new(100_000);
    let result = check.check(PROCESS_MEMORY_MB);
    assert!(result.is_healthy(), "Should be healthy with high threshold");

    let check = MemoryHealthCheck::new(1);
    let result = check.check(PROCESS_MEMORY_MB);
    assert!(result.is_unhealthy(), "Should be unhealthy with low threshold");
}

#[test]
fn test_memory_health_check_threshold() {
    let check = MemoryHealthCheck::new(1800);
    assert_eq!(check.max_memory_mb(), 1800);
}

#[test]
fn health_test_connection_health_check_creation() {
    let check = ConnectionHealthCheck::new(3);
    assert_eq!(check.name(), "connections");
    assert_eq!(check.min_connections(), 3);
}

#[test]
fn health_test_time_drift_check_creation() {
    let check = TimeDriftCheck::new(100);
    assert_eq!(check.name(), "time_drift");
    assert_eq!(check.max_drift_ms(), 100);
}

#[test]
fn health_test_state_divergence_check_creation() {
    let check = StateDivergenceCheck::new();
    assert_eq!(check.name(), "state_convergence");
    assert_eq!(check.max_pending_events(), 1000);

    let check = StateDivergenceCheck::with_threshold(500);
    assert_eq!(check.max_pending_events(), 500);
}

#[test]
fn health_test_all_builtin_checks_with_health_checker() {
    let mut cache = HealthCache::new(30_000);
    let results = builtin_results(0, 0);
    assert_eq!(results.len(), 4);

    let status = check_health(&mut cache, 0, results);
    assert_eq!(status.checks.len(), 4);

    assert!(status.check("connections").is_some());
    assert!(status.check("memory").is_some());
    assert!(status.check("time_drift").is_some());
    assert!(status.check("state_convergence").is_some());
}

#[test]
fn test_health_check_config_default() {
    let config = HealthCheckConfig::default();

    assert!(config.enabled);
    assert!(config.server_bind_address.is_some());
    assert_eq!(config.cache_ttl_ms, 30_000);
    assert_eq!(config.min_connections, Some(3));
    assert_eq!(config.max_memory_mb, Some(1800));
    assert_eq!(config.max_time_drift_ms, Some(100));
    assert_eq!(config.max_pending_events, Some(1000));

    assert!(config.validate().is_ok());
}

#[test]
fn test_health_check_config_disabled() {
    let config = HealthCheckConfig::disabled();

    assert!(!config.enabled);
    assert!(config.server_bind_address.is_none());
    assert!(config.min_connections.is_none());
    assert!(config.max_memory_mb.is_none());
    assert!(config.max_time_drift_ms.is_none());
    assert!(config.max_pending_events.is_none());

    assert!(config.validate().is_ok());
}

#[test]
fn test_health_check_config_small_deployment() {
    let config = HealthCheckConfig::small_deployment();

    assert!(config.enabled);
    assert_eq!(config.min_connections, Some(2));
    assert_eq!(config.max_memory_mb, Some(1000));
    assert_eq!(config.max_time_drift_ms, Some(100));
    assert_eq!(config.max_pending_events, Some(500));

    assert!(config.validate().is_ok());
}

#[test]
fn test_health_check_config_medium_deployment() {
    let config = HealthCheckConfig::medium_deployment();

    assert!(config.enabled);
    assert_eq!(config.min_connections, Some(5));
    assert_eq!(config.max_memory_mb, Some(2000));
    assert_eq!(config.max_time_drift_ms, Some(100));
    assert_eq!(config.max_pending_events, Some(1000));

    assert!(config.validate().is_ok());
}

#[test]
fn test_health_check_config_large_deployment() {
    let config = HealthCheckConfig::large_deployment();

    assert!(config.enabled);
    assert_eq!(config.min_connections, Some(10));
    assert_eq!(config.max_memory_mb, Some(4000));
    assert_eq!(config.max_time_drift_ms, Some(100));
    assert_eq!(config.max_pending_events, Some(2000));

    assert!(config.validate().is_ok());
}

#[test]
fn test_health_check_config_validation_cache_ttl() {
    let mut config = HealthCheckConfig::default();

    config.cache_ttl_ms = 1_000;
    assert!(config.validate().is_ok());

    config.cache_ttl_ms = 999;
    assert!(config.validate().is_err());
    assert_eq!(config.validate().unwrap_err(), "cache_ttl must be at least 1 second");
}

#[test]
fn test_health_check_config_validation_min_connections() {
    let mut config = HealthCheckConfig::default();

    config.min_connections = Some(1);
    assert!(config.validate().is_ok());

    config.min_connections = Some(0);
    assert!(config.validate().is_err());
    assert_eq!(config.validate().unwrap_err(), "min_connections must be greater than 0");

    config.min_connections = None;
    assert!(config.validate().is_ok());
}

#[test]
fn test_health_check_config_validation_max_memory() {
    let mut config = HealthCheckConfig::default();

    config.max_memory_mb = Some(1);
    assert!(config.validate().is_ok());

    config.max_memory_mb = Some(0);
    assert!(config.validate().is_err());
    assert_eq!(config.validate().unwrap_err(), "max_memory_mb must be greater than 0");

    config.max_memory_mb = None;
    assert!(config.validate().is_ok());
}

#[test]
fn test_health_check_config_validation_max_time_drift() {
    let mut config = HealthCheckConfig::default();

    config.max_time_drift_ms = Some(1);
    assert!(config.validate().is_ok());

    config.max_time_drift_ms = Some(0);
    assert!(config.validate().is_err());
    assert_eq!(config.validate().unwrap_err(), "max_time_drift_ms must be greater than 0");

    config.max_time_drift_ms = Some(-1);
    assert!(config.validate().is_err());

    config.max_time_drift_ms = None;
    assert!(config.validate().is_ok());
}

#[test]
fn test_health_check_config_validation_max_pending_events() {
    let mut config = HealthCheckConfig::default();

    config.max_pending_events = Some(1);
    assert!(config.validate().is_ok());

    config.max_pending_events = Some(0);
    assert!(config.validate().is_err());
    assert_eq!(config.validate().unwrap_err(), "max_pending_events must be greater than 0");

    config.max_pending_events = None;
    assert!(config.validate().is_ok());
}

#[test]
fn test_health_check_config_selective_checks() {
    let config = HealthCheckConfig {
        enabled: true,
        server_bind_address: None,
        cache_ttl_ms: 30_000,
        min_connections: Some(5),
        max_memory_mb: None,
        max_time_drift_ms: Some(100),
        max_pending_events: None,
    };

    assert!(config.validate().is_ok());
    assert!(config.enabled);
    assert!(config.min_connections.is_some());
    assert!(config.max_memory_mb.is_none());
    assert!(config.max_time_drift_ms.is_some());
    assert!(config.max_pending_events.is_none());
}

#[test]
fn validation_reports_the_first_broken_rule() {
    let config = HealthCheckConfig {
        enabled: true,
        server_bind_address: None,
        cache_ttl_ms: 10,
        min_connections: Some(0),
        max_memory_mb: Some(0),
        max_time_drift_ms: Some(0),
        max_pending_events: Some(0),
    };
    assert_eq!(config.validate().unwrap_err(), "cache_ttl must be at least 1 second");
}

#[test]
fn default_server_address() {
    let config = HealthCheckConfig::default();
    assert_eq!(config.server_bind_address.as_deref(), Some("0.0.0.0:8080"));
}

#[test]
fn builtin_checks_follow_the_configuration() {
    assert!(HealthCheckConfig::disabled().builtin_checks().is_none());

    let checks = HealthCheckConfig::default().builtin_checks().unwrap();
    assert_eq!(checks.connections.unwrap().min_connections(), 3);
    assert_eq!(checks.memory.unwrap().max_memory_mb(), 1800);
    assert_eq!(checks.time_drift.unwrap().max_drift_ms(), 100);
    assert_eq!(checks.state_convergence.unwrap().max_pending_events(), 1000);

    let selective = HealthCheckConfig {
        enabled: true,
        server_bind_address: None,
        cache_ttl_ms: 30_000,
        min_connections: Some(5),
        max_memory_mb: None,
        max_time_drift_ms: Some(100),
        max_pending_events: None,
    };
    let checks = selective.builtin_checks().unwrap();
    assert!(checks.connections.is_some());
    assert!(checks.memory.is_none());
    assert!(checks.time_drift.is_some());
    assert!(checks.state_convergence.is_none());
}
