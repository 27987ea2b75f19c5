use elara::health::{HealthCache, HealthCheckResult, HealthStatus};
use elara::health_response::{
    result_to_status_code, result_to_status_string, CheckResponse, HealthResponse, STATUS_OK,
    STATUS_SERVICE_UNAVAILABLE,
};

#[test]
fn test_result_to_status_string() {
    assert_eq!(result_to_status_string(&HealthCheckResult::Healthy), "healthy");
    assert_eq!(
        result_to_status_string(&HealthCheckResult::Degraded { reason: "test".to_string() }),
        "degraded"
    );
    assert_eq!(
        result_to_status_string(&HealthCheckResult::Unhealthy { reason: "test".to_string() }),
        "unhealthy"
    );
}

#[test]
fn test_result_to_status_code() {
    assert_eq!(result_to_status_code(&HealthCheckResult::Healthy), 200);
    assert_eq!(result_to_status_code(&HealthCheckResult::Degraded { reason: "test".to_string() }), 200);
    assert_eq!(
        result_to_status_code(&HealthCheckResult::Unhealthy { reason: "test".to_string() }),
        503
    );
    assert_eq!(STATUS_OK, 200);
    assert_eq!(STATUS_SERVICE_UNAVAILABLE, 503);
}

#[test]
fn test_health_response_from_status() {
    let mut cache = HealthCache::new(30_000);
    let status = match cache.lookup(0) {
        Some(s) => s,
        None => cache.store(
            vec![
                ("test_healthy".to_string(), HealthCheckResult::Healthy),
                (
                    "test_degraded".to_string(),
                    HealthCheckResult::Degraded { reason: "Test degradation".to_string() },
                ),
            ],
            0,
        ),
    };
    let response = HealthResponse::from_status(&status, 1_700_000_000, 0);

    let by_name = |name: &str| -> CheckResponse {
        response.checks.iter().find(|(n, _)| n == name).unwrap().1.clone()
    };
    assert_eq!(response.status, "degraded");
    assert_eq!(response.checks.len(), 2);
    assert_eq!(by_name("test_healthy").status, "healthy");
    assert_eq!(by_name("test_degraded").status, "degraded");
    assert_eq!(by_name("test_degraded").reason, Some("Test degradation".to_string()));
    assert_eq!(by_name("test_healthy").reason, None);
}

#[test]
fn response_timestamp_is_rfc3339() {
    let status = HealthStatus::new(vec![], 0);
    let response = HealthResponse::from_status(&status, 1_518_568_087, 0);
    assert_eq!(response.timestamp, "2018-02-14T00:28:07Z");
    let response = HealthResponse::from_status(&status, 1_518_568_087, 123_000_000);
    assert_eq!(response.timestamp, "2018-02-14T00:28:07.123000000Z");
    assert_eq!(response.status, "healthy");
    assert!(response.checks.is_empty());
}

#[test]
fn check_response_of_unhealthy() {
    let r = CheckResponse::from_result(&HealthCheckResult::Unhealthy { reason: "down".to_string() });
    assert_eq!(r.status, "unhealthy");
    assert_eq!(r.reason.as_deref(), Some("down"));
}
