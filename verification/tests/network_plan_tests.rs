use elara::network_plan::{
    build_relay_frame, check_test_counts, message_payload, parse_nat_payload, send_plan, test_violations, TestConfigError,
};
use elara::tallies::{EventOutcome, ReconciliationResult, RuntimeStats, SecurityTestSummary};

#[test]
fn relay_frames_round_trip() {
    let frame = build_relay_frame(258, b"msg_0_1");
    assert_eq!(&frame[..2], &[2, 1]);
    assert_eq!(&frame[2..], b"msg_0_1");
    assert_eq!(parse_nat_payload(&frame), Some((258, 2)));
    assert_eq!(parse_nat_payload(&[5]), None);
    assert_eq!(parse_nat_payload(&[]), None);
    assert_eq!(parse_nat_payload(&[0xff, 0xff]), Some((65535, 2)));
}

#[test]
fn message_payload_text() {
    assert_eq!(message_payload(0, 4), "msg_0_4");
    assert_eq!(message_payload(12, 305), "msg_12_305");
}

#[test]
fn send_plan_covers_every_pair_but_self() {
    let plan = send_plan(3, 2);
    assert_eq!(plan.len(), 3 * 2 * 2);
    assert_eq!(
        plan,
        vec![
            (0, 0, 1), (0, 0, 2), (0, 1, 1), (0, 1, 2),
            (1, 0, 0), (1, 0, 2), (1, 1, 0), (1, 1, 2),
            (2, 0, 0), (2, 0, 1), (2, 1, 0), (2, 1, 1),
        ]
    );
    assert!(plan.iter().all(|(s, _, r)| s != r));
    assert!(send_plan(1, 5).is_empty());
    assert!(send_plan(4, 0).is_empty());
    assert_eq!(send_plan(5, 3).len(), 60);
}

#[test]
fn test_count_checks() {
    assert_eq!(check_test_counts(3, 5, 100), Ok(()));
    assert_eq!(check_test_counts(0, 5, 100), Err(TestConfigError::NoNodes));
    assert_eq!(check_test_counts(0, 0, 0), Err(TestConfigError::NoNodes));
    assert_eq!(check_test_counts(3, 0, 0), Err(TestConfigError::NoMessages));
    assert_eq!(check_test_counts(3, 5, 0), Err(TestConfigError::NoTimeout));
    assert_eq!(TestConfigError::NoNodes.message(), "node_count must be greater than 0");
    assert_eq!(TestConfigError::NoMessages.message(), "messages_per_node must be greater than 0");
    assert_eq!(TestConfigError::NoTimeout.message(), "recv_timeout_ms must be greater than 0");
}

#[test]
fn reconciliation_tally() {
    let outcomes = vec![
        EventOutcome::Applied,
        EventOutcome::Applied,
        EventOutcome::Merged,
        EventOutcome::Duplicate,
        EventOutcome::LateCorrected,
        EventOutcome::Buffered,
        EventOutcome::Rejected,
        EventOutcome::Rejected,
    ];
    let r = ReconciliationResult::tally(&outcomes);
    assert_eq!(r.applied, 2);
    assert_eq!(r.merged, 1);
    assert_eq!(r.late_corrected, 1);
    assert_eq!(r.buffered, 1);
    assert_eq!(r.rejected, 2);
    assert_eq!(
        r.applied + r.merged + r.late_corrected + r.buffered + r.rejected + 1,
        outcomes.len() as u32
    );
    assert_eq!(ReconciliationResult::tally(&vec![]), ReconciliationResult::default());
}

#[test]
fn security_summary() {
    let s = SecurityTestSummary::from_results(&vec![true, false, true, true]);
    assert_eq!((s.total, s.passed, s.failed), (4, 3, 1));
    let s = SecurityTestSummary::from_results(&vec![]);
    assert_eq!((s.total, s.passed, s.failed), (0, 0, 0));
}

#[test]
fn runtime_stats_start_at_zero() {
    let s = RuntimeStats::default();
    assert_eq!(s.ticks, 0);
    assert_eq!(s.packets_in + s.packets_out + s.last_tick_duration_ns, 0);
}

#[test]
fn test_timing_stats_calculation() {
    let measurements = vec![100, 102, 98, 101, 99, 103, 97, 100, 102, 98];
    let (min_ns, max_ns) = elara::tallies::measurement_range(&measurements);
    assert_eq!(min_ns, 97);
    assert_eq!(max_ns, 103);
    let mean = measurements.iter().sum::<u64>() as f64 / measurements.len() as f64;
    assert!((mean - 100.0).abs() < 1.0);
    assert_eq!(elara::tallies::measurement_range(&[]), (0, 0));
}

#[test]
fn violations_are_reported_in_order() {
    assert!(test_violations(3, None, true, 0).is_empty());
    assert_eq!(test_violations(1, None, true, 0), vec!["INV-0 violated: Insufficient nodes".to_string()]);
    assert_eq!(
        test_violations(0, Some("address in use".to_string()), false, 12),
        vec![
            "INV-0 violated: Insufficient nodes".to_string(),
            "NAT relay failed: address in use".to_string(),
            "INV-2 violated: Not all nodes are alive".to_string(),
            "Send failures: 12".to_string(),
        ]
    );
    assert_eq!(test_violations(2, None, true, 3), vec!["Send failures: 3".to_string()]);
}
