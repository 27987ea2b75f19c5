use elara::chaos::{ChaosLink, ChaosStats, SendDraw};

const MS: u64 = 1_000_000;

fn balanced(link: &ChaosLink) -> bool {
    let s = link.stats();
    s.packets_sent + s.packets_duplicated == s.packets_lost + s.packets_delivered + link.in_flight_len() as u64
        && s.packets_lost <= s.packets_sent
}

#[test]
fn packets_arrive_when_due_in_order() {
    let mut link = ChaosLink::new();
    let (s0, lost) = link.begin_send();
    assert_eq!((s0, lost), (0, false));
    assert_eq!(link.enqueue(vec![1], 50 * MS, s0, None), 50 * MS);
    let (s1, _) = link.begin_send();
    link.enqueue(vec![2], 20 * MS, s1, None);
    assert_eq!(link.in_flight_len(), 2);

    // nothing due yet
    assert!(link.tick(10 * MS).is_empty());
    // the second packet is due but waits behind the first
    assert!(link.tick(20 * MS).is_empty());
    assert_eq!(link.tick(20 * MS), vec![vec![1], vec![2]]);
    assert_eq!(link.current_time_ns(), 50 * MS);

    let stats = *link.stats();
    assert_eq!(stats.packets_sent, 2);
    assert_eq!(stats.packets_delivered, 2);
    assert_eq!(stats.total_latency_ms, 70);
    assert_eq!(stats.max_latency_ms, 50);
    assert!(balanced(&link));
}

#[test]
fn burst_losses_and_single_losses() {
    let mut link = ChaosLink::new();
    let (_, lost) = link.begin_send();
    assert!(!lost);
    link.lose(2);
    assert!(link.begin_send().1);
    assert!(link.begin_send().1);
    let (seq, lost) = link.begin_send();
    assert!(!lost);
    assert_eq!(seq, 3);
    link.lose(0);
    assert!(!link.begin_send().1);
    let stats = *link.stats();
    assert_eq!(stats.packets_sent, 4);
    assert_eq!(stats.packets_lost, 4);
    assert!(balanced(&link));
}

#[test]
fn reordering_and_duplication() {
    let mut link = ChaosLink::new();
    for (i, lat) in [10u64, 20, 30].iter().enumerate() {
        let (seq, _) = link.begin_send();
        link.enqueue(vec![i as u8], lat * MS, seq, None);
    }
    // a reorder draw with depth 5 is capped by the three packets in flight
    assert_eq!(link.reorder_bound(true, 5), Some(3));
    assert_eq!(link.reorder_bound(true, 2), Some(2));
    assert_eq!(link.reorder_bound(false, 2), None);
    let (seq, _) = link.begin_send();
    let due = link.enqueue(vec![9], 5 * MS, seq, Some(3));
    link.enqueue_duplicate(vec![9], due, 100 * MS, seq);
    let stats = *link.stats();
    assert_eq!(stats.packets_reordered, 1);
    assert_eq!(stats.packets_duplicated, 1);
    assert!(balanced(&link));

    // the reordered packet went to the front
    assert_eq!(link.tick(30 * MS), vec![vec![9], vec![0], vec![1], vec![2]]);
    assert_eq!(link.tick(100 * MS), vec![vec![9]]);
    assert_eq!(link.stats().max_latency_ms, 105);
    assert!(balanced(&link));
}

#[test]
fn reorder_on_empty_link_goes_to_back() {
    let mut link = ChaosLink::new();
    assert_eq!(link.reorder_bound(true, 3), None);
    let (seq, _) = link.begin_send();
    link.enqueue(vec![1], 0, seq, Some(2));
    assert_eq!(link.stats().packets_reordered, 0);
    assert_eq!(link.tick(0), vec![vec![1]]);
}

#[test]
fn reset_zeroes_statistics() {
    let mut link = ChaosLink::new();
    let (seq, _) = link.begin_send();
    link.enqueue(vec![1], MS, seq, None);
    link.tick(2 * MS);
    link.reset_stats();
    assert_eq!(*link.stats(), ChaosStats::default());
    assert_eq!(link.current_time_ns(), 2 * MS);
}

#[test]
fn tick_range_check() {
    let mut link = ChaosLink::new();
    assert!(link.can_tick(u64::MAX));
    link.tick(5);
    assert!(!link.can_tick(u64::MAX));
    assert!(link.can_tick(u64::MAX - 5));
    let (seq, _) = link.begin_send();
    link.enqueue(vec![1], MS, seq, None);
    assert!(link.can_tick(2 * MS));
    assert_eq!(link.tick(2 * MS), vec![vec![1]]);
}

#[test]
fn lost_packets_are_never_delivered() {
    let mut link = ChaosLink::new();
    let (s0, _) = link.begin_send();
    link.lose(1);
    let (_, lost) = link.begin_send();
    assert!(lost);
    let (s2, lost) = link.begin_send();
    assert!(!lost);
    let delivery = link.enqueue(vec![7], 5 * MS, s2, None);
    link.enqueue_duplicate(vec![7], delivery, MS, s2);
    assert_eq!(link.in_flight_len(), 2);
    assert_eq!(link.tick(10 * MS), vec![vec![7], vec![7]]);
    let stats = *link.stats();
    assert_eq!(s0, 0);
    assert_eq!((stats.packets_sent, stats.packets_lost, stats.packets_duplicated), (3, 2, 1));
    assert_eq!(stats.packets_delivered, stats.packets_sent - stats.packets_lost + stats.packets_duplicated);
    assert!(balanced(&link));
}

#[test]
fn one_send_counts_once_and_lost_sends_stay_out_of_flight() {
    let mut link = ChaosLink::new();
    let travel = SendDraw::Travel { latency_ns: 5 * MS, reorder: None, duplicate_extra_ns: Some(MS) };
    assert!(link.send(vec![1], travel));
    assert_eq!(link.in_flight_len(), 2);

    assert!(!link.send(vec![2], SendDraw::BurstStart(1)));
    assert_eq!(link.burst_remaining(), 1);
    // the burst takes the next packet whatever its draw
    assert!(!link.send(vec![3], travel));
    assert_eq!(link.burst_remaining(), 0);
    assert!(!link.send(vec![4], SendDraw::Lost));
    assert_eq!(link.in_flight_len(), 2);

    let reordered = SendDraw::Travel { latency_ns: 2 * MS, reorder: Some(1), duplicate_extra_ns: None };
    assert!(link.send(vec![5], reordered));
    let stats = *link.stats();
    assert_eq!(
        (stats.packets_sent, stats.packets_lost, stats.packets_duplicated, stats.packets_reordered),
        (5, 3, 1, 1)
    );
    assert!(balanced(&link));

    // the reordered packet went one place before the back, ahead of the duplicate
    let delivered = link.tick(10 * MS);
    assert_eq!(delivered, vec![vec![1], vec![5], vec![1]]);
    assert_eq!(link.stats().packets_delivered, delivered.len() as u64);
    assert_eq!(link.stats().packets_delivered, 5 - 3 + 1);
    assert!(balanced(&link));
}
