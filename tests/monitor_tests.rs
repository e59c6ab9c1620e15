use antigravity_proxy::monitor::{ProxyMonitor, ProxyStats, RequestLog};

fn entry(id: u64, status: u16) -> RequestLog {
    RequestLog {
        id,
        timestamp: id as i64,
        account_id: Some(format!("acct-{}", id)),
        model: None,
        status,
        duration_ms: 10,
        request_bytes: 1,
        response_bytes: 2,
    }
}

#[test]
fn capacity_three_keeps_last_three_newest_first() {
    let mut m = ProxyMonitor::new(3);
    for i in 1..=5 {
        m.record(entry(i, 200));
    }
    let ids: Vec<u64> = m.get_logs(10).iter().map(|e| e.id).collect();
    assert_eq!(ids, vec![5, 4, 3]);
}

#[test]
fn get_logs_of_capacity_after_overflow() {
    let mut m = ProxyMonitor::new(4);
    for i in 1..=9 {
        m.record(entry(i, 200));
    }
    assert_eq!(m.len(), 4);
    let ids: Vec<u64> = m.get_logs(4).iter().map(|e| e.id).collect();
    assert_eq!(ids, vec![9, 8, 7, 6]);
    let ids: Vec<u64> = m.get_logs(2).iter().map(|e| e.id).collect();
    assert_eq!(ids, vec![9, 8]);
}

#[test]
fn stats_count_every_record_and_reset_on_clear() {
    let mut m = ProxyMonitor::new(2);
    m.record(entry(1, 200));
    m.record(entry(2, 500));
    m.record(entry(3, 429));
    m.record(entry(4, 302));
    assert_eq!(m.get_stats(), ProxyStats { total_requests: 4, success_count: 2, error_count: 2 });
    m.clear();
    assert_eq!(m.get_stats(), ProxyStats { total_requests: 0, success_count: 0, error_count: 0 });
    assert!(m.get_logs(10).is_empty());
}

#[test]
fn disabled_monitor_records_nothing() {
    let mut m = ProxyMonitor::new(5);
    m.set_enabled(false);
    assert!(!m.is_enabled());
    m.record(entry(1, 200));
    assert_eq!(m.len(), 0);
    assert_eq!(m.get_stats().total_requests, 0);
    m.set_enabled(true);
    m.record(entry(2, 200));
    assert_eq!(m.len(), 1);
}

#[test]
fn zero_capacity_keeps_no_entries() {
    let mut m = ProxyMonitor::new(0);
    m.record(entry(1, 200));
    assert_eq!(m.capacity(), 0);
    assert!(m.get_logs(5).is_empty());
    assert_eq!(m.get_stats().total_requests, 1);
}
