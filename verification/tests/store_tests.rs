use obsengine::history::MetricsHistory;
use obsengine::logs::{LogBuffer, LogEntry, LogLevel};
use obsengine::snapshot::{
    CpuMetrics, DiskMetrics, DockerMetrics, K8sMetrics, MemoryMetrics, NetworkMetrics,
    SystemMetrics,
};

fn snapshot_at(ts: i64) -> SystemMetrics {
    SystemMetrics {
        timestamp: ts,
        cpu: CpuMetrics { usage_percent: 4520, cores: 8, load_average: [150, 130, 110] },
        memory: MemoryMetrics {
            total_mb: 16384,
            used_mb: 8192,
            free_mb: 8192,
            usage_percent: 5000,
            swap_total_mb: 4096,
            swap_used_mb: 1024,
        },
        disk: DiskMetrics {
            total_gb: 500,
            used_gb: 250,
            free_gb: 250,
            usage_percent: 5000,
            io_read_mb_s: 1050,
            io_write_mb_s: 520,
        },
        network: NetworkMetrics { rx_mb_s: 150, tx_mb_s: 80, connections: 42, interfaces: vec![] },
        docker: DockerMetrics {
            containers_running: 5,
            containers_stopped: 3,
            images_count: 20,
            volumes_count: 10,
            networks_count: 3,
            disk_usage_gb: 1550,
        },
        kubernetes: K8sMetrics {
            nodes_ready: 3,
            nodes_total: 3,
            pods_running: 25,
            pods_pending: 2,
            pods_failed: 0,
            deployments_healthy: 8,
            services_count: 12,
        },
    }
}

fn log_at(ts: i64, source: &str, message: &str) -> LogEntry {
    LogEntry {
        timestamp: ts,
        level: LogLevel::Info,
        source: source.to_string(),
        message: message.to_string(),
        container_id: None,
        pod_name: None,
    }
}

#[test]
fn history_eviction_shape() {
    let mut store = MetricsHistory::new();
    for k in 0..1001i64 {
        store.append(snapshot_at(k));
    }
    assert_eq!(store.len(), 901);
    let window = store.window(1001, u32::MAX);
    assert_eq!(window.len(), 901);
    // The oldest eviction batch is gone: appends 100..=1000 remain, in order.
    assert_eq!(window[0].timestamp, 100);
    assert_eq!(window[900].timestamp, 1000);
    for (offset, snap) in window.iter().enumerate() {
        assert_eq!(snap.timestamp, 100 + offset as i64);
    }
}

#[test]
fn history_below_capacity_keeps_everything() {
    let mut store = MetricsHistory::new();
    for k in 0..1000i64 {
        store.append(snapshot_at(k));
    }
    assert_eq!(store.len(), 1000);
}

#[test]
fn history_latest_and_empty() {
    let mut store = MetricsHistory::new();
    assert!(store.latest().is_none());
    store.append(snapshot_at(7));
    store.append(snapshot_at(9));
    let latest = store.latest().unwrap();
    assert_eq!(latest.timestamp, 9);
}

#[test]
fn window_query_selects_strictly_newer_marks() {
    // Snapshots at minute marks 0..=10; a five-minute window ending at
    // mark 10 returns exactly the marks strictly greater than 5.
    let mut store = MetricsHistory::new();
    for mark in 0..=10i64 {
        store.append(snapshot_at(mark * 60_000));
    }
    let now = 10 * 60_000;
    let result = store.window(now, 5);
    let marks: Vec<i64> = result.iter().map(|m| m.timestamp / 60_000).collect();
    assert_eq!(marks, vec![6, 7, 8, 9, 10]);
}

#[test]
fn window_of_zero_minutes_is_empty() {
    let mut store = MetricsHistory::new();
    store.append(snapshot_at(1));
    assert!(store.window(1, 0).is_empty());
}

#[test]
fn window_preserves_append_order() {
    let mut store = MetricsHistory::new();
    for mark in 0..50i64 {
        store.append(snapshot_at(mark));
        // Interleave reads with appends: every read is in
        // non-decreasing timestamp order matching append order.
        let seen = store.window(mark, u32::MAX);
        assert_eq!(seen.len() as i64, mark + 1);
        for (offset, snap) in seen.iter().enumerate() {
            assert_eq!(snap.timestamp, offset as i64);
        }
    }
}

#[test]
fn log_eviction_shape() {
    let mut buffer = LogBuffer::new();
    for k in 0..10_001i64 {
        buffer.append(log_at(k, "svc", "line"));
    }
    assert_eq!(buffer.len(), 9001);
    // The most recent 9001 entries remain: appends 1000..=10000.
    let rest = buffer.search("line", usize::MAX);
    assert_eq!(rest.len(), 9001);
    assert_eq!(rest[0].timestamp, 1000);
    assert_eq!(rest[9000].timestamp, 10_000);
}

#[test]
fn search_returns_earliest_matches_up_to_limit() {
    // "error" at positions 2, 5 and 9 of a ten-entry buffer: a limit
    // of two returns positions 2 and 5, not 5 and 9.
    let mut buffer = LogBuffer::new();
    for pos in 0..10i64 {
        let message = if pos == 2 || pos == 5 || pos == 9 { "an error occurred" } else { "all quiet" };
        buffer.append(log_at(pos, "svc", message));
    }
    let found = buffer.search("error", 2);
    assert_eq!(found.len(), 2);
    assert_eq!(found[0].timestamp, 2);
    assert_eq!(found[1].timestamp, 5);
}

#[test]
fn search_matches_source_as_well() {
    let mut buffer = LogBuffer::new();
    buffer.append(log_at(0, "db", "started"));
    buffer.append(log_at(1, "web", "started"));
    let found = buffer.search("web", 10);
    assert_eq!(found.len(), 1);
    assert_eq!(found[0].timestamp, 1);
}

#[test]
fn search_is_case_sensitive_substring() {
    let mut buffer = LogBuffer::new();
    buffer.append(log_at(0, "svc", "Error: disk full"));
    buffer.append(log_at(1, "svc", "error: retrying"));
    let found = buffer.search("error", 10);
    assert_eq!(found.len(), 1);
    assert_eq!(found[0].timestamp, 1);
}

#[test]
fn search_with_zero_limit_is_empty() {
    let mut buffer = LogBuffer::new();
    buffer.append(log_at(0, "svc", "anything"));
    assert!(buffer.search("anything", 0).is_empty());
}
