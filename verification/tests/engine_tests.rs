use obsengine::engine::MonitoringService;
use obsengine::logs::LogLevel;
use obsengine::alerts::AlertSeverity;
use obsengine::snapshot::{
    CpuMetrics, DiskMetrics, DockerMetrics, K8sMetrics, MemoryMetrics, NetworkMetrics,
};

fn sample_readings() -> (
    CpuMetrics,
    MemoryMetrics,
    DiskMetrics,
    NetworkMetrics,
    DockerMetrics,
    K8sMetrics,
) {
    (
        CpuMetrics { usage_percent: 4520, cores: 8, load_average: [150, 130, 110] },
        MemoryMetrics {
            total_mb: 16384,
            used_mb: 8192,
            free_mb: 8192,
            usage_percent: 5000,
            swap_total_mb: 4096,
            swap_used_mb: 1024,
        },
        DiskMetrics {
            total_gb: 500,
            used_gb: 250,
            free_gb: 250,
            usage_percent: 5000,
            io_read_mb_s: 1050,
            io_write_mb_s: 520,
        },
        NetworkMetrics { rx_mb_s: 150, tx_mb_s: 80, connections: 42, interfaces: vec![] },
        DockerMetrics {
            containers_running: 5,
            containers_stopped: 3,
            images_count: 20,
            volumes_count: 10,
            networks_count: 3,
            disk_usage_gb: 1550,
        },
        K8sMetrics {
            nodes_ready: 3,
            nodes_total: 3,
            pods_running: 25,
            pods_pending: 2,
            pods_failed: 0,
            deployments_healthy: 8,
            services_count: 12,
        },
    )
}

#[test]
fn collection_starts_enabled_and_toggles() {
    let mut service = MonitoringService::new();
    assert!(service.monitoring_enabled());
    service.stop_monitoring();
    assert!(!service.monitoring_enabled());
    service.start_monitoring();
    assert!(service.monitoring_enabled());
}

#[test]
fn get_metrics_returns_and_stores_the_snapshot() {
    let mut service = MonitoringService::new();
    let (cpu, memory, disk, network, docker, kubernetes) = sample_readings();
    let snapshot = service.get_metrics(cpu, memory, disk, network, docker, kubernetes);
    assert_eq!(snapshot.cpu.usage_percent, 4520);
    assert_eq!(snapshot.memory.total_mb, 16384);
    assert_eq!(snapshot.kubernetes.pods_running, 25);
    // The same snapshot is now the newest history entry.
    let history = service.get_metrics_history(10);
    assert_eq!(history.len(), 1);
    assert_eq!(history[0].timestamp, snapshot.timestamp);
    assert_eq!(history[0].docker.containers_running, 5);
}

#[test]
fn pausing_does_not_lose_buffered_state() {
    let mut service = MonitoringService::new();
    let (cpu, memory, disk, network, docker, kubernetes) = sample_readings();
    service.get_metrics(cpu, memory, disk, network, docker, kubernetes);
    service.stop_monitoring();
    let history = service.get_metrics_history(10);
    assert_eq!(history.len(), 1);
    service.start_monitoring();
    let history = service.get_metrics_history(10);
    assert_eq!(history.len(), 1);
}

#[test]
fn create_alert_returns_the_stored_identifier() {
    let mut service = MonitoringService::new();
    let id = service.create_alert(
        AlertSeverity::Critical,
        "cpu".to_string(),
        "usage above threshold".to_string(),
    );
    assert_eq!(id.len(), 36);
    let alerts = service.get_active_alerts();
    assert_eq!(alerts.len(), 1);
    assert_eq!(alerts[0].id, id);
    assert_eq!(alerts[0].source, "cpu");
    assert_eq!(alerts[0].message, "usage above threshold");
    assert!(!alerts[0].acknowledged);
    assert!(alerts[0].metadata.is_empty());
}

#[test]
fn distinct_alerts_get_distinct_identifiers() {
    let mut service = MonitoringService::new();
    let first = service.create_alert(AlertSeverity::Info, "a".to_string(), "m".to_string());
    let second = service.create_alert(AlertSeverity::Info, "a".to_string(), "m".to_string());
    assert_ne!(first, second);
}

#[test]
fn acknowledge_alert_through_the_facade() {
    let mut service = MonitoringService::new();
    let id = service.create_alert(AlertSeverity::Warning, "disk".to_string(), "filling".to_string());
    service.acknowledge_alert(&id);
    service.acknowledge_alert(&id);
    service.acknowledge_alert("unknown");
    let alerts = service.get_active_alerts();
    assert_eq!(alerts.len(), 1);
    assert!(alerts[0].acknowledged);
}

#[test]
fn add_log_entry_and_search_share_the_buffer() {
    let mut service = MonitoringService::new();
    service.add_log_entry(LogLevel::Info, "web".to_string(), "request served".to_string());
    service.add_log_entry(LogLevel::Error, "db".to_string(), "connection error".to_string());
    service.add_log_entry(LogLevel::Warn, "db".to_string(), "slow query".to_string());
    let found = service.search_logs("error", 10);
    assert_eq!(found.len(), 1);
    assert_eq!(found[0].source, "db");
    assert_eq!(found[0].message, "connection error");
    assert!(matches!(found[0].level, LogLevel::Error));
    assert!(found[0].container_id.is_none());
    assert!(found[0].pod_name.is_none());
    let by_source = service.search_logs("db", 1);
    assert_eq!(by_source.len(), 1);
    assert_eq!(by_source[0].message, "connection error");
}

#[test]
fn facade_reads_are_ordered_like_appends() {
    let mut service = MonitoringService::new();
    for k in 0..20 {
        service.add_log_entry(LogLevel::Info, "svc".to_string(), format!("line {}", k));
    }
    let all = service.search_logs("line", usize::MAX);
    assert_eq!(all.len(), 20);
    for (k, entry) in all.iter().enumerate() {
        assert_eq!(entry.message, format!("line {}", k));
    }
    for pair in all.windows(2) {
        assert!(pair[0].timestamp <= pair[1].timestamp);
    }
}
