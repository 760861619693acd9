//! The monitoring service: single entry point composing the metrics
//! history store, the alert ledger, the log buffer and the collection
//! controller's enable flag behind one coherent interface.
//!
//! The service owns no independent state beyond the three stores and
//! the flag. Collection itself is driven from outside: a background
//! loop checks [`MonitoringService::monitoring_enabled`] each tick and,
//! while enabled, hands one batch of provider readings to
//! [`MonitoringService::get_metrics`], which shares one code path and
//! one eviction discipline with foreground refreshes.

use vstd::prelude::*;
use crate::HISTORY_CAPACITY;
use crate::HISTORY_EVICTION_BATCH;
use crate::LOG_CAPACITY;
use crate::LOG_EVICTION_BATCH;
use crate::evict_step;
use crate::alerts::AlertLedger;
use crate::alerts::AlertModel;
use crate::alerts::AlertSeverity;
use crate::alerts::Alert;
use crate::alerts::acknowledge_spec;
use crate::history::MetricsHistory;
use crate::history::window_of;
use crate::logs::LogBuffer;
use crate::logs::LogEntry;
use crate::logs::LogEntryModel;
use crate::logs::LogLevel;
use crate::logs::search_spec;
use crate::snapshot::CpuMetrics;
use crate::snapshot::DiskMetrics;
use crate::snapshot::DockerMetrics;
use crate::snapshot::K8sMetrics;
use crate::snapshot::MemoryMetrics;
use crate::snapshot::NetworkMetrics;
use crate::snapshot::SystemMetrics;
use crate::snapshot::SystemMetricsModel;

verus! {

/// Relies on chrono's Utc::now and DateTime::timestamp_millis for the
/// current wall-clock time in milliseconds since the Unix epoch.
/// Nothing is assumed of the value: the clock may move arbitrarily
/// between calls.
#[verifier::external_body]
fn now_millis() -> i64 {
    chrono::Utc::now().timestamp_millis()
}

/// Relies on uuid's Uuid::new_v4 and its Display form: a freshly drawn
/// random identifier, rendered hyphenated as 36 characters. The draw
/// is random, so no two calls are related; only the length is stated.
#[verifier::external_body]
fn fresh_alert_id() -> (r: String)
    ensures
        r@.len() == 36,
{
    uuid::Uuid::new_v4().to_string()
}

/// Mathematical model of the whole monitoring service.
pub ghost struct MonitoringModel {
    pub history: Seq<SystemMetricsModel>,
    pub alerts: Seq<AlertModel>,
    pub logs: Seq<LogEntryModel>,
    pub enabled: bool,
}

/// The observability facade: metrics history, alert ledger, log
/// buffer and the collection enable flag behind one interface.
pub struct MonitoringService {
    metrics_history: MetricsHistory,
    active_alerts: AlertLedger,
    log_buffer: LogBuffer,
    monitoring_enabled: bool,
}

impl View for MonitoringService {
    type V = MonitoringModel;

    closed spec fn view(&self) -> MonitoringModel {
        MonitoringModel {
            history: self.metrics_history@,
            alerts: self.active_alerts@,
            logs: self.log_buffer@,
            enabled: self.monitoring_enabled,
        }
    }
}

impl MonitoringService {
    /// Both bounded buffers respect their capacity ceilings and every
    /// retained snapshot is well formed.
    pub open spec fn inv(self) -> bool {
        &&& self@.history.len() <= HISTORY_CAPACITY
        &&& forall|i: int| 0 <= i < self@.history.len() ==> (#[trigger] self@.history[i]).wf()
        &&& self@.logs.len() <= LOG_CAPACITY
    }

    /// A fresh service: empty stores, collection enabled.
    pub fn new() -> (r: Self)
        ensures
            r@.history =~= Seq::<SystemMetricsModel>::empty(),
            r@.alerts =~= Seq::<AlertModel>::empty(),
            r@.logs =~= Seq::<LogEntryModel>::empty(),
            r@.enabled,
            r.inv(),
    {
        MonitoringService {
            metrics_history: MetricsHistory::new(),
            active_alerts: AlertLedger::new(),
            log_buffer: LogBuffer::new(),
            monitoring_enabled: true,
        }
    }

    /// Enables background collection. Takes effect within one tick of
    /// the driving loop; buffered state is untouched.
    pub fn start_monitoring(&mut self)
        ensures
            final(self)@ == (MonitoringModel { enabled: true, ..old(self)@ }),
    {
        self.monitoring_enabled = true;
    }

    /// Pauses background collection. Takes effect within one tick of
    /// the driving loop; buffered state is untouched, so collection
    /// can resume without data loss.
    pub fn stop_monitoring(&mut self)
        ensures
            final(self)@ == (MonitoringModel { enabled: false, ..old(self)@ }),
    {
        self.monitoring_enabled = false;
    }

    /// Whether the background loop should collect on its next tick.
    pub fn monitoring_enabled(&self) -> (r: bool)
        ensures
            r == self@.enabled,
    {
        self.monitoring_enabled
    }

    /// Assembles one snapshot from the provider readings, stamps the
    /// current time, appends it to the history store under the
    /// batch-eviction discipline, and returns it. On-demand refreshes
    /// and background ticks share this one code path.
    pub fn get_metrics(
        &mut self,
        cpu: CpuMetrics,
        memory: MemoryMetrics,
        disk: DiskMetrics,
        network: NetworkMetrics,
        docker: DockerMetrics,
        kubernetes: K8sMetrics,
    ) -> (r: SystemMetrics)
        requires
            old(self).inv(),
            cpu.wf(),
            memory.wf(),
            disk.wf(),
        ensures
            r@.cpu == cpu,
            r@.memory == memory,
            r@.disk == disk,
            r@.network == network@,
            r@.docker == docker,
            r@.kubernetes == kubernetes,
            final(self)@.history =~= evict_step(
                old(self)@.history.push(r@),
                HISTORY_CAPACITY as int,
                HISTORY_EVICTION_BATCH as int,
            ),
            final(self)@.alerts == old(self)@.alerts,
            final(self)@.logs == old(self)@.logs,
            final(self)@.enabled == old(self)@.enabled,
            final(self).inv(),
    {
        let timestamp = now_millis();
        let snapshot = SystemMetrics { timestamp, cpu, memory, disk, network, docker, kubernetes };
        let copy = snapshot.clone();
        self.metrics_history.append(snapshot);
        copy
    }

    /// All snapshots of the trailing window of `duration_minutes`
    /// minutes, ending at the moment of the call, in stored order.
    /// A window of zero minutes yields no results.
    pub fn get_metrics_history(&self, duration_minutes: u32) -> (r: Vec<SystemMetrics>)
        ensures
            exists|now_ms: int|
                r@.map_values(|m: SystemMetrics| m@) =~= #[trigger] window_of(
                    self@.history,
                    now_ms,
                    duration_minutes as int,
                ),
    {
        let now = now_millis();
        let r = self.metrics_history.window(now, duration_minutes);
        proof {
            assert(r@.map_values(|m: SystemMetrics| m@) =~= window_of(
                self@.history,
                now as int,
                duration_minutes as int,
            ));
        }
        r
    }

    /// Creates one alert: fresh identifier, current timestamp,
    /// unacknowledged, empty metadata. Appends it to the ledger and
    /// returns the identifier. Never fails.
    pub fn create_alert(&mut self, severity: AlertSeverity, source: String, message: String) -> (r:
        String)
        ensures
            exists|ts: i64|
                final(self)@.alerts =~= old(self)@.alerts.push(
                    AlertModel {
                        id: r@,
                        severity,
                        source: source@,
                        message: message@,
                        timestamp: ts,
                        acknowledged: false,
                        metadata: Seq::empty(),
                    },
                ),
            final(self)@.history == old(self)@.history,
            final(self)@.logs == old(self)@.logs,
            final(self)@.enabled == old(self)@.enabled,
    {
        let id = fresh_alert_id();
        let id_copy = id.clone();
        let timestamp = now_millis();
        self.active_alerts.create_with_id(id, severity, source, message, timestamp);
        id_copy
    }

    /// Every alert, acknowledged and unacknowledged alike, in creation
    /// order; callers filter client-side and receive copies.
    pub fn get_active_alerts(&self) -> (r: Vec<Alert>)
        ensures
            r@.map_values(|a: Alert| a@) =~= self@.alerts,
    {
        self.active_alerts.list()
    }

    /// Acknowledges the first alert carrying the given identifier;
    /// with an unknown identifier the ledger is unchanged and the call
    /// is a silent no-op, not an error.
    pub fn acknowledge_alert(&mut self, alert_id: &str)
        ensures
            final(self)@.alerts =~= acknowledge_spec(old(self)@.alerts, alert_id@),
            final(self)@.history == old(self)@.history,
            final(self)@.logs == old(self)@.logs,
            final(self)@.enabled == old(self)@.enabled,
    {
        self.active_alerts.acknowledge(alert_id);
    }

    /// Stamps the current time and appends one log entry at the tail
    /// of the buffer under the batch-eviction discipline.
    pub fn add_log_entry(&mut self, level: LogLevel, source: String, message: String)
        requires
            old(self).inv(),
        ensures
            exists|ts: i64|
                final(self)@.logs =~= evict_step(
                    old(self)@.logs.push(
                        LogEntryModel {
                            timestamp: ts,
                            level,
                            source: source@,
                            message: message@,
                            container_id: None,
                            pod_name: None,
                        },
                    ),
                    LOG_CAPACITY as int,
                    LOG_EVICTION_BATCH as int,
                ),
            final(self)@.history == old(self)@.history,
            final(self)@.alerts == old(self)@.alerts,
            final(self)@.enabled == old(self)@.enabled,
            final(self).inv(),
    {
        let timestamp = now_millis();
        let entry = LogEntry {
            timestamp,
            level,
            source,
            message,
            container_id: None,
            pod_name: None,
        };
        self.log_buffer.append(entry);
    }

    /// The chronologically earliest `limit` entries still resident
    /// whose message or source contains `query`, case-sensitively, in
    /// stored order. A limit of zero yields no results.
    pub fn search_logs(&self, query: &str, limit: usize) -> (r: Vec<LogEntry>)
        ensures
            r@.map_values(|e: LogEntry| e@) =~= search_spec(self@.logs, query@, limit as int),
    {
        self.log_buffer.search(query, limit)
    }
}

} // verus!
