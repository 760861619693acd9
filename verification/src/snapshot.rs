//! The snapshot data model: one immutable, timestamped bundle of host,
//! container-runtime and cluster metrics.
//!
//! Fractional quantities (percentages, throughput, load averages) are
//! carried as integers in hundredths of their unit, so that every field
//! is an exact value the verifier can reason about. A percentage field
//! therefore ranges over `0..=10000`.

use vstd::prelude::*;

verus! {

/// Upper bound of a percentage field, in hundredths of a percent.
pub const PERCENT_SCALE: u32 = 10000;

/// Host processor metrics. `usage_percent` is in hundredths of a
/// percent; the load averages are in hundredths.
pub struct CpuMetrics {
    pub usage_percent: u32,
    pub cores: usize,
    pub load_average: [u64; 3],
}

/// Host memory metrics, sizes in megabytes. `usage_percent` is in
/// hundredths of a percent.
pub struct MemoryMetrics {
    pub total_mb: u64,
    pub used_mb: u64,
    pub free_mb: u64,
    pub usage_percent: u32,
    pub swap_total_mb: u64,
    pub swap_used_mb: u64,
}

/// Host disk metrics, sizes in gigabytes. `usage_percent` is in
/// hundredths of a percent; throughput is in hundredths of a megabyte
/// per second.
pub struct DiskMetrics {
    pub total_gb: u64,
    pub used_gb: u64,
    pub free_gb: u64,
    pub usage_percent: u32,
    pub io_read_mb_s: u64,
    pub io_write_mb_s: u64,
}

/// One host network interface.
pub struct NetworkInterface {
    pub name: String,
    pub ip_address: String,
    pub is_up: bool,
    pub speed_mbps: Option<u32>,
}

/// Host network metrics; throughput in hundredths of a megabyte per
/// second.
pub struct NetworkMetrics {
    pub rx_mb_s: u64,
    pub tx_mb_s: u64,
    pub connections: usize,
    pub interfaces: Vec<NetworkInterface>,
}

/// Container-runtime summary. `disk_usage_gb` is in hundredths of a
/// gigabyte.
pub struct DockerMetrics {
    pub containers_running: usize,
    pub containers_stopped: usize,
    pub images_count: usize,
    pub volumes_count: usize,
    pub networks_count: usize,
    pub disk_usage_gb: u64,
}

/// Orchestration-cluster summary.
pub struct K8sMetrics {
    pub nodes_ready: usize,
    pub nodes_total: usize,
    pub pods_running: usize,
    pub pods_pending: usize,
    pub pods_failed: usize,
    pub deployments_healthy: usize,
    pub services_count: usize,
}

/// One immutable snapshot of host, runtime and cluster health.
/// `timestamp` is in milliseconds since the Unix epoch.
pub struct SystemMetrics {
    pub timestamp: i64,
    pub cpu: CpuMetrics,
    pub memory: MemoryMetrics,
    pub disk: DiskMetrics,
    pub network: NetworkMetrics,
    pub docker: DockerMetrics,
    pub kubernetes: K8sMetrics,
}

/// Mathematical model of one network interface.
pub ghost struct NetworkInterfaceModel {
    pub name: Seq<char>,
    pub ip_address: Seq<char>,
    pub is_up: bool,
    pub speed_mbps: Option<u32>,
}

/// Mathematical model of the network metrics of one snapshot.
pub ghost struct NetworkMetricsModel {
    pub rx_mb_s: u64,
    pub tx_mb_s: u64,
    pub connections: usize,
    pub interfaces: Seq<NetworkInterfaceModel>,
}

/// Mathematical model of one snapshot. The integer-only sub-records
/// model themselves.
pub ghost struct SystemMetricsModel {
    pub timestamp: i64,
    pub cpu: CpuMetrics,
    pub memory: MemoryMetrics,
    pub disk: DiskMetrics,
    pub network: NetworkMetricsModel,
    pub docker: DockerMetrics,
    pub kubernetes: K8sMetrics,
}

impl View for NetworkInterface {
    type V = NetworkInterfaceModel;

    open spec fn view(&self) -> NetworkInterfaceModel {
        NetworkInterfaceModel {
            name: self.name@,
            ip_address: self.ip_address@,
            is_up: self.is_up,
            speed_mbps: self.speed_mbps,
        }
    }
}

impl View for NetworkMetrics {
    type V = NetworkMetricsModel;

    open spec fn view(&self) -> NetworkMetricsModel {
        NetworkMetricsModel {
            rx_mb_s: self.rx_mb_s,
            tx_mb_s: self.tx_mb_s,
            connections: self.connections,
            interfaces: self.interfaces@.map_values(|n: NetworkInterface| n@),
        }
    }
}

impl View for SystemMetrics {
    type V = SystemMetricsModel;

    open spec fn view(&self) -> SystemMetricsModel {
        SystemMetricsModel {
            timestamp: self.timestamp,
            cpu: self.cpu,
            memory: self.memory,
            disk: self.disk,
            network: self.network@,
            docker: self.docker,
            kubernetes: self.kubernetes,
        }
    }
}

impl CpuMetrics {
    /// Percentage fields stay within scale.
    pub open spec fn wf(self) -> bool {
        self.usage_percent <= PERCENT_SCALE
    }

    /// The clearly-marked empty value substituted when the processor
    /// provider fails for one tick.
    pub fn unavailable() -> (r: Self)
        ensures
            r.wf(),
            r.usage_percent == 0,
            r.cores == 0,
            r.load_average@ =~= seq![0u64, 0u64, 0u64],
    {
        CpuMetrics { usage_percent: 0, cores: 0, load_average: [0, 0, 0] }
    }
}

impl MemoryMetrics {
    /// Percentage fields stay within scale.
    pub open spec fn wf(self) -> bool {
        self.usage_percent <= PERCENT_SCALE
    }

    /// The clearly-marked empty value substituted when the memory
    /// provider fails for one tick.
    pub fn unavailable() -> (r: Self)
        ensures
            r.wf(),
            r == (MemoryMetrics {
                total_mb: 0,
                used_mb: 0,
                free_mb: 0,
                usage_percent: 0,
                swap_total_mb: 0,
                swap_used_mb: 0,
            }),
    {
        MemoryMetrics {
            total_mb: 0,
            used_mb: 0,
            free_mb: 0,
            usage_percent: 0,
            swap_total_mb: 0,
            swap_used_mb: 0,
        }
    }
}

impl DiskMetrics {
    /// Percentage fields stay within scale.
    pub open spec fn wf(self) -> bool {
        self.usage_percent <= PERCENT_SCALE
    }

    /// The clearly-marked empty value substituted when the disk
    /// provider fails for one tick.
    pub fn unavailable() -> (r: Self)
        ensures
            r.wf(),
            r == (DiskMetrics {
                total_gb: 0,
                used_gb: 0,
                free_gb: 0,
                usage_percent: 0,
                io_read_mb_s: 0,
                io_write_mb_s: 0,
            }),
    {
        DiskMetrics {
            total_gb: 0,
            used_gb: 0,
            free_gb: 0,
            usage_percent: 0,
            io_read_mb_s: 0,
            io_write_mb_s: 0,
        }
    }
}

impl NetworkMetrics {
    /// The clearly-marked empty value substituted when the network
    /// provider fails for one tick.
    pub fn unavailable() -> (r: Self)
        ensures
            r.rx_mb_s == 0,
            r.tx_mb_s == 0,
            r.connections == 0,
            r@.interfaces =~= Seq::<NetworkInterfaceModel>::empty(),
    {
        NetworkMetrics { rx_mb_s: 0, tx_mb_s: 0, connections: 0, interfaces: Vec::new() }
    }
}

impl DockerMetrics {
    /// The clearly-marked empty value substituted when the
    /// container-runtime provider fails for one tick.
    pub fn unavailable() -> (r: Self)
        ensures
            r == (DockerMetrics {
                containers_running: 0,
                containers_stopped: 0,
                images_count: 0,
                volumes_count: 0,
                networks_count: 0,
                disk_usage_gb: 0,
            }),
    {
        DockerMetrics {
            containers_running: 0,
            containers_stopped: 0,
            images_count: 0,
            volumes_count: 0,
            networks_count: 0,
            disk_usage_gb: 0,
        }
    }
}

impl K8sMetrics {
    /// The clearly-marked empty value substituted when the cluster
    /// provider fails for one tick.
    pub fn unavailable() -> (r: Self)
        ensures
            r == (K8sMetrics {
                nodes_ready: 0,
                nodes_total: 0,
                pods_running: 0,
                pods_pending: 0,
                pods_failed: 0,
                deployments_healthy: 0,
                services_count: 0,
            }),
    {
        K8sMetrics {
            nodes_ready: 0,
            nodes_total: 0,
            pods_running: 0,
            pods_pending: 0,
            pods_failed: 0,
            deployments_healthy: 0,
            services_count: 0,
        }
    }
}

impl SystemMetricsModel {
    /// A snapshot model is well formed when each percentage field of
    /// its sub-records stays within scale.
    pub open spec fn wf(self) -> bool {
        self.cpu.wf() && self.memory.wf() && self.disk.wf()
    }
}

impl SystemMetrics {
    /// A snapshot is well formed when its model is.
    pub open spec fn wf(self) -> bool {
        self@.wf()
    }
}

impl Clone for NetworkInterface {
    fn clone(&self) -> (r: Self)
        ensures
            r == *self,
    {
        NetworkInterface {
            name: self.name.clone(),
            ip_address: self.ip_address.clone(),
            is_up: self.is_up,
            speed_mbps: self.speed_mbps,
        }
    }
}

impl Clone for CpuMetrics {
    fn clone(&self) -> (r: Self)
        ensures
            r == *self,
    {
        CpuMetrics {
            usage_percent: self.usage_percent,
            cores: self.cores,
            load_average: self.load_average,
        }
    }
}

impl Clone for MemoryMetrics {
    fn clone(&self) -> (r: Self)
        ensures
            r == *self,
    {
        MemoryMetrics {
            total_mb: self.total_mb,
            used_mb: self.used_mb,
            free_mb: self.free_mb,
            usage_percent: self.usage_percent,
            swap_total_mb: self.swap_total_mb,
            swap_used_mb: self.swap_used_mb,
        }
    }
}

impl Clone for DiskMetrics {
    fn clone(&self) -> (r: Self)
        ensures
            r == *self,
    {
        DiskMetrics {
            total_gb: self.total_gb,
            used_gb: self.used_gb,
            free_gb: self.free_gb,
            usage_percent: self.usage_percent,
            io_read_mb_s: self.io_read_mb_s,
            io_write_mb_s: self.io_write_mb_s,
        }
    }
}

impl Clone for NetworkMetrics {
    fn clone(&self) -> (r: Self)
        ensures
            r@ == self@,
    {
        let mut interfaces: Vec<NetworkInterface> = Vec::new();
        let mut i: usize = 0;
        while i < self.interfaces.len()
            invariant
                i <= self.interfaces.len(),
                interfaces@ == self.interfaces@.take(i as int),
            decreases self.interfaces.len() - i,
        {
            interfaces.push(self.interfaces[i].clone());
            proof {
                assert(interfaces@ =~= self.interfaces@.take(i + 1 as int));
            }
            i = i + 1;
        }
        proof {
            assert(interfaces@ =~= self.interfaces@);
        }
        NetworkMetrics {
            rx_mb_s: self.rx_mb_s,
            tx_mb_s: self.tx_mb_s,
            connections: self.connections,
            interfaces,
        }
    }
}

impl Clone for DockerMetrics {
    fn clone(&self) -> (r: Self)
        ensures
            r == *self,
    {
        DockerMetrics {
            containers_running: self.containers_running,
            containers_stopped: self.containers_stopped,
            images_count: self.images_count,
            volumes_count: self.volumes_count,
            networks_count: self.networks_count,
            disk_usage_gb: self.disk_usage_gb,
        }
    }
}

impl Clone for K8sMetrics {
    fn clone(&self) -> (r: Self)
        ensures
            r == *self,
    {
        K8sMetrics {
            nodes_ready: self.nodes_ready,
            nodes_total: self.nodes_total,
            pods_running: self.pods_running,
            pods_pending: self.pods_pending,
            pods_failed: self.pods_failed,
            deployments_healthy: self.deployments_healthy,
            services_count: self.services_count,
        }
    }
}

impl Clone for SystemMetrics {
    fn clone(&self) -> (r: Self)
        ensures
            r@ == self@,
    {
        SystemMetrics {
            timestamp: self.timestamp,
            cpu: self.cpu.clone(),
            memory: self.memory.clone(),
            disk: self.disk.clone(),
            network: self.network.clone(),
            docker: self.docker.clone(),
            kubernetes: self.kubernetes.clone(),
        }
    }
}

} // verus!
