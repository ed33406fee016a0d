use vstd::prelude::*;

verus! {

/// Bytes in one mebibyte, the unit of every "MB" figure on the dashboard.
pub const BYTES_PER_MIB: u64 = 1048576;

/// Per-process GPU memory usage.
#[derive(Debug)]
pub struct GpuProcessInfo {
    pub pid: u32,
    pub name: String,
    /// Bytes of GPU memory in use; `None` when the driver does not report it.
    pub vram_used: Option<u64>,
}

/// Whole mebibytes of an optional byte count.
pub open spec fn mib_of(bytes: Option<u64>) -> Option<u64> {
    match bytes {
        Some(b) => Some((b / BYTES_PER_MIB) as u64),
        None => None,
    }
}

fn to_mib(bytes: Option<u64>) -> (r: Option<u64>)
    ensures
        r == mib_of(bytes),
{
    match bytes {
        Some(b) => Some(b / BYTES_PER_MIB),
        None => None,
    }
}

impl GpuProcessInfo {
    /// Memory in use by the process, in whole mebibytes.
    pub fn vram_used_mb(&self) -> (r: Option<u64>)
        ensures
            r == mib_of(self.vram_used),
    {
        to_mib(self.vram_used)
    }
}

impl Clone for GpuProcessInfo {
    fn clone(&self) -> (r: Self)
        ensures
            r == *self,
    {
        GpuProcessInfo { pid: self.pid, name: self.name.clone(), vram_used: self.vram_used }
    }
}

/// One snapshot of a GPU or MIG instance.
#[derive(Debug, Clone)]
pub struct GpuMetrics {
    pub index: u32,
    pub name: String,
    pub uuid: String,
    pub is_mig_instance: bool,
    pub parent_gpu_index: Option<u32>,
    /// Utilization in percent; `None` when the driver cannot report it.
    pub gpu_util: Option<u32>,
    pub memory_util: Option<u32>,
    pub sm_util: Option<u32>,
    /// Memory in bytes; `None` when the memory query failed.
    pub memory_used: Option<u64>,
    pub memory_total: Option<u64>,
    pub temperature: Option<u32>,
    /// Power draw and limit in milliwatts.
    pub power_usage: Option<u32>,
    pub power_limit: Option<u32>,
    pub process_count: u32,
    /// Processes using the most memory, largest first, at most five.
    pub top_processes: Vec<GpuProcessInfo>,
    pub architecture: Option<&'static str>,
    pub compute_capability: Option<String>,
    pub ecc_enabled: Option<bool>,
    /// Shutdown and slowdown temperature thresholds in degrees Celsius.
    pub temp_shutdown: Option<u32>,
    pub temp_slowdown: Option<u32>,
    pub clock_graphics_mhz: Option<u32>,
    pub clock_sm_mhz: Option<u32>,
    pub clock_memory_mhz: Option<u32>,
    pub pcie_tx_kbps: Option<u32>,
    pub pcie_rx_kbps: Option<u32>,
    pub pcie_gen: Option<u32>,
    pub pcie_width: Option<u32>,
    /// "P0" to "P15", or "P?" when the state is unknown.
    pub performance_state: Option<&'static str>,
    /// "None", or the active throttle reasons joined by ", ".
    pub throttle_reasons: Option<String>,
    pub encoder_util: Option<u32>,
    pub decoder_util: Option<u32>,
    pub ecc_errors_corrected: Option<u64>,
    pub ecc_errors_uncorrected: Option<u64>,
}

impl GpuMetrics {
    /// Memory in use, in whole mebibytes.
    pub fn memory_used_mb(&self) -> (r: Option<u64>)
        ensures
            r == mib_of(self.memory_used),
    {
        to_mib(self.memory_used)
    }

    /// Total memory, in whole mebibytes.
    pub fn memory_total_mb(&self) -> (r: Option<u64>)
        ensures
            r == mib_of(self.memory_total),
    {
        to_mib(self.memory_total)
    }
}

} // verus!
