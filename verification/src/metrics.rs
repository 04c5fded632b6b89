//! The metrics snapshot that the server publishes and the dashboard reads.
//! Real-valued readings are carried as IEEE-754 single-precision bit
//! patterns (see `crate::ieee`), so that the model holds plain integers.

use vstd::prelude::*;

verus! {

/// Memory and swap figures, in bytes.
#[derive(Clone, Copy, Debug, PartialEq, Eq)]
pub struct MemStats {
    pub total: u64,
    pub used: u64,
    pub available: u64,
    pub swap_total: u64,
    pub swap_used: u64,
    /// Wired pages (kernel and pinned memory).
    pub wired: u64,
    /// File-backed cached pages.
    pub cached: u64,
}

impl MemStats {
    /// All figures zero.
    pub open spec fn spec_zero() -> MemStats {
        MemStats { total: 0, used: 0, available: 0, swap_total: 0, swap_used: 0, wired: 0, cached: 0 }
    }
}

impl Default for MemStats {
    fn default() -> (r: MemStats)
        ensures
            r == MemStats::spec_zero(),
    {
        MemStats { total: 0, used: 0, available: 0, swap_total: 0, swap_used: 0, wired: 0, cached: 0 }
    }
}

/// Load of one CPU core.
#[derive(Clone, Debug)]
pub struct CpuCore {
    pub id: usize,
    /// Usage in percent, as a single-precision bit pattern.
    pub usage_bits: u32,
}

/// Load of one GPU engine. A negative usage means that the figure could not
/// be read.
#[derive(Clone, Debug)]
pub struct GpuCore {
    pub name: String,
    /// Usage in percent, as a single-precision bit pattern.
    pub usage_bits: u32,
}

/// One process of the process table.
#[derive(Clone, Debug)]
pub struct ProcessInfo {
    pub pid: u32,
    pub name: String,
    pub user: String,
    /// CPU usage in percent, as a single-precision bit pattern.
    pub cpu_usage_bits: u32,
    pub memory_bytes: u64,
    /// GPU usage in percent, as a single-precision bit pattern, when known.
    pub gpu_usage_bits: Option<u32>,
    /// The process holds an active GPU context.
    pub gpu_active: bool,
}

/// Everything the dashboard shows at one instant.
#[derive(Clone, Debug)]
pub struct MetricsSnapshot {
    pub timestamp: u64,
    pub cpu_cores: Vec<CpuCore>,
    pub gpu_cores: Vec<GpuCore>,
    pub memory: MemStats,
    pub processes: Vec<ProcessInfo>,
}

impl Default for MetricsSnapshot {
    /// The empty snapshot: time zero, no cores, no processes, zero memory.
    fn default() -> (r: MetricsSnapshot)
        ensures
            r.timestamp == 0,
            r.cpu_cores@.len() == 0,
            r.gpu_cores@.len() == 0,
            r.memory == MemStats::spec_zero(),
            r.processes@.len() == 0,
    {
        MetricsSnapshot {
            timestamp: 0,
            cpu_cores: Vec::new(),
            gpu_cores: Vec::new(),
            memory: MemStats::default(),
            processes: Vec::new(),
        }
    }
}

} // verus!
