//! The canonical schema: the OS-independent value objects every backend
//! normalizes into, and the raw per-core counter pair the sampling cache
//! works on.

use vstd::prelude::*;

verus! {

/// Cumulative busy/total time counters of one logical core, in whatever
/// unit the host reports (jiffies, ticks, hundred-nanosecond intervals).
/// `busy` counts time spent executing work, `total` counts all time
/// accounted for the core.
#[derive(Clone, Copy, Debug, PartialEq, Eq, Structural)]
pub struct CoreTimes {
    pub busy: u64,
    pub total: u64,
}

/// One running process as seen at enumeration time. `cpu_usage` is in
/// hundredths of a percent and is best-effort: a backend that cannot
/// compute it cheaply reports zero.
#[derive(Clone, Debug)]
pub struct ProcessInfo {
    pub pid: u32,
    pub name: String,
    pub cpu_usage: u32,
    /// Resident memory in bytes.
    pub memory_usage: u64,
    pub parent_pid: Option<u32>,
    pub status: String,
    pub command: String,
    /// Absolute start time in Unix seconds; zero when unknown.
    pub start_time: u64,
}

/// Capacity and usage of one mounted volume, in bytes.
#[derive(Clone, Debug)]
pub struct DiskInfo {
    pub name: String,
    pub mount_point: String,
    pub total_space: u64,
    pub used_space: u64,
    pub available_space: u64,
}

/// Cumulative byte/packet counters summed over active interfaces.
/// These are raw totals since interface reset; no differencing is done.
#[derive(Clone, Copy, Debug, PartialEq, Eq, Structural)]
pub struct NetworkInfo {
    pub bytes_sent: u64,
    pub bytes_received: u64,
    pub packets_sent: u64,
    pub packets_received: u64,
}

/// One resource snapshot. CPU percentages are in hundredths of a percent;
/// memory, swap and disk values are byte counts.
#[derive(Clone, Debug)]
pub struct SystemResourceInfo {
    pub cpu_usage: u32,
    /// Per-core usage ordered by core index.
    pub cpu_per_core: Vec<u32>,
    pub memory_total: u64,
    pub memory_used: u64,
    pub memory_available: u64,
    pub swap_total: u64,
    pub swap_used: u64,
    pub swap_free: u64,
    pub disk_usage: Vec<DiskInfo>,
    pub network_usage: NetworkInfo,
}

/// Host identity: operating system, kernel, hostname, CPU brand, core
/// count, total memory, and boot time/uptime in Unix seconds.
#[derive(Clone, Debug)]
pub struct SystemInfo {
    pub os_name: String,
    pub os_version: String,
    pub kernel_version: String,
    pub hostname: String,
    pub cpu_brand: String,
    pub cpu_cores: u32,
    pub total_memory: u64,
    pub boot_time: u64,
    pub uptime: u64,
}

/// `v` held to the 64-bit range.
pub open spec fn sat_u64(v: int) -> int {
    if v > u64::MAX {
        u64::MAX as int
    } else {
        v
    }
}

/// `a - b`, or zero when `b` exceeds `a`: how a missing direct counter
/// is derived from two others without ever going negative.
pub open spec fn spec_sub_or_zero(a: int, b: int) -> int {
    if a > b {
        a - b
    } else {
        0
    }
}

/// Adds with saturation at the 64-bit ceiling.
pub fn sat_add_u64(a: u64, b: u64) -> (r: u64)
    ensures
        r == sat_u64(a + b),
{
    a.saturating_add(b)
}

/// Subtracts, clamping at zero.
pub fn sub_or_zero_u64(a: u64, b: u64) -> (r: u64)
    ensures
        r == spec_sub_or_zero(a as int, b as int),
{
    if a > b {
        a - b
    } else {
        0
    }
}

/// A percentage value is well-formed when it does not exceed full scale.
pub open spec fn percent_wf(p: u32) -> bool {
    p <= crate::PERCENT_SCALE
}

/// Every percentage of a sequence is within scale.
pub open spec fn percents_wf(ps: Seq<u32>) -> bool {
    forall|i: int| 0 <= i < ps.len() ==> percent_wf(#[trigger] ps[i])
}

impl ProcessInfo {
    /// All percentage fields lie in the allowed range.
    pub open spec fn wf(&self) -> bool {
        percent_wf(self.cpu_usage)
    }
}

impl SystemResourceInfo {
    /// All percentage fields lie in the allowed range.
    pub open spec fn wf(&self) -> bool {
        percent_wf(self.cpu_usage) && percents_wf(self.cpu_per_core@)
    }
}

} // verus!
