//! The unsupported-host backend: it implements the same four operations
//! as the real backends and returns empty or zero-valued results, so
//! every public operation stays callable on any host and never fails.

use crate::model::{NetworkInfo, ProcessInfo, SystemInfo, SystemResourceInfo};
use vstd::prelude::*;

verus! {

/// No process can be enumerated on an unsupported host: the collection
/// is empty, not an error.
pub fn list_processes_unsupported() -> (r: Vec<ProcessInfo>)
    ensures
        r@.len() == 0,
{
    Vec::new()
}

/// Every counter of an unsupported host reads zero, and no volume or
/// core is listed.
pub fn sample_resources_unsupported() -> (r: SystemResourceInfo)
    ensures
        r.cpu_usage == 0,
        r.cpu_per_core@.len() == 0,
        r.memory_total == 0,
        r.memory_used == 0,
        r.memory_available == 0,
        r.swap_total == 0,
        r.swap_used == 0,
        r.swap_free == 0,
        r.disk_usage@.len() == 0,
        r.network_usage == (NetworkInfo {
            bytes_sent: 0,
            bytes_received: 0,
            packets_sent: 0,
            packets_received: 0,
        }),
        r.wf(),
{
    SystemResourceInfo {
        cpu_usage: 0,
        cpu_per_core: Vec::new(),
        memory_total: 0,
        memory_used: 0,
        memory_available: 0,
        swap_total: 0,
        swap_used: 0,
        swap_free: 0,
        disk_usage: Vec::new(),
        network_usage: NetworkInfo {
            bytes_sent: 0,
            bytes_received: 0,
            packets_sent: 0,
            packets_received: 0,
        },
    }
}

/// Every identity field of an unsupported host is its sentinel: the
/// unknown label for strings, zero for numbers.
pub fn read_identity_unsupported() -> (r: SystemInfo)
    ensures
        r.os_name@ == "Unknown"@,
        r.os_version@ == "Unknown"@,
        r.kernel_version@ == "Unknown"@,
        r.hostname@ == "Unknown"@,
        r.cpu_brand@ == "Unknown"@,
        r.cpu_cores == 0,
        r.total_memory == 0,
        r.boot_time == 0,
        r.uptime == 0,
{
    SystemInfo {
        os_name: "Unknown".to_owned(),
        os_version: "Unknown".to_owned(),
        kernel_version: "Unknown".to_owned(),
        hostname: "Unknown".to_owned(),
        cpu_brand: "Unknown".to_owned(),
        cpu_cores: 0,
        total_memory: 0,
        boot_time: 0,
        uptime: 0,
    }
}

/// No process can be terminated on an unsupported host: the request
/// reports failure and raises nothing.
pub fn terminate_unsupported(pid: u32) -> (r: bool)
    ensures
        !r,
{
    let _ = pid;
    false
}

} // verus!
