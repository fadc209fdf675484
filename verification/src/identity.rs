//! Assembling the host identity: every field defaults independently on
//! an unreadable source, and boot time and uptime are derived from one
//! another when the host exposes only one of them.

use crate::model::{spec_sub_or_zero, sub_or_zero_u64, SystemInfo};
use crate::procfs::{spec_btime, spec_cpu_brand, spec_os_release, MemoryCounters};
use crate::text::{ascii_seq, chars_of, lossy_string};
use vstd::prelude::*;

verus! {

/// Relies on `num_cpus::get`: the number of logical cores the host
/// makes available, which its documentation promises is at least one.
#[verifier::external_body]
fn num_logical_cpus() -> (r: usize)
    ensures
        r >= 1,
{
    num_cpus::get()
}

/// The logical core count of this host, held to 32 bits.
pub fn logical_core_count() -> (r: u32)
    ensures
        r >= 1,
{
    let n = num_logical_cpus();
    if n > u32::MAX as usize {
        u32::MAX
    } else {
        n as u32
    }
}

/// Seconds the host has been up, given the current time and the boot
/// time, clamped at zero.
pub fn uptime_from_boot(now: u64, boot_time: u64) -> (r: u64)
    ensures
        r == spec_sub_or_zero(now as int, boot_time as int),
{
    sub_or_zero_u64(now, boot_time)
}

/// The absolute boot time, given the current time and the uptime,
/// clamped at zero: how boot time is derived where the host exposes
/// only a running tick count.
pub fn boot_from_uptime(now: u64, uptime: u64) -> (r: u64)
    ensures
        r == spec_sub_or_zero(now as int, uptime as int),
{
    sub_or_zero_u64(now, uptime)
}

/// Composes the host identity from the raw sources one scan gathered.
///
/// Pass-through fields (OS name, kernel version, hostname, core count)
/// are stored as given. Each file-derived field falls back to its
/// sentinel when the file could not be read: the OS version to
/// "Unknown", the CPU brand to "Unknown CPU", total memory and boot
/// time to zero. Uptime is the time since boot, clamped at zero.
pub fn identity_from_raw(
    os_name: String,
    kernel_version: String,
    hostname: String,
    cpu_cores: u32,
    os_release: Option<Vec<u8>>,
    cpuinfo: Option<Vec<u8>>,
    meminfo: Option<Vec<u8>>,
    stat: Option<Vec<u8>>,
    now: u64,
) -> (r: SystemInfo)
    ensures
        r.os_name@ == os_name@,
        r.kernel_version@ == kernel_version@,
        r.hostname@ == hostname@,
        r.cpu_cores == cpu_cores,
        match os_release {
            Option::Some(t) => ascii_seq(spec_os_release(t@)) ==> r.os_version@ == chars_of(
                spec_os_release(t@),
            ),
            Option::None => r.os_version@ == "Unknown"@,
        },
        match cpuinfo {
            Option::Some(t) => ascii_seq(spec_cpu_brand(t@)) ==> r.cpu_brand@ == chars_of(
                spec_cpu_brand(t@),
            ),
            Option::None => r.cpu_brand@ == "Unknown CPU"@,
        },
        r.total_memory == match meminfo {
            Option::Some(t) => MemoryCounters::spec_of(t@).mem_total,
            Option::None => 0u64,
        },
        r.boot_time == match stat {
            Option::Some(t) => spec_btime(t@) as u64,
            Option::None => 0u64,
        },
        r.uptime == spec_sub_or_zero(now as int, r.boot_time as int),
{
    let os_version: String = match &os_release {
        Option::Some(t) => {
            let bytes = crate::procfs::parse_os_release(t.as_slice());
            lossy_string(bytes.as_slice())
        },
        Option::None => "Unknown".to_owned(),
    };
    let cpu_brand: String = match &cpuinfo {
        Option::Some(t) => {
            let bytes = crate::procfs::parse_cpu_brand(t.as_slice());
            lossy_string(bytes.as_slice())
        },
        Option::None => "Unknown CPU".to_owned(),
    };
    let total_memory: u64 = match &meminfo {
        Option::Some(t) => crate::procfs::parse_meminfo(t.as_slice()).mem_total,
        Option::None => 0,
    };
    let boot_time: u64 = match &stat {
        Option::Some(t) => crate::procfs::parse_btime(t.as_slice()),
        Option::None => 0,
    };
    let uptime = uptime_from_boot(now, boot_time);
    SystemInfo {
        os_name,
        os_version,
        kernel_version,
        hostname,
        cpu_brand,
        cpu_cores,
        total_memory,
        boot_time,
        uptime,
    }
}

} // verus!
