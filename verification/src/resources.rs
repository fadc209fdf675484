//! Assembling one resource snapshot: derived memory and swap usage,
//! volume statistics, interface counter totals, and the composition of
//! all parts into the canonical value object.

use crate::model::{
    percent_wf, percents_wf, sat_add_u64, sat_u64, spec_sub_or_zero, sub_or_zero_u64, DiskInfo,
    NetworkInfo, SystemResourceInfo,
};
use crate::procfs::MemoryCounters;
use vstd::prelude::*;

verus! {

/// Memory accounting balances: whenever the available counter does not
/// exceed the total, the derived used value and the available counter
/// sum exactly to the total.
pub proof fn lemma_memory_accounting(total: u64, available: u64)
    requires
        available <= total,
    ensures
        spec_sub_or_zero(total as int, available as int) + available == total,
{
}

/// Capacity and usage of one volume from filesystem-level statistics:
/// block counts scaled by the fragment size, used space by subtraction,
/// every step saturated rather than wrapped.
pub fn volume_from_fs_stats(
    name: String,
    mount_point: String,
    blocks: u64,
    blocks_available: u64,
    fragment_size: u64,
) -> (r: DiskInfo)
    ensures
        r.name@ == name@,
        r.mount_point@ == mount_point@,
        r.total_space == sat_u64(blocks * fragment_size),
        r.available_space == sat_u64(blocks_available * fragment_size),
        r.used_space == spec_sub_or_zero(r.total_space as int, r.available_space as int),
{
    let total_space = match blocks.checked_mul(fragment_size) {
        Option::Some(v) => v,
        Option::None => u64::MAX,
    };
    let available_space = match blocks_available.checked_mul(fragment_size) {
        Option::Some(v) => v,
        Option::None => u64::MAX,
    };
    let used_space = sub_or_zero_u64(total_space, available_space);
    DiskInfo { name, mount_point, total_space, used_space, available_space }
}

/// Cumulative counters of one network interface, with whether the
/// interface is reported as up.
#[derive(Clone, Copy, Debug, PartialEq, Eq, Structural)]
pub struct IfCounters {
    pub up: bool,
    pub bytes_sent: u64,
    pub bytes_received: u64,
    pub packets_sent: u64,
    pub packets_received: u64,
}

/// The running totals over interface entries: an interface contributes
/// only while up, and every addition saturates at the 64-bit ceiling.
pub open spec fn spec_if_totals(entries: Seq<IfCounters>) -> (int, int, int, int)
    decreases entries.len(),
{
    if entries.len() == 0 {
        (0, 0, 0, 0)
    } else {
        let r = spec_if_totals(entries.drop_last());
        let e = entries.last();
        if e.up {
            (
                sat_u64(r.0 + e.bytes_sent),
                sat_u64(r.1 + e.bytes_received),
                sat_u64(r.2 + e.packets_sent),
                sat_u64(r.3 + e.packets_received),
            )
        } else {
            r
        }
    }
}

/// Sums byte and packet counters over the interfaces reported as up.
pub fn sum_interfaces(entries: &Vec<IfCounters>) -> (r: NetworkInfo)
    ensures
        r.bytes_sent == spec_if_totals(entries@).0,
        r.bytes_received == spec_if_totals(entries@).1,
        r.packets_sent == spec_if_totals(entries@).2,
        r.packets_received == spec_if_totals(entries@).3,
{
    let n = entries.len();
    let mut bytes_sent: u64 = 0;
    let mut bytes_received: u64 = 0;
    let mut packets_sent: u64 = 0;
    let mut packets_received: u64 = 0;
    let mut i: usize = 0;
    while i < n
        invariant
            i <= n == entries@.len(),
            bytes_sent == spec_if_totals(entries@.take(i as int)).0,
            bytes_received == spec_if_totals(entries@.take(i as int)).1,
            packets_sent == spec_if_totals(entries@.take(i as int)).2,
            packets_received == spec_if_totals(entries@.take(i as int)).3,
        decreases n - i,
    {
        proof {
            assert(entries@.take(i + 1).drop_last() =~= entries@.take(i as int));
            assert(entries@.take(i + 1).last() == entries@[i as int]);
        }
        let e = entries[i];
        if e.up {
            bytes_sent = sat_add_u64(bytes_sent, e.bytes_sent);
            bytes_received = sat_add_u64(bytes_received, e.bytes_received);
            packets_sent = sat_add_u64(packets_sent, e.packets_sent);
            packets_received = sat_add_u64(packets_received, e.packets_received);
        }
        i += 1;
    }
    proof {
        assert(entries@.take(n as int) =~= entries@);
    }
    NetworkInfo { bytes_sent, bytes_received, packets_sent, packets_received }
}

/// Swap sizes from commit accounting: the page file holds what the
/// commit limit and the committed total exceed physical memory by, in
/// pages of the given size.
pub fn swap_from_commit_info(
    page_size: u64,
    commit_limit_pages: u64,
    commit_total_pages: u64,
    physical_pages: u64,
) -> (r: (u64, u64, u64))
    ensures
        r.0 == sat_u64(spec_sub_or_zero(commit_limit_pages as int, physical_pages as int)
            * page_size),
        r.1 == sat_u64(spec_sub_or_zero(commit_total_pages as int, physical_pages as int)
            * page_size),
        r.2 == spec_sub_or_zero(r.0 as int, r.1 as int),
{
    let total_pages = sub_or_zero_u64(commit_limit_pages, physical_pages);
    let used_pages = sub_or_zero_u64(commit_total_pages, physical_pages);
    let swap_total = match total_pages.checked_mul(page_size) {
        Option::Some(v) => v,
        Option::None => u64::MAX,
    };
    let swap_used = match used_pages.checked_mul(page_size) {
        Option::Some(v) => v,
        Option::None => u64::MAX,
    };
    let swap_free = sub_or_zero_u64(swap_total, swap_used);
    (swap_total, swap_used, swap_free)
}

/// Swap sizes from a coarse memory status: page-file figures include
/// physical memory, so the physical total is subtracted back out.
pub fn swap_from_memory_status(
    total_page_file: u64,
    avail_page_file: u64,
    total_physical: u64,
) -> (r: (u64, u64, u64))
    ensures
        r.0 == spec_sub_or_zero(total_page_file as int, total_physical as int),
        r.1 == spec_sub_or_zero(
            spec_sub_or_zero(total_page_file as int, avail_page_file as int),
            total_physical as int,
        ),
        r.2 == spec_sub_or_zero(r.0 as int, r.1 as int),
{
    let swap_total = sub_or_zero_u64(total_page_file, total_physical);
    let committed = sub_or_zero_u64(total_page_file, avail_page_file);
    let swap_used = sub_or_zero_u64(committed, total_physical);
    let swap_free = sub_or_zero_u64(swap_total, swap_used);
    (swap_total, swap_used, swap_free)
}

/// Composes one resource snapshot: memory and swap usage are derived by
/// clamped subtraction, the volume collection is taken as given — empty
/// when no volume was enumerable — and the CPU fields are the sampler's.
pub fn build_resources(
    cpu_usage: u32,
    cpu_per_core: Vec<u32>,
    mem: MemoryCounters,
    disks: Vec<DiskInfo>,
    net: NetworkInfo,
) -> (r: SystemResourceInfo)
    requires
        percent_wf(cpu_usage),
        percents_wf(cpu_per_core@),
    ensures
        r.cpu_usage == cpu_usage,
        r.cpu_per_core@ == cpu_per_core@,
        r.memory_total == mem.mem_total,
        r.memory_available == mem.mem_available,
        r.memory_used == spec_sub_or_zero(mem.mem_total as int, mem.mem_available as int),
        r.swap_total == mem.swap_total,
        r.swap_free == mem.swap_free,
        r.swap_used == spec_sub_or_zero(mem.swap_total as int, mem.swap_free as int),
        r.disk_usage@ == disks@,
        r.network_usage == net,
        r.wf(),
{
    let memory_used = sub_or_zero_u64(mem.mem_total, mem.mem_available);
    let swap_used = sub_or_zero_u64(mem.swap_total, mem.swap_free);
    SystemResourceInfo {
        cpu_usage,
        cpu_per_core,
        memory_total: mem.mem_total,
        memory_used,
        memory_available: mem.mem_available,
        swap_total: mem.swap_total,
        swap_used,
        swap_free: mem.swap_free,
        disk_usage: disks,
        network_usage: net,
    }
}

} // verus!
