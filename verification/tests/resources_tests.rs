use telemetry::model::NetworkInfo;
use telemetry::procfs::{parse_meminfo, MemoryCounters};
use telemetry::resources::{
    build_resources, sum_interfaces, swap_from_commit_info, swap_from_memory_status,
    volume_from_fs_stats, IfCounters,
};

#[test]
fn memory_used_plus_available_equals_total() {
    let mem = MemoryCounters {
        mem_total: 16_000_000,
        mem_available: 6_000_000,
        swap_total: 4_000_000,
        swap_free: 1_000_000,
    };
    let r = build_resources(0, Vec::new(), mem, Vec::new(), zero_net());
    assert_eq!(r.memory_used + r.memory_available, r.memory_total);
    assert_eq!(r.memory_used, 10_000_000);
    assert_eq!(r.swap_used, 3_000_000);
    assert_eq!(r.swap_used + r.swap_free, r.swap_total);
}

#[test]
fn inconsistent_counters_clamp_used_to_zero() {
    let mem = MemoryCounters {
        mem_total: 100,
        mem_available: 200,
        swap_total: 0,
        swap_free: 5,
    };
    let r = build_resources(0, Vec::new(), mem, Vec::new(), zero_net());
    assert_eq!(r.memory_used, 0);
    assert_eq!(r.swap_used, 0);
}

#[test]
fn no_enumerable_volumes_yield_an_empty_collection() {
    let mem = parse_meminfo(b"MemTotal: 4 kB\nMemAvailable: 2 kB\n");
    let r = build_resources(1234, vec![1000, 2000], mem, Vec::new(), zero_net());
    assert!(r.disk_usage.is_empty());
    assert_eq!(r.cpu_usage, 1234);
    assert_eq!(r.cpu_per_core, vec![1000, 2000]);
}

#[test]
fn volume_statistics_scale_blocks_by_fragment_size() {
    let d = volume_from_fs_stats("/".to_string(), "/".to_string(), 1000, 250, 4096);
    assert_eq!(d.name, "/");
    assert_eq!(d.mount_point, "/");
    assert_eq!(d.total_space, 4_096_000);
    assert_eq!(d.available_space, 1_024_000);
    assert_eq!(d.used_space, 3_072_000);
}

#[test]
fn volume_arithmetic_saturates_instead_of_wrapping() {
    let d = volume_from_fs_stats("x".to_string(), "x".to_string(), u64::MAX, 1, u64::MAX);
    assert_eq!(d.total_space, u64::MAX);
    assert_eq!(d.available_space, u64::MAX);
    assert_eq!(d.used_space, 0);
}

#[test]
fn interface_totals_count_only_interfaces_that_are_up() {
    let entries = vec![
        IfCounters { up: true, bytes_sent: 10, bytes_received: 20, packets_sent: 1, packets_received: 2 },
        IfCounters { up: false, bytes_sent: 1000, bytes_received: 1000, packets_sent: 100, packets_received: 100 },
        IfCounters { up: true, bytes_sent: 5, bytes_received: 6, packets_sent: 7, packets_received: 8 },
    ];
    let n = sum_interfaces(&entries);
    assert_eq!(n.bytes_sent, 15);
    assert_eq!(n.bytes_received, 26);
    assert_eq!(n.packets_sent, 8);
    assert_eq!(n.packets_received, 10);
}

#[test]
fn commit_accounting_swap_excludes_physical_memory() {
    // 4096-byte pages: a limit of 1000 pages over 600 physical leaves a
    // 400-page file, of which 100 committed pages spill past physical.
    let (total, used, free) = swap_from_commit_info(4096, 1000, 700, 600);
    assert_eq!(total, 400 * 4096);
    assert_eq!(used, 100 * 4096);
    assert_eq!(free, 300 * 4096);
}

#[test]
fn memory_status_swap_fallback_subtracts_physical() {
    let (total, used, free) = swap_from_memory_status(3000, 1800, 2000);
    assert_eq!(total, 1000);
    // 1200 committed, of which 2000 fit in physical: nothing spills...
    assert_eq!(used, 0);
    assert_eq!(free, 1000);
    let (_, used2, _) = swap_from_memory_status(3000, 500, 2000);
    assert_eq!(used2, 500);
}

fn zero_net() -> NetworkInfo {
    NetworkInfo { bytes_sent: 0, bytes_received: 0, packets_sent: 0, packets_received: 0 }
}
