use telemetry::identity::{boot_from_uptime, identity_from_raw, uptime_from_boot};
use telemetry::fallback::{
    list_processes_unsupported, read_identity_unsupported, sample_resources_unsupported,
    terminate_unsupported,
};

#[test]
fn identity_composes_all_raw_sources() {
    let os_release = b"NAME=\"Debian GNU/Linux\"\nVERSION=\"12\"\n".to_vec();
    let cpuinfo = b"model name\t: TestCPU 3000\n".to_vec();
    let meminfo = b"MemTotal: 1024 kB\n".to_vec();
    let stat = b"cpu 1 2 3 4 5 6 7\nbtime 1700000000\n".to_vec();
    let id = identity_from_raw(
        "Linux".to_string(),
        "6.1.0".to_string(),
        "host1".to_string(),
        8,
        Some(os_release),
        Some(cpuinfo),
        Some(meminfo),
        Some(stat),
        1700000500,
    );
    assert_eq!(id.os_name, "Linux");
    assert_eq!(id.os_version, "Debian GNU/Linux 12");
    assert_eq!(id.kernel_version, "6.1.0");
    assert_eq!(id.hostname, "host1");
    assert_eq!(id.cpu_brand, "TestCPU 3000");
    assert_eq!(id.cpu_cores, 8);
    assert_eq!(id.total_memory, 1024 * 1024);
    assert_eq!(id.boot_time, 1700000000);
    assert_eq!(id.uptime, 500);
}

#[test]
fn each_identity_field_defaults_independently() {
    let id = identity_from_raw(
        "Linux".to_string(),
        "Unknown".to_string(),
        "Unknown".to_string(),
        0,
        None,
        None,
        None,
        None,
        1700000500,
    );
    assert_eq!(id.os_version, "Unknown");
    assert_eq!(id.cpu_brand, "Unknown CPU");
    assert_eq!(id.total_memory, 0);
    assert_eq!(id.boot_time, 0);
    assert_eq!(id.uptime, 1700000500);
}

#[test]
fn uptime_and_boot_derivations_clamp_at_zero() {
    assert_eq!(uptime_from_boot(1000, 400), 600);
    assert_eq!(uptime_from_boot(400, 1000), 0);
    assert_eq!(boot_from_uptime(1000, 86400), 0);
    assert_eq!(boot_from_uptime(100000, 400), 99600);
}

#[test]
fn unsupported_backend_returns_empty_results_and_never_fails() {
    assert!(list_processes_unsupported().is_empty());
    let r = sample_resources_unsupported();
    assert_eq!(r.cpu_usage, 0);
    assert!(r.cpu_per_core.is_empty());
    assert_eq!(r.memory_total, 0);
    assert!(r.disk_usage.is_empty());
    assert_eq!(r.network_usage.bytes_sent, 0);
    let id = read_identity_unsupported();
    assert_eq!(id.os_name, "Unknown");
    assert_eq!(id.cpu_cores, 0);
}

#[test]
fn this_host_reports_at_least_one_core() {
    assert!(telemetry::identity::logical_core_count() >= 1);
}

#[test]
fn terminating_a_nonexistent_process_reports_false_and_raises_nothing() {
    // The unsupported backend can terminate nothing: any identifier,
    // existing or not, reports plain failure.
    assert!(!terminate_unsupported(999_999_999));
    assert!(!terminate_unsupported(0));
}
