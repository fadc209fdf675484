use telemetry::procfs::{
    parse_btime, parse_cpu_brand, parse_meminfo, parse_net_dev, parse_os_release,
    parse_stat_cores, parse_status,
};
use telemetry::text::{parse_u32_dec, parse_u64_dec};

#[test]
fn meminfo_counters_scale_kilobytes_to_bytes() {
    let text = "MemTotal:       16384 kB\n\
                MemFree:         1024 kB\n\
                MemAvailable:    8192 kB\n\
                SwapTotal:       4096 kB\n\
                SwapFree:        2048 kB\n";
    let m = parse_meminfo(text.as_bytes());
    assert_eq!(m.mem_total, 16384 * 1024);
    assert_eq!(m.mem_available, 8192 * 1024);
    assert_eq!(m.swap_total, 4096 * 1024);
    assert_eq!(m.swap_free, 2048 * 1024);
}

#[test]
fn meminfo_missing_key_reads_zero() {
    let text = "MemTotal: 100 kB\n";
    let m = parse_meminfo(text.as_bytes());
    assert_eq!(m.mem_total, 102400);
    assert_eq!(m.mem_available, 0);
    assert_eq!(m.swap_total, 0);
    assert_eq!(m.swap_free, 0);
}

#[test]
fn meminfo_unparsable_value_reads_zero() {
    let text = "MemTotal: lots kB\n";
    let m = parse_meminfo(text.as_bytes());
    assert_eq!(m.mem_total, 0);
}

#[test]
fn stat_cores_sum_the_time_columns() {
    let text = "cpu  10 20 30 40 50 60 70 0 0 0\n\
                cpu0 1 2 3 4 5 6 7 0 0 0\n\
                cpu1 10 0 0 100 0 0 0 0 0 0\n\
                intr 12345\n";
    let cores = parse_stat_cores(text.as_bytes());
    // The aggregate line is skipped; each core line yields
    // busy = user+nice+system+irq+softirq, total = busy+idle+iowait.
    assert_eq!(cores.len(), 2);
    assert_eq!(cores[0].busy, 1 + 2 + 3 + 6 + 7);
    assert_eq!(cores[0].total, 1 + 2 + 3 + 6 + 7 + 4 + 5);
    assert_eq!(cores[1].busy, 10);
    assert_eq!(cores[1].total, 110);
}

#[test]
fn stat_without_core_lines_yields_no_cores() {
    let text = "cpu  10 20 30 40 50 60 70\nintr 1\n";
    let cores = parse_stat_cores(text.as_bytes());
    assert!(cores.is_empty());
}

#[test]
fn btime_comes_from_its_line() {
    let text = "cpu  1 2 3 4 5 6 7\nbtime 1700000000\nprocesses 99\n";
    assert_eq!(parse_btime(text.as_bytes()), 1700000000);
    assert_eq!(parse_btime("cpu 1 2 3\n".as_bytes()), 0);
}

#[test]
fn net_dev_sums_interface_counters() {
    let text = "Inter-|   Receive                                                |  Transmit\n\
 face |bytes    packets errs drop fifo frame compressed multicast|bytes    packets errs drop fifo colls carrier compressed\n\
    lo:     100     10    0    0    0     0          0         0      200      20    0    0    0     0       0          0\n\
  eth0:    1000    100    0    0    0     0          0         0     3000     300    0    0    0     0       0          0\n";
    let n = parse_net_dev(text.as_bytes());
    assert_eq!(n.bytes_received, 1100);
    assert_eq!(n.packets_received, 110);
    assert_eq!(n.bytes_sent, 3200);
    assert_eq!(n.packets_sent, 320);
}

#[test]
fn net_dev_with_only_headers_is_zero() {
    let text = "header one\nheader two\n";
    let n = parse_net_dev(text.as_bytes());
    assert_eq!(n.bytes_received, 0);
    assert_eq!(n.bytes_sent, 0);
    assert_eq!(n.packets_received, 0);
    assert_eq!(n.packets_sent, 0);
}

#[test]
fn os_release_combines_name_and_version() {
    let text = "NAME=\"Debian GNU/Linux\"\nVERSION=\"12 (bookworm)\"\nID=debian\n";
    let v = parse_os_release(text.as_bytes());
    assert_eq!(v, "Debian GNU/Linux 12 (bookworm)".as_bytes());
}

#[test]
fn os_release_name_alone_stands() {
    let text = "NAME=Arch\n";
    assert_eq!(parse_os_release(text.as_bytes()), "Arch".as_bytes());
}

#[test]
fn os_release_without_name_is_unknown() {
    let text = "VERSION=\"12\"\nID=debian\n";
    assert_eq!(parse_os_release(text.as_bytes()), "Unknown".as_bytes());
    assert_eq!(parse_os_release(b""), "Unknown".as_bytes());
}

#[test]
fn cpu_brand_is_the_model_name_value() {
    let text = "processor\t: 0\nvendor_id\t: GenuineIntel\nmodel name\t: Intel(R) Core(TM) i7\nflags\t: fpu\n";
    assert_eq!(parse_cpu_brand(text.as_bytes()), "Intel(R) Core(TM) i7".as_bytes());
    assert_eq!(parse_cpu_brand(b"processor: 0\n"), "Unknown CPU".as_bytes());
}

#[test]
fn status_yields_parent_and_resident_memory() {
    let text = "Name:\tbash\nPPid:\t42\nVmRSS:\t   2048 kB\n";
    let (ppid, rss) = parse_status(text.as_bytes());
    assert_eq!(ppid, Some(42));
    assert_eq!(rss, 2048 * 1024);
}

#[test]
fn status_without_fields_defaults() {
    let (ppid, rss) = parse_status(b"Name:\tbash\n");
    assert_eq!(ppid, None);
    assert_eq!(rss, 0);
}

#[test]
fn decimal_parsers_reject_junk_and_overflow() {
    assert_eq!(parse_u64_dec(b"12345"), 12345);
    assert_eq!(parse_u64_dec(b""), 0);
    assert_eq!(parse_u64_dec(b"12a5"), 0);
    assert_eq!(parse_u64_dec(b"18446744073709551615"), u64::MAX);
    assert_eq!(parse_u64_dec(b"18446744073709551616"), 0);
    assert_eq!(parse_u32_dec(b"4294967295"), Some(u32::MAX));
    assert_eq!(parse_u32_dec(b"4294967296"), None);
    assert_eq!(parse_u32_dec(b"0"), Some(0));
    assert_eq!(parse_u32_dec(b"x"), None);
}
