use telemetry::counters::{
    boot_seconds_from_bytes, drive_indices, drive_name, filetime_to_u64, host_core_times,
    loadavg_percent, perf_core_times, process_cpu_percent, registry_text, swap_usage_from_bytes,
    u32_from_le, u64_from_le,
};
use telemetry::percent::ratio_percent;

#[test]
fn filetime_halves_reassemble() {
    assert_eq!(filetime_to_u64(0, 0), 0);
    assert_eq!(filetime_to_u64(0, 0xdead_beef), 0xdead_beef);
    assert_eq!(filetime_to_u64(1, 0), 0x1_0000_0000);
    assert_eq!(filetime_to_u64(0xffff_ffff, 0xffff_ffff), u64::MAX);
}

#[test]
fn ratio_percent_is_exact_and_clamped() {
    assert_eq!(ratio_percent(0, 100), 0);
    assert_eq!(ratio_percent(50, 100), 5000);
    assert_eq!(ratio_percent(100, 100), 10000);
    assert_eq!(ratio_percent(1, 3), 3333);
    // A numerator beyond the denominator clamps at full scale.
    assert_eq!(ratio_percent(200, 100), 10000);
    // No rate exists against a zero denominator.
    assert_eq!(ratio_percent(50, 0), 0);
}

#[test]
fn process_percentage_stays_within_scale() {
    assert_eq!(process_cpu_percent(25, 25, 100), 5000);
    assert_eq!(process_cpu_percent(0, 0, 100), 0);
    assert_eq!(process_cpu_percent(u64::MAX, u64::MAX, 10), 10000);
    assert_eq!(process_cpu_percent(5, 5, 0), 0);
}

#[test]
fn performance_record_becomes_counter_pair() {
    // Kernel time includes idle: 300 kernel beyond 100 idle, plus 200
    // user, is 400 busy over 500 total.
    let c = perf_core_times(100, 400, 200);
    assert_eq!(c.busy, 500);
    assert_eq!(c.total, 600);
    // Negative readings count as zero.
    let c2 = perf_core_times(-5, -5, 10);
    assert_eq!(c2.busy, 10);
    assert_eq!(c2.total, 10);
}

#[test]
fn host_processor_record_becomes_counter_pair() {
    let c = host_core_times(10, 20, 70, 5);
    assert_eq!(c.busy, 35);
    assert_eq!(c.total, 105);
}

#[test]
fn little_endian_fields_decode() {
    let b = [0x78, 0x56, 0x34, 0x12, 0, 0, 0, 0x80, 1, 2];
    assert_eq!(u32_from_le(&b, 0), 0x1234_5678);
    assert_eq!(u64_from_le(&b, 0), 0x8000_0000_1234_5678);
    assert_eq!(u32_from_le(&b, 4), 0x8000_0000);
}

#[test]
fn fixed_point_load_average_scales_to_percent() {
    // 0.5 in sixteen-bit fixed point is half scale.
    let half = 0x8000u32.to_le_bytes();
    assert_eq!(loadavg_percent(&half), 5000);
    // A load of 2.0 clamps at one hundred percent.
    let two = 0x2_0000u32.to_le_bytes();
    assert_eq!(loadavg_percent(&two), 10000);
    assert_eq!(loadavg_percent(&[1]), 0);
}

#[test]
fn swap_usage_structure_decodes_and_derives_free() {
    let mut b = Vec::new();
    b.extend_from_slice(&4000u64.to_le_bytes());
    b.extend_from_slice(&1500u64.to_le_bytes());
    b.extend_from_slice(&1000u64.to_le_bytes());
    let (total, used, free) = swap_usage_from_bytes(&b);
    assert_eq!(total, 4000);
    assert_eq!(used, 1000);
    assert_eq!(free, 3000);
    // When the used field exceeds the total, the available field
    // stands in for free space.
    let mut b2 = Vec::new();
    b2.extend_from_slice(&1000u64.to_le_bytes());
    b2.extend_from_slice(&700u64.to_le_bytes());
    b2.extend_from_slice(&2000u64.to_le_bytes());
    let (_, _, free2) = swap_usage_from_bytes(&b2);
    assert_eq!(free2, 700);
    assert_eq!(swap_usage_from_bytes(&[0; 10]), (0, 0, 0));
}

#[test]
fn boot_record_reads_its_first_field() {
    let b = 1700000000u64.to_le_bytes();
    assert_eq!(boot_seconds_from_bytes(&b), 1700000000);
    assert_eq!(boot_seconds_from_bytes(&[1, 2]), 0);
}

#[test]
fn drive_bitmask_lists_set_letters_in_order() {
    // Bits for A, C and Z.
    let mask = 1 | (1 << 2) | (1 << 25);
    assert_eq!(drive_indices(mask), vec![0, 2, 25]);
    assert_eq!(drive_indices(0), Vec::<u8>::new());
    // Bits beyond the drive range are ignored.
    assert_eq!(drive_indices(1 << 26), Vec::<u8>::new());
}

#[test]
fn registry_value_decodes_and_trims() {
    // "CPU X " in little-endian wide characters, with a terminator and
    // trailing blank the registry is known to leave in.
    let raw: Vec<u8> = "CPU X \0"
        .encode_utf16()
        .flat_map(|u| u.to_le_bytes())
        .collect();
    assert_eq!(registry_text(&raw), "CPU X");
    assert_eq!(registry_text(&[]), "");
    // A trailing odd byte is dropped.
    let odd = [b'A', 0, b'B'];
    assert_eq!(registry_text(&odd), "A");
}

#[test]
fn drive_names_spell_letter_colon_and_path() {
    let (name, mount) = drive_name(2);
    assert_eq!(name, "C:");
    assert_eq!(mount, "C:\\");
}
