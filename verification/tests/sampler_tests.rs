use telemetry::model::CoreTimes;
use telemetry::sampler::CpuSampler;

fn ct(busy: u64, total: u64) -> CoreTimes {
    CoreTimes { busy, total }
}

#[test]
fn first_sample_reports_zero() {
    let mut s = CpuSampler::new();
    let (agg, per) = s.sample(0, Some(vec![ct(100, 200)]));
    assert_eq!(agg, 0);
    assert!(per.is_empty());
}

#[test]
fn second_sample_computes_delta_percentages() {
    let mut s = CpuSampler::new();
    let (agg0, per0) = s.sample(0, Some(vec![ct(100, 200)]));
    assert_eq!(agg0, 0);
    assert!(per0.is_empty());
    // 400 ms later the counters advanced by 50 busy over 100 total:
    // half the interval was busy, so both readings are fifty percent.
    let (agg, per) = s.sample(500, Some(vec![ct(150, 300)]));
    assert_eq!(agg, 5000);
    assert_eq!(per, vec![5000]);
}

#[test]
fn throttled_sample_returns_identical_cpu_fields() {
    let mut s = CpuSampler::new();
    s.sample(0, Some(vec![ct(0, 0)]));
    let (agg1, per1) = s.sample(500, Some(vec![ct(75, 100)]));
    // Within the throttle interval the cached values come back unchanged,
    // whatever fresh counters the OS would report.
    let (agg2, per2) = s.sample(700, Some(vec![ct(999, 1000)]));
    assert_eq!(agg1, agg2);
    assert_eq!(per1, per2);
    let (agg3, per3) = s.sample(899, None);
    assert_eq!(agg1, agg3);
    assert_eq!(per1, per3);
}

#[test]
fn counter_rollback_yields_zero_for_affected_core() {
    let mut s = CpuSampler::new();
    s.sample(0, Some(vec![ct(1000, 2000), ct(500, 800)]));
    // The first core's counters rolled back; the second advanced.
    let (agg, per) = s.sample(500, Some(vec![ct(900, 1900), ct(600, 1000)]));
    assert_eq!(per.len(), 2);
    assert_eq!(per[0], 0);
    assert_eq!(per[1], 5000);
    // Only the advancing core feeds the aggregate.
    assert_eq!(agg, 5000);
}

#[test]
fn all_percentages_stay_within_scale() {
    let mut s = CpuSampler::new();
    s.sample(0, Some(vec![ct(0, 100), ct(0, 100)]));
    // Busy delta exceeding the total delta is clamped to full scale.
    let (agg, per) = s.sample(500, Some(vec![ct(500, 200), ct(50, 200)]));
    assert!(agg <= 10000);
    for p in per {
        assert!(p <= 10000);
    }
}

#[test]
fn failed_fetch_reports_zero_and_keeps_cache() {
    let mut s = CpuSampler::new();
    s.sample(0, Some(vec![ct(100, 200)]));
    let (agg, per) = s.sample(500, None);
    assert_eq!(agg, 0);
    assert!(per.is_empty());
    // The baseline survived the failed fetch: the next sample still
    // differences against the first one.
    let (agg2, per2) = s.sample(1000, Some(vec![ct(200, 400)]));
    assert_eq!(agg2, 5000);
    assert_eq!(per2, vec![5000]);
}

#[test]
fn core_count_change_uses_overlapping_prefix() {
    let mut s = CpuSampler::new();
    s.sample(0, Some(vec![ct(100, 200), ct(100, 200)]));
    // One core disappeared; only the overlap is compared.
    let (agg, per) = s.sample(500, Some(vec![ct(200, 600)]));
    assert_eq!(per.len(), 1);
    assert_eq!(per[0], 2500);
    assert_eq!(agg, 2500);
}

#[test]
fn needs_refresh_follows_throttle_interval() {
    let mut s = CpuSampler::new();
    assert!(s.needs_refresh(0));
    s.sample(1000, Some(vec![ct(1, 2)]));
    assert!(!s.needs_refresh(1000));
    assert!(!s.needs_refresh(1399));
    assert!(s.needs_refresh(1400));
}

#[test]
fn zero_total_delta_reports_zero() {
    let mut s = CpuSampler::new();
    s.sample(0, Some(vec![ct(100, 200)]));
    let (agg, per) = s.sample(500, Some(vec![ct(100, 200)]));
    assert_eq!(agg, 0);
    assert_eq!(per, vec![0]);
}
