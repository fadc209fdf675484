//! The CPU delta sampling cache: the one shared piece of mutable state.
//!
//! No target host exposes an instantaneous CPU percentage, so utilization
//! is derived from two time-separated reads of cumulative busy/total
//! counters per logical core. The cache throttles recomputation, keeps the
//! last raw counter vector as the baseline, and clamps counter rollbacks
//! to zero instead of propagating negative or inflated rates.

use crate::model::{percent_wf, percents_wf, CoreTimes};
use crate::percent::{
    lemma_ratio_percent_bounds, ratio_percent, ratio_percent_u128, spec_ratio_percent,
};
use vstd::prelude::*;

verus! {

/// Minimum elapsed milliseconds before a fresh sample replaces the cached
/// one; below this the cached percentages are returned unchanged.
pub const THROTTLE_MS: u64 = 400;

/// The sampler considers at most this many logical cores per sample; a
/// vector beyond it is truncated. Far above any desktop-class host, and it
/// keeps the summed counter deltas well within 128-bit arithmetic.
pub const MAX_CORES: usize = 4096;

/// Persistent sampler state: the timestamp and raw counter vector of the
/// last successful sample, and the percentages computed from it.
pub struct CpuSampler {
    pub has_sample: bool,
    pub last_ms: u64,
    pub last_raw: Vec<CoreTimes>,
    pub last_total_pct: u32,
    pub last_per_core_pct: Vec<u32>,
}

/// A sampling request at `now_ms` is served from the cache when a prior
/// sample exists and less than the throttle interval has elapsed.
pub open spec fn spec_throttled(s: CpuSampler, now_ms: u64) -> bool {
    s.has_sample && now_ms - s.last_ms < THROTTLE_MS
}

/// A core contributes a rate only when neither counter rolled back and
/// some total time was accounted for the interval.
pub open spec fn spec_core_included(prev: CoreTimes, cur: CoreTimes) -> bool {
    cur.busy >= prev.busy && cur.total > prev.total
}

/// The percentage reported for one core over one interval: the clamped
/// busy/total delta ratio, or zero on a rollback or an empty interval.
pub open spec fn spec_core_percent(prev: CoreTimes, cur: CoreTimes) -> int {
    if spec_core_included(prev, cur) {
        spec_ratio_percent(cur.busy - prev.busy, cur.total - prev.total)
    } else {
        0
    }
}

/// How many cores of the two vectors are compared: the overlapping
/// prefix, truncated to `MAX_CORES`.
pub open spec fn spec_overlap(prev: Seq<CoreTimes>, cur: Seq<CoreTimes>) -> int {
    let n = if prev.len() <= cur.len() {
        prev.len() as int
    } else {
        cur.len() as int
    };
    if n <= MAX_CORES as int {
        n
    } else {
        MAX_CORES as int
    }
}

/// Sum of the busy deltas of the first `n` included cores.
pub open spec fn spec_sum_busy(prev: Seq<CoreTimes>, cur: Seq<CoreTimes>, n: int) -> int
    decreases n,
{
    if n <= 0 {
        0
    } else {
        spec_sum_busy(prev, cur, n - 1) + if spec_core_included(prev[n - 1], cur[n - 1]) {
            cur[n - 1].busy - prev[n - 1].busy
        } else {
            0
        }
    }
}

/// Sum of the total deltas of the first `n` included cores.
pub open spec fn spec_sum_total(prev: Seq<CoreTimes>, cur: Seq<CoreTimes>, n: int) -> int
    decreases n,
{
    if n <= 0 {
        0
    } else {
        spec_sum_total(prev, cur, n - 1) + if spec_core_included(prev[n - 1], cur[n - 1]) {
            cur[n - 1].total - prev[n - 1].total
        } else {
            0
        }
    }
}

/// The aggregate percentage over the first `n` cores.
pub open spec fn spec_aggregate_percent(prev: Seq<CoreTimes>, cur: Seq<CoreTimes>, n: int) -> int {
    spec_ratio_percent(spec_sum_busy(prev, cur, n), spec_sum_total(prev, cur, n))
}

/// The view of an optional raw counter fetch: `None` models a fetch the
/// OS refused.
pub open spec fn spec_raw_view(raw: Option<Vec<CoreTimes>>) -> Option<Seq<CoreTimes>> {
    match raw {
        Option::Some(v) => Option::Some(v@),
        Option::None => Option::None,
    }
}

/// The sampling transition: how one request relates the state before,
/// the state after, and the returned aggregate/per-core percentages.
///
/// - Throttled: state and outputs are the cached ones, unchanged.
/// - Fetch failure: state unchanged, zero aggregate, no per-core values.
/// - First sample: the fresh vector becomes the baseline; a rate cannot
///   exist from one point, so zero aggregate and no per-core values.
/// - Otherwise: per-core and aggregate delta percentages over the
///   overlapping prefix, and the fresh vector replaces the baseline.
pub open spec fn sample_rel(
    pre: CpuSampler,
    now_ms: u64,
    raw: Option<Seq<CoreTimes>>,
    post: CpuSampler,
    agg: u32,
    per: Seq<u32>,
) -> bool {
    if spec_throttled(pre, now_ms) {
        &&& post == pre
        &&& agg == pre.last_total_pct
        &&& per == pre.last_per_core_pct@
    } else {
        match raw {
            Option::None => {
                &&& post == pre
                &&& agg == 0
                &&& per.len() == 0
            },
            Option::Some(fresh) => {
                &&& post.has_sample
                &&& post.last_ms == now_ms
                &&& post.last_raw@ == fresh
                &&& post.last_total_pct == agg
                &&& post.last_per_core_pct@ == per
                &&& if !pre.has_sample {
                    agg == 0 && per.len() == 0
                } else {
                    let n = spec_overlap(pre.last_raw@, fresh);
                    &&& per.len() == n
                    &&& (forall|i: int|
                        0 <= i < n ==> per[i] == spec_core_percent(
                            pre.last_raw@[i],
                            #[trigger] fresh[i],
                        ))
                    &&& agg == spec_aggregate_percent(pre.last_raw@, fresh, n)
                }
            },
        }
    }
}

impl CpuSampler {
    /// The cached percentages lie within scale.
    pub open spec fn wf(&self) -> bool {
        percent_wf(self.last_total_pct) && percents_wf(self.last_per_core_pct@)
    }

    /// A fresh sampler with no prior sample.
    pub fn new() -> (s: CpuSampler)
        ensures
            !s.has_sample,
            s.wf(),
    {
        CpuSampler {
            has_sample: false,
            last_ms: 0,
            last_raw: Vec::new(),
            last_total_pct: 0,
            last_per_core_pct: Vec::new(),
        }
    }

    /// Whether a request now would refetch the raw counters rather than be
    /// served from the cache; lets a caller skip the OS read entirely.
    pub fn needs_refresh(&self, now_ms: u64) -> (r: bool)
        ensures
            r == !spec_throttled(*self, now_ms),
    {
        !(self.has_sample && now_ms.saturating_sub(self.last_ms) < THROTTLE_MS)
    }

    /// One sampling request at `now_ms`; `raw` is the freshly fetched
    /// per-core counter vector, or `None` when the OS read failed.
    /// Returns the aggregate and per-core percentages, both within scale.
    pub fn sample(&mut self, now_ms: u64, raw: Option<Vec<CoreTimes>>) -> (r: (u32, Vec<u32>))
        requires
            old(self).wf(),
        ensures
            final(self).wf(),
            percent_wf(r.0),
            percents_wf(r.1@),
            sample_rel(*old(self), now_ms, spec_raw_view(raw), *final(self), r.0, r.1@),
    {
        if self.has_sample && now_ms.saturating_sub(self.last_ms) < THROTTLE_MS {
            let mut cached: Vec<u32> = Vec::new();
            let mut i: usize = 0;
            let m: usize = self.last_per_core_pct.len();
            while i < m
                invariant
                    i <= m,
                    m == self.last_per_core_pct.len(),
                    cached@ == self.last_per_core_pct@.take(i as int),
                    self.wf(),
                decreases m - i,
            {
                cached.push(self.last_per_core_pct[i]);
                i += 1;
            }
            proof {
                assert(cached@ =~= self.last_per_core_pct@);
            }
            return (self.last_total_pct, cached);
        }
        let fresh = match raw {
            Option::Some(v) => v,
            Option::None => {
                return (0, Vec::new());
            },
        };
        if !self.has_sample {
            self.has_sample = true;
            self.last_ms = now_ms;
            self.last_raw = fresh;
            self.last_total_pct = 0;
            self.last_per_core_pct = Vec::new();
            return (0, Vec::new());
        }
        let mut n: usize = if self.last_raw.len() <= fresh.len() {
            self.last_raw.len()
        } else {
            fresh.len()
        };
        if n > MAX_CORES {
            n = MAX_CORES;
        }
        let ghost prev_seq = self.last_raw@;
        let ghost cur_seq = fresh@;
        let mut per: Vec<u32> = Vec::new();
        let mut stored: Vec<u32> = Vec::new();
        let mut busy_sum: u128 = 0;
        let mut total_sum: u128 = 0;
        let mut i: usize = 0;
        while i < n
            invariant
                i <= n,
                n == spec_overlap(prev_seq, cur_seq),
                n <= MAX_CORES,
                prev_seq == self.last_raw@,
                cur_seq == fresh@,
                n <= prev_seq.len(),
                n <= cur_seq.len(),
                per@.len() == i,
                stored@ == per@,
                forall|j: int|
                    0 <= j < i ==> per@[j] == spec_core_percent(prev_seq[j], #[trigger] cur_seq[j]),
                percents_wf(per@),
                busy_sum == spec_sum_busy(prev_seq, cur_seq, i as int),
                total_sum == spec_sum_total(prev_seq, cur_seq, i as int),
                busy_sum <= i * (u64::MAX as u128),
                total_sum <= i * (u64::MAX as u128),
            decreases n - i,
        {
            let prev = self.last_raw[i];
            let cur = fresh[i];
            if cur.busy >= prev.busy && cur.total > prev.total {
                let bd: u64 = cur.busy - prev.busy;
                let td: u64 = cur.total - prev.total;
                let pct = ratio_percent(bd, td);
                per.push(pct);
                stored.push(pct);
                busy_sum = busy_sum + bd as u128;
                total_sum = total_sum + td as u128;
            } else {
                per.push(0);
                stored.push(0);
            }
            i += 1;
        }
        let agg = ratio_percent_u128(busy_sum, total_sum);
        self.has_sample = true;
        self.last_ms = now_ms;
        self.last_raw = fresh;
        self.last_total_pct = agg;
        self.last_per_core_pct = stored;
        (agg, per)
    }
}

/// A counter rollback on a core yields exactly zero for that interval,
/// never a negative or inflated value.
pub proof fn lemma_rollback_core_is_zero(prev: CoreTimes, cur: CoreTimes)
    requires
        cur.busy < prev.busy || cur.total <= prev.total,
    ensures
        spec_core_percent(prev, cur) == 0,
{
}

/// Every per-core percentage the transition can produce lies in
/// `[0, PERCENT_SCALE]`.
pub proof fn lemma_core_percent_in_range(prev: CoreTimes, cur: CoreTimes)
    ensures
        0 <= spec_core_percent(prev, cur) <= crate::PERCENT_SCALE,
{
    if spec_core_included(prev, cur) {
        lemma_ratio_percent_bounds(cur.busy - prev.busy, cur.total - prev.total);
    }
}

/// Every aggregate percentage the transition can produce lies in
/// `[0, PERCENT_SCALE]`.
pub proof fn lemma_aggregate_percent_in_range(prevs: Seq<CoreTimes>, curs: Seq<CoreTimes>, n: int)
    ensures
        0 <= spec_aggregate_percent(prevs, curs, n) <= crate::PERCENT_SCALE,
{
    lemma_ratio_percent_bounds(spec_sum_busy(prevs, curs, n), spec_sum_total(prevs, curs, n));
}

/// Two sampling requests within one throttle interval return identical
/// CPU fields: when the second request is still throttled with respect to
/// the state the first left behind, and the first was not a failed fetch,
/// the second returns exactly what the first returned.
pub proof fn lemma_second_sample_identical(
    s0: CpuSampler,
    t1: u64,
    raw1: Option<Seq<CoreTimes>>,
    s1: CpuSampler,
    a1: u32,
    p1: Seq<u32>,
    t2: u64,
    raw2: Option<Seq<CoreTimes>>,
    s2: CpuSampler,
    a2: u32,
    p2: Seq<u32>,
)
    requires
        sample_rel(s0, t1, raw1, s1, a1, p1),
        sample_rel(s1, t2, raw2, s2, a2, p2),
        spec_throttled(s1, t2),
        spec_throttled(s0, t1) || raw1 is Some,
    ensures
        a2 == a1,
        p2 == p1,
{
}

} // verus!
