//! Turning a busy/total counter pair into a clamped percentage.
//!
//! All percentages the library reports come through `spec_ratio_percent`,
//! so the range bound on every returned percentage rests on this module.

use vstd::prelude::*;

verus! {

/// Numerators handed to `ratio_percent_u128` must stay below this bound so
/// that scaling by `PERCENT_SCALE` cannot overflow 128 bits.
pub const RATIO_NUM_LIMIT: u128 = 0x1_0000_0000_0000_0000_0000_0000_0000;

/// The percentage (in hundredths of a percent) that `num` is of `den`,
/// clamped into `[0, PERCENT_SCALE]`. A non-positive denominator or
/// numerator yields zero: a rate cannot be formed from it.
pub open spec fn spec_ratio_percent(num: int, den: int) -> int {
    if den <= 0 || num <= 0 {
        0
    } else if num * (crate::PERCENT_SCALE as int) / den > crate::PERCENT_SCALE as int {
        crate::PERCENT_SCALE as int
    } else {
        num * (crate::PERCENT_SCALE as int) / den
    }
}

/// Every ratio percentage lies within scale.
pub proof fn lemma_ratio_percent_bounds(num: int, den: int)
    ensures
        0 <= spec_ratio_percent(num, den) <= crate::PERCENT_SCALE,
{
    if den > 0 && num > 0 {
        assert(num * (crate::PERCENT_SCALE as int) >= 0);
        assert(num * (crate::PERCENT_SCALE as int) / den >= 0) by (nonlinear_arith)
            requires
                num * (crate::PERCENT_SCALE as int) >= 0,
                den > 0,
        ;
    }
}

/// Computes `spec_ratio_percent` on 128-bit counters.
pub fn ratio_percent_u128(num: u128, den: u128) -> (r: u32)
    requires
        num < RATIO_NUM_LIMIT,
    ensures
        r == spec_ratio_percent(num as int, den as int),
        r <= crate::PERCENT_SCALE,
{
    proof {
        lemma_ratio_percent_bounds(num as int, den as int);
    }
    if den == 0 || num == 0 {
        return 0;
    }
    let scaled: u128 = num * (crate::PERCENT_SCALE as u128);
    let q: u128 = scaled / den;
    if q > crate::PERCENT_SCALE as u128 {
        crate::PERCENT_SCALE
    } else {
        q as u32
    }
}

/// Computes `spec_ratio_percent` on 64-bit counters.
pub fn ratio_percent(num: u64, den: u64) -> (r: u32)
    ensures
        r == spec_ratio_percent(num as int, den as int),
        r <= crate::PERCENT_SCALE,
{
    ratio_percent_u128(num as u128, den as u128)
}

} // verus!
