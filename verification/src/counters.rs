//! Decoding the raw counter shapes the backends hand in: split file
//! times, processor performance records, host processor load records,
//! fixed-point load averages, little-endian counter fields of packed OS
//! structures, and the drive bitmask.
//!
//! Each decoder turns one OS-specific shape into canonical plain values;
//! nothing outside these functions interprets raw layouts.

use crate::model::{sat_u64, spec_sub_or_zero, sub_or_zero_u64, CoreTimes};
use crate::percent::{ratio_percent, ratio_percent_u128, spec_ratio_percent};
use crate::text::{ascii_seq, chars_of, lossy_string};
use vstd::prelude::*;

verus! {

/// One split file time reassembled: the high half weighs two to the
/// thirty-second.
pub fn filetime_to_u64(high: u32, low: u32) -> (r: u64)
    ensures
        r == high * 0x1_0000_0000 + low,
{
    (high as u64) * 0x1_0000_0000u64 + (low as u64)
}

/// The best-effort CPU percentage of one process: its cumulative kernel
/// plus user time against the system's cumulative time, clamped into
/// scale; zero when the system total is unknown.
pub fn process_cpu_percent(kernel_time: u64, user_time: u64, system_time: u64) -> (r: u32)
    ensures
        r == spec_ratio_percent(kernel_time + user_time, system_time as int),
        r <= crate::PERCENT_SCALE,
{
    ratio_percent_u128((kernel_time as u128) + (user_time as u128), system_time as u128)
}

/// A negative time reading clamped to zero.
pub open spec fn spec_clamp_i64(v: i64) -> int {
    if v < 0 {
        0
    } else {
        v as int
    }
}

/// One processor performance record as a canonical counter pair: the
/// kernel time includes idle time, so busy time is kernel beyond idle,
/// plus user time; total adds idle back. Negative readings count as
/// zero.
pub fn perf_core_times(idle_time: i64, kernel_time: i64, user_time: i64) -> (r: CoreTimes)
    ensures
        r.busy == spec_sub_or_zero(spec_clamp_i64(kernel_time), spec_clamp_i64(idle_time))
            + spec_clamp_i64(user_time),
        r.total == sat_u64(r.busy + spec_clamp_i64(idle_time)),
{
    let idle: u64 = if idle_time < 0 {
        0
    } else {
        idle_time as u64
    };
    let kernel: u64 = if kernel_time < 0 {
        0
    } else {
        kernel_time as u64
    };
    let user: u64 = if user_time < 0 {
        0
    } else {
        user_time as u64
    };
    let busy = sub_or_zero_u64(kernel, idle) + user;
    let total = crate::model::sat_add_u64(busy, idle);
    CoreTimes { busy, total }
}

/// One host processor load record as a canonical counter pair: busy is
/// user, system and nice ticks; total adds idle ticks.
pub fn host_core_times(user: u32, system: u32, idle: u32, nice: u32) -> (r: CoreTimes)
    ensures
        r.busy == user + system + nice,
        r.total == r.busy + idle,
{
    let busy = (user as u64) + (system as u64) + (nice as u64);
    let total = busy + (idle as u64);
    CoreTimes { busy, total }
}

/// The unsigned value of four little-endian bytes at `off`.
pub open spec fn spec_u32_le(b: Seq<u8>, off: int) -> int {
    b[off] + b[off + 1] * 0x100 + b[off + 2] * 0x1_0000 + b[off + 3] * 0x100_0000
}

/// Reads four little-endian bytes.
pub fn u32_from_le(b: &[u8], off: usize) -> (r: u32)
    requires
        off + 4 <= b@.len(),
    ensures
        r == spec_u32_le(b@, off as int),
{
    (b[off] as u32) + (b[off + 1] as u32) * 0x100 + (b[off + 2] as u32) * 0x1_0000 + (b[off
        + 3] as u32) * 0x100_0000
}

/// The unsigned value of eight little-endian bytes at `off`.
pub open spec fn spec_u64_le(b: Seq<u8>, off: int) -> int {
    b[off] + b[off + 1] * 0x100 + b[off + 2] * 0x1_0000 + b[off + 3] * 0x100_0000 + b[off + 4]
        * 0x1_0000_0000 + b[off + 5] * 0x100_0000_0000 + b[off + 6] * 0x1_0000_0000_0000 + b[off
        + 7] * 0x100_0000_0000_0000
}

/// Reads eight little-endian bytes.
pub fn u64_from_le(b: &[u8], off: usize) -> (r: u64)
    requires
        off + 8 <= b@.len(),
    ensures
        r == spec_u64_le(b@, off as int),
{
    (b[off] as u64) + (b[off + 1] as u64) * 0x100 + (b[off + 2] as u64) * 0x1_0000 + (b[off
        + 3] as u64) * 0x100_0000 + (b[off + 4] as u64) * 0x1_0000_0000 + (b[off + 5] as u64)
        * 0x100_0000_0000 + (b[off + 6] as u64) * 0x1_0000_0000_0000 + (b[off + 7] as u64)
        * 0x100_0000_0000_0000
}

/// The aggregate percentage a fixed-point load average denotes: the
/// first four bytes little-endian, over a denominator of two to the
/// sixteenth, as a clamped percentage. Zero when the record is short.
pub fn loadavg_percent(b: &[u8]) -> (r: u32)
    ensures
        r == if b@.len() >= 4 {
            spec_ratio_percent(spec_u32_le(b@, 0), 0x1_0000)
        } else {
            0
        },
        r <= crate::PERCENT_SCALE,
{
    if b.len() >= 4 {
        let v = u32_from_le(b, 0);
        ratio_percent(v as u64, 0x1_0000)
    } else {
        0
    }
}

/// The swap totals a packed swap-usage structure denotes: total,
/// available and used counters in its first three eight-byte fields;
/// free space is total beyond used, or the available field when the
/// used field exceeds the total. All zero when the record is short.
pub fn swap_usage_from_bytes(b: &[u8]) -> (r: (u64, u64, u64))
    ensures
        b@.len() >= 24 ==> {
            &&& r.0 == spec_u64_le(b@, 0)
            &&& r.1 == spec_u64_le(b@, 16)
            &&& r.2 == if spec_u64_le(b@, 0) > spec_u64_le(b@, 16) {
                spec_u64_le(b@, 0) - spec_u64_le(b@, 16)
            } else {
                spec_u64_le(b@, 8)
            }
        },
        b@.len() < 24 ==> r == (0u64, 0u64, 0u64),
{
    if b.len() >= 24 {
        let total = u64_from_le(b, 0);
        let avail = u64_from_le(b, 8);
        let used = u64_from_le(b, 16);
        let free = if total > used {
            total - used
        } else {
            avail
        };
        (total, used, free)
    } else {
        (0, 0, 0)
    }
}

/// The boot second count a packed time record denotes: its first
/// eight-byte field, or zero when the record is short.
pub fn boot_seconds_from_bytes(b: &[u8]) -> (r: u64)
    ensures
        r == if b@.len() >= 8 {
            spec_u64_le(b@, 0)
        } else {
            0
        },
{
    if b.len() >= 8 {
        u64_from_le(b, 0)
    } else {
        0
    }
}

/// The sixteen-bit units of a little-endian wide-character buffer; a
/// trailing odd byte is dropped.
pub open spec fn spec_wide_units(b: Seq<u8>) -> Seq<u16> {
    Seq::new((b.len() / 2) as nat, |i: int| (b[2 * i] + b[2 * i + 1] * 0x100) as u16)
}

/// Whether a wide unit is a terminator or blank that registry text is
/// trimmed of: the zero unit and ASCII whitespace.
pub open spec fn is_wide_blank(u: u16) -> bool {
    u == 0 || u == 32 || u == 9 || u == 13 || u == 10
}

/// A wide-unit text without its trailing terminators and blanks.
pub open spec fn spec_trim_wide(s: Seq<u16>) -> Seq<u16>
    decreases s.len(),
{
    if s.len() > 0 && is_wide_blank(s.last()) {
        spec_trim_wide(s.drop_last())
    } else {
        s
    }
}

/// Trimming the end keeps a prefix free of blanks intact.
proof fn lemma_trim_wide_take(s: Seq<u16>, e: int)
    requires
        0 <= e <= s.len(),
        forall|j: int| e <= j < s.len() ==> is_wide_blank(#[trigger] s[j]),
        e == 0 || !is_wide_blank(s[e - 1]),
    ensures
        spec_trim_wide(s) == s.take(e),
    decreases s.len(),
{
    if s.len() > e {
        lemma_trim_wide_take(s.drop_last(), e);
        assert(s.drop_last() =~= s.take(s.len() - 1));
        assert(s.take(s.len() - 1).take(e) =~= s.take(e));
    } else {
        assert(s.take(e) =~= s);
    }
}

/// The characters a sequence of plain-ASCII wide units spells.
pub open spec fn chars_of_wide(s: Seq<u16>) -> Seq<char> {
    s.map(|_i: int, u: u16| u as char)
}

/// Whether every unit is plain ASCII.
pub open spec fn ascii_wide(s: Seq<u16>) -> bool {
    forall|i: int| 0 <= i < s.len() ==> #[trigger] s[i] < 128
}

/// Executable check for `is_wide_blank`.
fn wide_is_blank(u: u16) -> (r: bool)
    ensures
        r == is_wide_blank(u),
{
    u == 0 || u == 32 || u == 9 || u == 13 || u == 10
}

/// Relies on `String::from_utf16_lossy`: units that are plain ASCII
/// decode to exactly those characters. For other inputs the result is
/// some string and nothing more is claimed of it.
#[verifier::external_body]
fn lossy_string_wide(units: &[u16]) -> (r: String)
    ensures
        ascii_wide(units@) ==> r@ == chars_of_wide(units@),
{
    String::from_utf16_lossy(units)
}

/// Decodes a little-endian wide-character registry value into text,
/// trimmed of its trailing terminators and blanks.
pub fn registry_text(b: &[u8]) -> (r: String)
    ensures
        ascii_wide(spec_trim_wide(spec_wide_units(b@))) ==> r@ == chars_of_wide(
            spec_trim_wide(spec_wide_units(b@)),
        ),
{
    let n = b.len() / 2;
    let mut units: Vec<u16> = Vec::new();
    let mut i: usize = 0;
    while i < n
        invariant
            i <= n == b@.len() / 2,
            b@.len() <= usize::MAX,
            units@ == spec_wide_units(b@).take(i as int),
        decreases n - i,
    {
        proof {
            let len = b@.len() as int;
            assert(len / 2 * 2 <= len) by (nonlinear_arith)
                requires
                    len >= 0,
            ;
            assert(2 * i + 1 < len);
        }
        let lo = b[2 * i];
        let hi = b[2 * i + 1];
        let u: u16 = (lo as u16) + (hi as u16) * 0x100;
        units.push(u);
        proof {
            assert(spec_wide_units(b@).take(i as int).push(spec_wide_units(b@)[i as int])
                =~= spec_wide_units(b@).take(i + 1));
        }
        i += 1;
    }
    proof {
        assert(spec_wide_units(b@).take(n as int) =~= spec_wide_units(b@));
    }
    let mut e: usize = units.len();
    while e > 0 && wide_is_blank(units[e - 1])
        invariant
            e <= units@.len(),
            forall|j: int| e <= j < units@.len() ==> is_wide_blank(#[trigger] units@[j]),
        decreases e,
    {
        e -= 1;
    }
    proof {
        lemma_trim_wide_take(units@, e as int);
    }
    let mut trimmed: Vec<u16> = Vec::new();
    let mut k: usize = 0;
    while k < e
        invariant
            k <= e <= units@.len(),
            trimmed@ == units@.take(e as int).take(k as int),
        decreases e - k,
    {
        trimmed.push(units[k]);
        proof {
            assert(units@.take(e as int).take(k as int).push(units@[k as int]) =~= units@.take(
                e as int,
            ).take(k + 1));
        }
        k += 1;
    }
    proof {
        assert(units@.take(e as int).take(e as int) =~= units@.take(e as int));
    }
    lossy_string_wide(trimmed.as_slice())
}

/// The drive indices a 26-bit drive bitmask names, in order.
pub open spec fn spec_drive_bits(mask: u32, n: int) -> Seq<u8>
    decreases n,
{
    if n <= 0 {
        Seq::empty()
    } else {
        spec_drive_bits(mask, n - 1) + if mask & (1u32 << ((n - 1) as u32)) != 0 {
            seq![(n - 1) as u8]
        } else {
            Seq::empty()
        }
    }
}

/// Lists the drive indices set in a drive bitmask, in order.
pub fn drive_indices(mask: u32) -> (r: Vec<u8>)
    ensures
        r@ == spec_drive_bits(mask, 26),
{
    let mut out: Vec<u8> = Vec::new();
    let mut i: u32 = 0;
    while i < 26
        invariant
            i <= 26,
            out@ == spec_drive_bits(mask, i as int),
        decreases 26 - i,
    {
        if mask & (1u32 << i) != 0 {
            out.push(i as u8);
            proof {
                assert(out@ =~= spec_drive_bits(mask, i as int) + seq![i as u8]);
            }
        } else {
            proof {
                assert(out@ =~= spec_drive_bits(mask, i as int) + Seq::<u8>::empty());
            }
        }
        i += 1;
    }
    out
}

/// The display name and mount path of one drive index: the letter with
/// a colon, and the same with a trailing backslash.
pub fn drive_name(index: u8) -> (r: (String, String))
    requires
        index < 26,
    ensures
        r.0@ == chars_of(seq![(65 + index) as u8, 58u8]),
        r.1@ == chars_of(seq![(65 + index) as u8, 58u8, 92u8]),
{
    let letter: u8 = 65 + index;
    let mut name_bytes: Vec<u8> = Vec::new();
    name_bytes.push(letter);
    name_bytes.push(58);
    let mut mount_bytes: Vec<u8> = Vec::new();
    mount_bytes.push(letter);
    mount_bytes.push(58);
    mount_bytes.push(92);
    proof {
        assert(name_bytes@ =~= seq![(65 + index) as u8, 58u8]);
        assert(mount_bytes@ =~= seq![(65 + index) as u8, 58u8, 92u8]);
        assert(ascii_seq(name_bytes@));
        assert(ascii_seq(mount_bytes@));
    }
    let name = lossy_string(name_bytes.as_slice());
    let mount = lossy_string(mount_bytes.as_slice());
    (name, mount)
}

} // verus!
