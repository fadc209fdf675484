//! Parsers for the Linux virtual files the backend reads: memory and
//! swap counters, per-core CPU counters, boot time, network totals, the
//! OS release description and the CPU brand line. Each parser takes the
//! file's contents as bytes; reading the file is the caller's business.

use crate::model::{sat_add_u64, sat_u64, CoreTimes, NetworkInfo};
use crate::text::{
    bytes_eq, fields, parse_u64_dec, spec_fields, spec_parse_u64, spec_split, spec_split_once,
    spec_trim, spec_trim_byte, split_bytes, split_once, starts_with, subrange_vec, trim,
    trim_byte, views_of,
};
use vstd::prelude::*;
use vstd::string::StringSliceAdditionalSpecFns;

verus! {

/// Whether the line begins with the given key.
pub open spec fn line_starts(l: Seq<u8>, key: Seq<u8>) -> bool {
    l.len() >= key.len() && l.take(key.len() as int) == key
}

/// The newline-separated lines of a file's bytes.
pub open spec fn spec_lines(text: Seq<u8>) -> Seq<Seq<u8>> {
    spec_split(text, 10)
}

/// The kilobyte count in a counter line's second word, scaled to bytes
/// and saturated: how a `meminfo` value line is read.
pub open spec fn spec_kb_line_bytes(l: Seq<u8>) -> int {
    sat_u64(spec_parse_u64(spec_fields(l)[1]) * 1024)
}

/// The byte value of the last line that begins with `key` and carries a
/// second word, or zero when no line does.
pub open spec fn spec_keyed_kb_bytes(lines: Seq<Seq<u8>>, key: Seq<u8>) -> int
    decreases lines.len(),
{
    if lines.len() == 0 {
        0
    } else if line_starts(lines.last(), key) && spec_fields(lines.last()).len() >= 2 {
        spec_kb_line_bytes(lines.last())
    } else {
        spec_keyed_kb_bytes(lines.drop_last(), key)
    }
}

/// The aggregate memory and swap counters of one `meminfo` read, in
/// bytes.
pub struct MemoryCounters {
    pub mem_total: u64,
    pub mem_available: u64,
    pub swap_total: u64,
    pub swap_free: u64,
}

impl MemoryCounters {
    /// The counters `meminfo` text denotes.
    pub open spec fn spec_of(text: Seq<u8>) -> MemoryCounters {
        MemoryCounters {
            mem_total: spec_keyed_kb_bytes(spec_lines(text), "MemTotal:".spec_bytes()) as u64,
            mem_available: spec_keyed_kb_bytes(
                spec_lines(text),
                "MemAvailable:".spec_bytes(),
            ) as u64,
            swap_total: spec_keyed_kb_bytes(spec_lines(text), "SwapTotal:".spec_bytes()) as u64,
            swap_free: spec_keyed_kb_bytes(spec_lines(text), "SwapFree:".spec_bytes()) as u64,
        }
    }
}

/// Reads one keyed kilobyte counter line out of an already split file.
fn keyed_kb_value(lines: &Vec<Vec<u8>>, key: &str) -> (r: u64)
    ensures
        r == spec_keyed_kb_bytes(views_of(lines@), key.spec_bytes()),
{
    let key_bytes: &[u8] = key.as_bytes();
    let n = lines.len();
    let mut value: u64 = 0;
    let mut i: usize = 0;
    while i < n
        invariant
            i <= n == lines@.len(),
            key_bytes@ == key.spec_bytes(),
            value == spec_keyed_kb_bytes(views_of(lines@).take(i as int), key_bytes@),
        decreases n - i,
    {
        let ghost lv = views_of(lines@);
        proof {
            assert(lv.take(i + 1).drop_last() =~= lv.take(i as int));
            assert(lv.take(i + 1).last() == lv[i as int]);
            assert(lv[i as int] == lines@[i as int]@);
        }
        if starts_with(lines[i].as_slice(), key_bytes) {
            let words = fields(lines[i].as_slice());
            if words.len() >= 2 {
                proof {
                    assert(views_of(words@)[1] == words@[1]@);
                }
                let kb = parse_u64_dec(words[1].as_slice());
                value = match kb.checked_mul(1024) {
                    Option::Some(v) => v,
                    Option::None => u64::MAX,
                };
            }
        }
        i += 1;
    }
    proof {
        assert(views_of(lines@).take(n as int) =~= views_of(lines@));
    }
    value
}

/// Parses a `meminfo` text into its memory and swap counters: for each
/// key, the last matching line's second word in kilobytes, scaled to
/// bytes; zero when absent.
pub fn parse_meminfo(text: &[u8]) -> (r: MemoryCounters)
    ensures
        r == MemoryCounters::spec_of(text@),
{
    let lines = split_bytes(text, 10);
    MemoryCounters {
        mem_total: keyed_kb_value(&lines, "MemTotal:"),
        mem_available: keyed_kb_value(&lines, "MemAvailable:"),
        swap_total: keyed_kb_value(&lines, "SwapTotal:"),
        swap_free: keyed_kb_value(&lines, "SwapFree:"),
    }
}

/// Whether a `stat` line carries one core's counters: it begins with the
/// `cpu` prefix, names one core rather than the aggregate, and has the
/// seven time columns.
pub open spec fn spec_is_core_line(l: Seq<u8>) -> bool {
    &&& line_starts(l, "cpu".spec_bytes())
    &&& spec_fields(l).len() >= 8
    &&& spec_fields(l)[0] != "cpu".spec_bytes()
}

/// The busy/total counter pair a core line denotes: busy is user, nice,
/// system, irq and softirq time; total adds idle and iowait.
pub open spec fn spec_core_of_line(l: Seq<u8>) -> CoreTimes {
    let f = spec_fields(l);
    let busy = sat_u64(
        spec_parse_u64(f[1]) + spec_parse_u64(f[2]) + spec_parse_u64(f[3]) + spec_parse_u64(f[6])
            + spec_parse_u64(f[7]),
    );
    let total = sat_u64(busy + spec_parse_u64(f[4]) + spec_parse_u64(f[5]));
    CoreTimes { busy: busy as u64, total: total as u64 }
}

/// The per-core counter vector a `stat` text denotes, ordered as the
/// core lines stand in the file.
pub open spec fn spec_stat_cores(lines: Seq<Seq<u8>>) -> Seq<CoreTimes>
    decreases lines.len(),
{
    if lines.len() == 0 {
        Seq::empty()
    } else {
        let rest = spec_stat_cores(lines.drop_last());
        if spec_is_core_line(lines.last()) {
            rest + seq![spec_core_of_line(lines.last())]
        } else {
            rest
        }
    }
}

/// Parses a `stat` text into the cumulative busy/total counters of each
/// core line, in file order.
pub fn parse_stat_cores(text: &[u8]) -> (r: Vec<CoreTimes>)
    ensures
        r@ == spec_stat_cores(spec_lines(text@)),
{
    let lines = split_bytes(text, 10);
    let cpu_key: &[u8] = "cpu".as_bytes();
    let n = lines.len();
    let mut out: Vec<CoreTimes> = Vec::new();
    let mut i: usize = 0;
    while i < n
        invariant
            i <= n == lines@.len(),
            views_of(lines@) == spec_lines(text@),
            cpu_key@ == "cpu".spec_bytes(),
            out@ == spec_stat_cores(views_of(lines@).take(i as int)),
        decreases n - i,
    {
        let ghost lv = views_of(lines@);
        proof {
            assert(lv.take(i + 1).drop_last() =~= lv.take(i as int));
            assert(lv.take(i + 1).last() == lv[i as int]);
            assert(lv[i as int] == lines@[i as int]@);
        }
        let line = lines[i].as_slice();
        if starts_with(line, cpu_key) {
            let words = fields(line);
            proof {
                assert forall|k: int| 0 <= k < words@.len() implies views_of(words@)[k]
                    == words@[k]@ by {}
            }
            if words.len() >= 8 {
                if !bytes_eq(words[0].as_slice(), cpu_key) {
                    let busy = sat_add_u64(
                        sat_add_u64(
                            sat_add_u64(
                                sat_add_u64(
                                    parse_u64_dec(words[1].as_slice()),
                                    parse_u64_dec(words[2].as_slice()),
                                ),
                                parse_u64_dec(words[3].as_slice()),
                            ),
                            parse_u64_dec(words[6].as_slice()),
                        ),
                        parse_u64_dec(words[7].as_slice()),
                    );
                    let total = sat_add_u64(
                        sat_add_u64(busy, parse_u64_dec(words[4].as_slice())),
                        parse_u64_dec(words[5].as_slice()),
                    );
                    out.push(CoreTimes { busy, total });
                    proof {
                        assert(sat_u64(sat_u64(sat_u64(sat_u64(sat_u64(spec_parse_u64(
                            words@[1]@,
                        ) + spec_parse_u64(words@[2]@)) + spec_parse_u64(words@[3]@))
                            + spec_parse_u64(words@[6]@)) + spec_parse_u64(words@[7]@)) as int)
                            == sat_u64(spec_parse_u64(words@[1]@) + spec_parse_u64(words@[2]@)
                                + spec_parse_u64(words@[3]@) + spec_parse_u64(words@[6]@)
                                + spec_parse_u64(words@[7]@)));
                        assert(out@.drop_last() =~= spec_stat_cores(lv.take(i as int)));
                    }
                } else {
                    proof {
                        assert(!spec_is_core_line(lv[i as int]));
                    }
                }
            }
        }
        i += 1;
    }
    proof {
        assert(views_of(lines@).take(n as int) =~= views_of(lines@));
    }
    out
}

/// The first line that begins with `key`, if any.
pub open spec fn spec_first_line_with(lines: Seq<Seq<u8>>, key: Seq<u8>) -> Option<Seq<u8>>
    decreases lines.len(),
{
    if lines.len() == 0 {
        Option::None
    } else {
        let rest = spec_first_line_with(lines.drop_last(), key);
        if rest is Some {
            rest
        } else if line_starts(lines.last(), key) {
            Option::Some(lines.last())
        } else {
            Option::None
        }
    }
}

/// Finds the index of the first line beginning with `key`.
fn first_line_index(lines: &Vec<Vec<u8>>, key: &[u8]) -> (r: Option<usize>)
    ensures
        match r {
            Option::Some(k) => {
                &&& k < lines@.len()
                &&& spec_first_line_with(views_of(lines@), key@) == Option::Some(lines@[k as int]@)
            },
            Option::None => spec_first_line_with(views_of(lines@), key@) is None,
        },
{
    let n = lines.len();
    let mut found: Option<usize> = Option::None;
    let mut i: usize = 0;
    while i < n
        invariant
            i <= n == lines@.len(),
            match found {
                Option::Some(k) => k < i && spec_first_line_with(
                    views_of(lines@).take(i as int),
                    key@,
                ) == Option::Some(lines@[k as int]@),
                Option::None => spec_first_line_with(views_of(lines@).take(i as int), key@)
                    is None,
            },
        decreases n - i,
    {
        let ghost lv = views_of(lines@);
        proof {
            assert(lv.take(i + 1).drop_last() =~= lv.take(i as int));
            assert(lv.take(i + 1).last() == lv[i as int]);
            assert(lv[i as int] == lines@[i as int]@);
        }
        if found.is_none() {
            if starts_with(lines[i].as_slice(), key) {
                found = Option::Some(i);
            }
        }
        i += 1;
    }
    proof {
        assert(views_of(lines@).take(n as int) =~= views_of(lines@));
    }
    found
}

/// The boot time a `stat` text denotes: the second word of the first
/// line beginning with the boot-time key, or zero.
pub open spec fn spec_btime(text: Seq<u8>) -> int {
    match spec_first_line_with(spec_lines(text), "btime ".spec_bytes()) {
        Option::None => 0,
        Option::Some(l) => {
            let f = spec_fields(l);
            if f.len() >= 2 {
                spec_parse_u64(f[1])
            } else {
                0
            }
        },
    }
}

/// Parses the absolute boot time (Unix seconds) out of a `stat` text.
pub fn parse_btime(text: &[u8]) -> (r: u64)
    ensures
        r == spec_btime(text@),
{
    let lines = split_bytes(text, 10);
    let key: &[u8] = "btime ".as_bytes();
    match first_line_index(&lines, key) {
        Option::None => 0,
        Option::Some(k) => {
            let words = fields(lines[k].as_slice());
            if words.len() >= 2 {
                proof {
                    assert(views_of(words@)[1] == words@[1]@);
                }
                parse_u64_dec(words[1].as_slice())
            } else {
                0
            }
        },
    }
}

/// The four counters one interface line contributes: received bytes and
/// packets, sent bytes and packets — the first, second, ninth and tenth
/// words after the interface-name colon, when all sixteen columns are
/// present.
pub open spec fn spec_net_line(l: Seq<u8>) -> (int, int, int, int) {
    match spec_split_once(l, 58) {
        Option::None => (0, 0, 0, 0),
        Option::Some(p) => {
            let f = spec_fields(p.1);
            if f.len() >= 16 {
                (
                    spec_parse_u64(f[0]),
                    spec_parse_u64(f[1]),
                    spec_parse_u64(f[8]),
                    spec_parse_u64(f[9]),
                )
            } else {
                (0, 0, 0, 0)
            }
        },
    }
}

/// The running totals over a sequence of interface lines, each addition
/// saturated at the 64-bit ceiling.
pub open spec fn spec_net_totals(lines: Seq<Seq<u8>>) -> (int, int, int, int)
    decreases lines.len(),
{
    if lines.len() == 0 {
        (0, 0, 0, 0)
    } else {
        let r = spec_net_totals(lines.drop_last());
        let c = spec_net_line(lines.last());
        (sat_u64(r.0 + c.0), sat_u64(r.1 + c.1), sat_u64(r.2 + c.2), sat_u64(r.3 + c.3))
    }
}

/// The network totals a network-device table denotes: the interface
/// lines after the two header lines, summed.
pub open spec fn spec_net_dev(text: Seq<u8>) -> (int, int, int, int) {
    let lines = spec_lines(text);
    if lines.len() <= 2 {
        (0, 0, 0, 0)
    } else {
        spec_net_totals(lines.skip(2))
    }
}

/// Parses a network-device table into cumulative totals over all listed
/// interfaces.
pub fn parse_net_dev(text: &[u8]) -> (r: NetworkInfo)
    ensures
        r.bytes_received == spec_net_dev(text@).0,
        r.packets_received == spec_net_dev(text@).1,
        r.bytes_sent == spec_net_dev(text@).2,
        r.packets_sent == spec_net_dev(text@).3,
{
    let lines = split_bytes(text, 10);
    let n = lines.len();
    let mut rx_bytes: u64 = 0;
    let mut rx_packets: u64 = 0;
    let mut tx_bytes: u64 = 0;
    let mut tx_packets: u64 = 0;
    if n <= 2 {
        return NetworkInfo {
            bytes_sent: 0,
            bytes_received: 0,
            packets_sent: 0,
            packets_received: 0,
        };
    }
    let ghost rest = views_of(lines@).skip(2);
    let mut i: usize = 2;
    while i < n
        invariant
            2 <= i <= n == lines@.len(),
            views_of(lines@) == spec_lines(text@),
            rest == views_of(lines@).skip(2),
            rx_bytes == spec_net_totals(rest.take(i - 2)).0,
            rx_packets == spec_net_totals(rest.take(i - 2)).1,
            tx_bytes == spec_net_totals(rest.take(i - 2)).2,
            tx_packets == spec_net_totals(rest.take(i - 2)).3,
        decreases n - i,
    {
        proof {
            assert(rest.take(i - 2 + 1).drop_last() =~= rest.take(i - 2));
            assert(rest.take(i - 2 + 1).last() == rest[i - 2]);
            assert(rest[i - 2] == views_of(lines@)[i as int]);
            assert(views_of(lines@)[i as int] == lines@[i as int]@);
        }
        match split_once(lines[i].as_slice(), 58) {
            Option::None => {},
            Option::Some(p) => {
                let words = fields(p.1.as_slice());
                if words.len() >= 16 {
                    proof {
                        assert(views_of(words@)[0] == words@[0]@);
                        assert(views_of(words@)[1] == words@[1]@);
                        assert(views_of(words@)[8] == words@[8]@);
                        assert(views_of(words@)[9] == words@[9]@);
                    }
                    rx_bytes = sat_add_u64(rx_bytes, parse_u64_dec(words[0].as_slice()));
                    rx_packets = sat_add_u64(rx_packets, parse_u64_dec(words[1].as_slice()));
                    tx_bytes = sat_add_u64(tx_bytes, parse_u64_dec(words[8].as_slice()));
                    tx_packets = sat_add_u64(tx_packets, parse_u64_dec(words[9].as_slice()));
                }
            },
        }
        i += 1;
    }
    proof {
        assert(rest.take(n - 2) =~= rest);
    }
    NetworkInfo {
        bytes_sent: tx_bytes,
        bytes_received: rx_bytes,
        packets_sent: tx_packets,
        packets_received: rx_packets,
    }
}

/// The value of the last line beginning with `key`: the rest of that
/// line with surrounding quote characters removed.
pub open spec fn spec_os_field(lines: Seq<Seq<u8>>, key: Seq<u8>) -> Option<Seq<u8>>
    decreases lines.len(),
{
    if lines.len() == 0 {
        Option::None
    } else if line_starts(lines.last(), key) {
        Option::Some(spec_trim_byte(lines.last().skip(key.len() as int), 34))
    } else {
        spec_os_field(lines.drop_last(), key)
    }
}

/// The OS description an os-release text denotes: the name, followed by
/// the version when one is present; a fixed sentinel when no name is.
pub open spec fn spec_os_release(text: Seq<u8>) -> Seq<u8> {
    let lines = spec_lines(text);
    let name = spec_os_field(lines, "NAME=".spec_bytes());
    let version = spec_os_field(lines, "VERSION=".spec_bytes());
    match (name, version) {
        (Option::Some(n), Option::Some(v)) => n + " ".spec_bytes() + v,
        (Option::Some(n), Option::None) => n,
        _ => "Unknown".spec_bytes(),
    }
}

/// Reads one quoted field of an os-release text, last match winning.
fn os_field(lines: &Vec<Vec<u8>>, key: &str) -> (r: Option<Vec<u8>>)
    ensures
        match r {
            Option::Some(v) => spec_os_field(views_of(lines@), key.spec_bytes()) == Option::Some(
                v@,
            ),
            Option::None => spec_os_field(views_of(lines@), key.spec_bytes()) is None,
        },
{
    let key_bytes: &[u8] = key.as_bytes();
    let n = lines.len();
    let mut value: Option<Vec<u8>> = Option::None;
    let mut i: usize = 0;
    while i < n
        invariant
            i <= n == lines@.len(),
            key_bytes@ == key.spec_bytes(),
            match value {
                Option::Some(v) => spec_os_field(views_of(lines@).take(i as int), key_bytes@)
                    == Option::Some(v@),
                Option::None => spec_os_field(views_of(lines@).take(i as int), key_bytes@)
                    is None,
            },
        decreases n - i,
    {
        let ghost lv = views_of(lines@);
        proof {
            assert(lv.take(i + 1).drop_last() =~= lv.take(i as int));
            assert(lv.take(i + 1).last() == lv[i as int]);
            assert(lv[i as int] == lines@[i as int]@);
        }
        let line = lines[i].as_slice();
        if starts_with(line, key_bytes) {
            let rest = subrange_vec(line, key_bytes.len(), line.len());
            proof {
                assert(rest@ =~= lv[i as int].skip(key_bytes@.len() as int));
            }
            value = Option::Some(trim_byte(rest.as_slice(), 34));
        }
        i += 1;
    }
    proof {
        assert(views_of(lines@).take(n as int) =~= views_of(lines@));
    }
    value
}

/// Parses an os-release text into the OS description bytes.
pub fn parse_os_release(text: &[u8]) -> (r: Vec<u8>)
    ensures
        r@ == spec_os_release(text@),
{
    let lines = split_bytes(text, 10);
    let name = os_field(&lines, "NAME=");
    let version = os_field(&lines, "VERSION=");
    match (name, version) {
        (Option::Some(n), Option::Some(v)) => {
            let mut out = n;
            let ghost n_view = out@;
            out.push(32);
            let mut j: usize = 0;
            let m = v.len();
            while j < m
                invariant
                    j <= m == v@.len(),
                    out@ == n_view + seq![32u8] + v@.take(j as int),
                decreases m - j,
            {
                out.push(v[j]);
                proof {
                    assert((n_view + seq![32u8] + v@.take(j as int)).push(v@[j as int]) =~= n_view
                        + seq![32u8] + v@.take(j + 1));
                }
                j += 1;
            }
            proof {
                assert(v@.take(m as int) =~= v@);
                assert(" ".spec_bytes() =~= seq![32u8]) by {
                    reveal_strlit(" ");
                    vstd::string::is_ascii_spec_bytes(" ");
                    assert(vstd::string::is_ascii(" "));
                }
            }
            out
        },
        (Option::Some(n), Option::None) => n,
        _ => {
            let s: &[u8] = "Unknown".as_bytes();
            subrange_vec(s, 0, s.len())
        },
    }
}

/// The parent identifier a per-process status text denotes: the parsed
/// second word of the last parent-identifier line, absent when that word
/// is missing or is no 32-bit number.
pub open spec fn spec_status_ppid(lines: Seq<Seq<u8>>) -> Option<u32>
    decreases lines.len(),
{
    if lines.len() == 0 {
        Option::None
    } else if line_starts(lines.last(), "PPid:".spec_bytes()) && spec_fields(
        lines.last(),
    ).len() >= 2 {
        crate::text::spec_parse_u32(spec_fields(lines.last())[1])
    } else {
        spec_status_ppid(lines.drop_last())
    }
}

/// The resident memory a per-process status text denotes, in bytes.
pub open spec fn spec_status_vmrss(text: Seq<u8>) -> int {
    spec_keyed_kb_bytes(spec_lines(text), "VmRSS:".spec_bytes())
}

/// Parses a per-process status text into the parent identifier and the
/// resident memory in bytes.
pub fn parse_status(text: &[u8]) -> (r: (Option<u32>, u64))
    ensures
        r.0 == spec_status_ppid(spec_lines(text@)),
        r.1 == spec_status_vmrss(text@),
{
    let lines = split_bytes(text, 10);
    let key: &[u8] = "PPid:".as_bytes();
    let n = lines.len();
    let mut ppid: Option<u32> = Option::None;
    let mut i: usize = 0;
    while i < n
        invariant
            i <= n == lines@.len(),
            key@ == "PPid:".spec_bytes(),
            ppid == spec_status_ppid(views_of(lines@).take(i as int)),
        decreases n - i,
    {
        let ghost lv = views_of(lines@);
        proof {
            assert(lv.take(i + 1).drop_last() =~= lv.take(i as int));
            assert(lv.take(i + 1).last() == lv[i as int]);
            assert(lv[i as int] == lines@[i as int]@);
        }
        if starts_with(lines[i].as_slice(), key) {
            let words = fields(lines[i].as_slice());
            if words.len() >= 2 {
                proof {
                    assert(views_of(words@)[1] == words@[1]@);
                }
                ppid = crate::text::parse_u32_dec(words[1].as_slice());
            }
        }
        i += 1;
    }
    proof {
        assert(views_of(lines@).take(n as int) =~= views_of(lines@));
    }
    let mem = keyed_kb_value(&lines, "VmRSS:");
    (ppid, mem)
}

/// The CPU brand a `cpuinfo` text denotes: what follows the colon on the
/// first model-name line, trimmed; a fixed sentinel otherwise.
pub open spec fn spec_cpu_brand(text: Seq<u8>) -> Seq<u8> {
    match spec_first_line_with(spec_lines(text), "model name".spec_bytes()) {
        Option::None => "Unknown CPU".spec_bytes(),
        Option::Some(l) => {
            let p = spec_split(l, 58);
            if p.len() >= 2 {
                spec_trim(p[1])
            } else {
                "Unknown CPU".spec_bytes()
            }
        },
    }
}

/// Parses a `cpuinfo` text into the CPU brand bytes.
pub fn parse_cpu_brand(text: &[u8]) -> (r: Vec<u8>)
    ensures
        r@ == spec_cpu_brand(text@),
{
    let lines = split_bytes(text, 10);
    let key: &[u8] = "model name".as_bytes();
    match first_line_index(&lines, key) {
        Option::Some(k) => {
            let pieces = split_bytes(lines[k].as_slice(), 58);
            if pieces.len() >= 2 {
                proof {
                    assert(views_of(pieces@)[1] == pieces@[1]@);
                }
                trim(pieces[1].as_slice())
            } else {
                let s: &[u8] = "Unknown CPU".as_bytes();
                subrange_vec(s, 0, s.len())
            }
        },
        Option::None => {
            let s: &[u8] = "Unknown CPU".as_bytes();
            subrange_vec(s, 0, s.len())
        },
    }
}

} // verus!
