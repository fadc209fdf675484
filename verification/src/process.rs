//! Process enumeration: turning the per-process files a directory scan
//! yielded into process snapshots, resiliently — a process whose files
//! could not be read is omitted, and one unreadable file within a
//! process degrades that field alone.

use crate::model::ProcessInfo;
use crate::procfs::{spec_lines, spec_status_ppid, spec_status_vmrss, parse_status};
use crate::text::{
    ascii_seq, chars_of, lossy_string, spec_split, spec_trim_end, split_bytes, trim_end,
};
use vstd::prelude::*;

verus! {

/// What a scan read of one process: its identifier and the raw contents
/// of its name, command-line and status files, each absent when the read
/// failed.
pub struct ProcFiles {
    pub pid: u32,
    pub comm: Option<Vec<u8>>,
    pub cmdline: Option<Vec<u8>>,
    pub status: Option<Vec<u8>>,
}

/// The command line a NUL-separated argument file denotes: the non-empty
/// arguments joined by single blanks.
pub open spec fn spec_join_words(pieces: Seq<Seq<u8>>) -> Seq<u8>
    decreases pieces.len(),
{
    if pieces.len() == 0 {
        Seq::empty()
    } else {
        let rest = spec_join_words(pieces.drop_last());
        let last = pieces.last();
        if last.len() == 0 {
            rest
        } else if rest.len() == 0 {
            last
        } else {
            rest + seq![32u8] + last
        }
    }
}

/// See `spec_join_words`, applied to the NUL-split arguments.
pub open spec fn spec_cmdline(s: Seq<u8>) -> Seq<u8> {
    spec_join_words(spec_split(s, 0))
}

/// Appends every byte of `piece` to `out`.
fn append_bytes(out: &mut Vec<u8>, piece: &[u8])
    ensures
        final(out)@ == old(out)@ + piece@,
{
    let ghost base = out@;
    let m = piece.len();
    let mut j: usize = 0;
    while j < m
        invariant
            j <= m == piece@.len(),
            out@ == base + piece@.take(j as int),
        decreases m - j,
    {
        out.push(piece[j]);
        proof {
            assert((base + piece@.take(j as int)).push(piece@[j as int]) =~= base + piece@.take(
                j + 1,
            ));
        }
        j += 1;
    }
    proof {
        assert(piece@.take(m as int) =~= piece@);
        assert(base + piece@.take(m as int) =~= base + piece@);
    }
}

/// Joins the non-empty NUL-separated arguments with blanks.
pub fn parse_cmdline(s: &[u8]) -> (r: Vec<u8>)
    ensures
        r@ == spec_cmdline(s@),
{
    let pieces = split_bytes(s, 0);
    let n = pieces.len();
    let mut out: Vec<u8> = Vec::new();
    let mut i: usize = 0;
    while i < n
        invariant
            i <= n == pieces@.len(),
            crate::text::views_of(pieces@) == spec_split(s@, 0),
            out@ == spec_join_words(crate::text::views_of(pieces@).take(i as int)),
        decreases n - i,
    {
        let ghost pv = crate::text::views_of(pieces@);
        proof {
            assert(pv.take(i + 1).drop_last() =~= pv.take(i as int));
            assert(pv.take(i + 1).last() == pv[i as int]);
            assert(pv[i as int] == pieces@[i as int]@);
        }
        if pieces[i].len() > 0 {
            if out.len() > 0 {
                out.push(32);
                let ghost with_space = out@;
                append_bytes(&mut out, pieces[i].as_slice());
                proof {
                    assert(out@ =~= spec_join_words(pv.take(i as int)) + seq![32u8]
                        + pv[i as int]);
                }
            } else {
                append_bytes(&mut out, pieces[i].as_slice());
                proof {
                    assert(out@ =~= pv[i as int]);
                }
            }
        }
        i += 1;
    }
    proof {
        assert(crate::text::views_of(pieces@).take(n as int) =~= crate::text::views_of(pieces@));
    }
    out
}

/// How one process's snapshot follows from its files.
///
/// The name is the name file trimmed of trailing blanks, a question mark
/// when unreadable; the command line is the joined arguments, the name
/// when unreadable; parent identifier and resident memory come from the
/// status text, absent and zero when unreadable. Per-process CPU usage
/// and start time are a declared capability gap of this backend and are
/// reported as zero, as is the lifecycle label, which it leaves empty.
pub open spec fn snapshot_matches(f: ProcFiles, p: ProcessInfo) -> bool {
    &&& p.pid == f.pid
    &&& p.cpu_usage == 0
    &&& p.start_time == 0
    &&& p.status@ == Seq::<char>::empty()
    &&& match f.comm {
        Option::Some(c) => ascii_seq(spec_trim_end(c@)) ==> p.name@ == chars_of(
            spec_trim_end(c@),
        ),
        Option::None => p.name@ == "?"@,
    }
    &&& match f.cmdline {
        Option::Some(c) => ascii_seq(spec_cmdline(c@)) ==> p.command@ == chars_of(
            spec_cmdline(c@),
        ),
        Option::None => p.command@ == p.name@,
    }
    &&& p.memory_usage == match f.status {
        Option::Some(st) => spec_status_vmrss(st@),
        Option::None => 0,
    }
    &&& p.parent_pid == match f.status {
        Option::Some(st) => spec_status_ppid(spec_lines(st@)),
        Option::None => Option::<u32>::None,
    }
}

/// Builds one process snapshot from that process's files.
pub fn snapshot_from_proc_files(f: &ProcFiles) -> (p: ProcessInfo)
    ensures
        snapshot_matches(*f, p),
        p.wf(),
{
    let name: String = match &f.comm {
        Option::Some(c) => {
            let trimmed = trim_end(c.as_slice());
            lossy_string(trimmed.as_slice())
        },
        Option::None => "?".to_owned(),
    };
    let command: String = match &f.cmdline {
        Option::Some(c) => {
            let joined = parse_cmdline(c.as_slice());
            lossy_string(joined.as_slice())
        },
        Option::None => name.clone(),
    };
    let (parent_pid, memory_usage) = match &f.status {
        Option::Some(st) => parse_status(st.as_slice()),
        Option::None => (Option::None, 0u64),
    };
    ProcessInfo {
        pid: f.pid,
        name,
        cpu_usage: 0,
        memory_usage,
        parent_pid,
        status: String::new(),
        command,
        start_time: 0,
    }
}

/// The reads that succeeded, in scan order.
pub open spec fn spec_somes(reads: Seq<Option<ProcFiles>>) -> Seq<ProcFiles>
    decreases reads.len(),
{
    if reads.len() == 0 {
        Seq::empty()
    } else {
        let rest = spec_somes(reads.drop_last());
        match reads.last() {
            Option::Some(f) => rest + seq![f],
            Option::None => rest,
        }
    }
}

/// Builds the process collection from a scan's reads: exactly one entry
/// per readable process, in scan order; an unreadable process is
/// omitted and never fails the call.
pub fn list_processes_from_reads(reads: &Vec<Option<ProcFiles>>) -> (r: Vec<ProcessInfo>)
    ensures
        r@.len() == spec_somes(reads@).len(),
        forall|j: int|
            0 <= j < r@.len() ==> snapshot_matches(spec_somes(reads@)[j], #[trigger] r@[j])
                && r@[j].wf(),
{
    let n = reads.len();
    let mut out: Vec<ProcessInfo> = Vec::new();
    let mut i: usize = 0;
    while i < n
        invariant
            i <= n == reads@.len(),
            out@.len() == spec_somes(reads@.take(i as int)).len(),
            forall|j: int|
                0 <= j < out@.len() ==> snapshot_matches(
                    spec_somes(reads@.take(i as int))[j],
                    #[trigger] out@[j],
                ) && out@[j].wf(),
        decreases n - i,
    {
        proof {
            assert(reads@.take(i + 1).drop_last() =~= reads@.take(i as int));
            assert(reads@.take(i + 1).last() == reads@[i as int]);
        }
        match &reads[i] {
            Option::Some(f) => {
                let p = snapshot_from_proc_files(f);
                out.push(p);
            },
            Option::None => {},
        }
        i += 1;
    }
    proof {
        assert(reads@.take(n as int) =~= reads@);
    }
    out
}

/// The display name an executable path denotes: its last
/// slash-separated component, or the whole path when that component is
/// empty.
pub open spec fn spec_basename(s: Seq<u8>) -> Seq<u8> {
    let pieces = spec_split(s, 47);
    if pieces.last().len() > 0 {
        pieces.last()
    } else {
        s
    }
}

/// Takes the last slash-separated component of an executable path.
pub fn path_basename(s: &[u8]) -> (r: Vec<u8>)
    ensures
        r@ == spec_basename(s@),
{
    let pieces = crate::text::split_bytes(s, 47);
    proof {
        crate::text::lemma_split_nonempty(s@, 47);
        assert(crate::text::views_of(pieces@).last() == pieces@[pieces@.len() - 1]@);
    }
    let last = &pieces[pieces.len() - 1];
    if last.len() > 0 {
        crate::text::subrange_vec(last.as_slice(), 0, last.len())
    } else {
        let mut out: Vec<u8> = Vec::new();
        append_bytes(&mut out, s);
        proof {
            assert(out@ =~= s@);
        }
        out
    }
}

/// The boolean a terminate request reports: success exactly when the OS
/// call it issued returned zero. "Not found", "access denied" and "call
/// failed" all collapse into a plain `false`.
pub fn terminate_outcome(ret: i32) -> (r: bool)
    ensures
        r == (ret == 0),
{
    ret == 0
}

} // verus!
