use telemetry::process::{
    list_processes_from_reads, parse_cmdline, path_basename, snapshot_from_proc_files,
    terminate_outcome, ProcFiles,
};

fn files(pid: u32) -> ProcFiles {
    ProcFiles {
        pid,
        comm: Some(b"bash\n".to_vec()),
        cmdline: Some(b"/bin/bash\0-l\0\0".to_vec()),
        status: Some(b"Name:\tbash\nPPid:\t1\nVmRSS:\t4 kB\n".to_vec()),
    }
}

#[test]
fn snapshot_carries_the_parsed_fields() {
    let p = snapshot_from_proc_files(&files(7));
    assert_eq!(p.pid, 7);
    assert_eq!(p.name, "bash");
    assert_eq!(p.command, "/bin/bash -l");
    assert_eq!(p.parent_pid, Some(1));
    assert_eq!(p.memory_usage, 4096);
    assert_eq!(p.cpu_usage, 0);
    assert_eq!(p.start_time, 0);
    assert_eq!(p.status, "");
}

#[test]
fn unreadable_files_degrade_field_by_field() {
    let p = snapshot_from_proc_files(&ProcFiles {
        pid: 9,
        comm: None,
        cmdline: None,
        status: None,
    });
    assert_eq!(p.name, "?");
    assert_eq!(p.command, "?");
    assert_eq!(p.parent_pid, None);
    assert_eq!(p.memory_usage, 0);
}

#[test]
fn one_inaccessible_process_is_omitted_not_fatal() {
    // Three processes were seen; one could not be read.
    let reads = vec![Some(files(1)), None, Some(files(3))];
    let out = list_processes_from_reads(&reads);
    assert_eq!(out.len(), 2);
    assert_eq!(out[0].pid, 1);
    assert_eq!(out[1].pid, 3);
}

#[test]
fn empty_scan_lists_nothing() {
    let reads: Vec<Option<ProcFiles>> = Vec::new();
    assert!(list_processes_from_reads(&reads).is_empty());
}

#[test]
fn cmdline_joins_nonempty_arguments() {
    assert_eq!(parse_cmdline(b"a\0bc\0\0d\0"), b"a bc d".to_vec());
    assert_eq!(parse_cmdline(b""), Vec::<u8>::new());
    assert_eq!(parse_cmdline(b"\0\0"), Vec::<u8>::new());
}

#[test]
fn basename_takes_the_last_component() {
    assert_eq!(path_basename(b"/usr/bin/top"), b"top".to_vec());
    assert_eq!(path_basename(b"top"), b"top".to_vec());
    assert_eq!(path_basename(b"/usr/bin/"), b"/usr/bin/".to_vec());
}

#[test]
fn terminate_reports_success_only_on_zero() {
    assert!(terminate_outcome(0));
    assert!(!terminate_outcome(-1));
    assert!(!terminate_outcome(3));
}
