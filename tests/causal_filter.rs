use cairn::command::{parse_reported_pid, Command, TraceError};
use cairn::filter::{filter_entries, filter_log, PathRewrite};
use cairn::lineage::compute_lineage;
use cairn::log_format::{parse_line, parse_lines, trace_message};

fn lines(v: &[&str]) -> Vec<String> {
    v.iter().map(|s| s.to_string()).collect()
}

fn ops(s: &str) -> Option<Vec<char>> {
    Some(s.chars().collect())
}

#[test]
fn end_to_end_example() {
    let log = lines(&[
        "[INFO] -> 200: 10|1|w|/a/b.txt",
        "[INFO] -> 201: 11|10|r|/a/c.txt",
        "[INFO] -> 201: 99|1|w|/a/d.txt",
    ]);
    let out = filter_log(&log, 150, 10, &ops("wr"), &None);
    assert_eq!(out, "w|/a/b.txt\nr|/a/c.txt\n");
}

#[test]
fn start_time_cutoff_drops_older_entries() {
    let log = lines(&["[INFO] -> 100: 10|1|w|/old", "[INFO] -> 200: 10|1|w|/new"]);
    let out = filter_log(&log, 150, 10, &None, &None);
    assert_eq!(out, "w|/new\n");
}

#[test]
fn filtering_twice_gives_identical_output() {
    let log = lines(&[
        "[INFO] -> 200: 12|11|w|/x",
        "[INFO] -> 200: 11|10|r|/y",
        "[INFO] -> 200: 10|1|d|/z",
        "garbage",
        "[INFO] -> 200: 13|12|m|/p|/q",
    ]);
    let a = filter_log(&log, 0, 10, &None, &None);
    let b = filter_log(&log, 0, 10, &None, &None);
    assert_eq!(a, b);
    assert_eq!(a, "w|/x\nr|/y\nd|/z\nm|/p|/q\n");
}

#[test]
fn descendants_logged_before_their_parent_are_found() {
    // the grandchild's line comes first, so it is only settled on a later pass
    let log = lines(&[
        "[INFO] -> 5: 30|20|w|/g",
        "[INFO] -> 5: 20|10|w|/c",
        "[INFO] -> 5: 10|1|w|/r",
    ]);
    let entries = parse_lines(&log);
    let lineage: Vec<u32> = compute_lineage(&entries, 0, 10).into_iter().collect();
    assert_eq!(lineage, vec![10, 20, 30]);
    assert_eq!(filter_log(&log, 0, 10, &None, &None), "w|/g\nw|/c\nw|/r\n");
}

#[test]
fn lineage_does_not_depend_on_entry_order() {
    let a = lines(&[
        "[INFO] -> 5: 20|10|w|/c",
        "[INFO] -> 5: 30|20|w|/g",
        "[INFO] -> 5: 40|99|w|/other",
    ]);
    let b = lines(&[
        "[INFO] -> 5: 40|99|w|/other",
        "[INFO] -> 5: 30|20|w|/g",
        "[INFO] -> 5: 20|10|w|/c",
    ]);
    let la = compute_lineage(&parse_lines(&a), 0, 10);
    let lb = compute_lineage(&parse_lines(&b), 0, 10);
    assert_eq!(la, lb);
    assert_eq!(la.into_iter().collect::<Vec<u32>>(), vec![10, 20, 30]);
}

#[test]
fn pid_seen_only_as_parent_orphans_its_children() {
    // pid 20 never logs an entry of its own, so its child 30 cannot join
    let log = lines(&["[INFO] -> 5: 30|20|w|/g", "[INFO] -> 5: 10|1|w|/r"]);
    assert_eq!(filter_log(&log, 0, 10, &None, &None), "w|/r\n");
}

#[test]
fn stale_entries_do_not_extend_the_lineage() {
    let log = lines(&["[INFO] -> 1: 20|10|w|/stale", "[INFO] -> 9: 30|20|w|/child"]);
    assert_eq!(filter_log(&log, 5, 10, &None, &None), "");
}

#[test]
fn op_filter_keeps_only_listed_codes() {
    let log = lines(&[
        "[INFO] -> 5: 10|1|w|/w",
        "[INFO] -> 5: 10|1|q|/q",
        "[INFO] -> 5: 10|1|t|/t",
    ]);
    assert_eq!(filter_log(&log, 0, 10, &ops("qt"), &None), "q|/q\nt|/t\n");
    assert_eq!(filter_log(&log, 0, 10, &ops(""), &None), "");
}

#[test]
fn filter_entries_gives_positions_in_file_order() {
    let log = lines(&[
        "[INFO] -> 5: 99|1|w|/no",
        "[INFO] -> 5: 10|1|w|/yes",
        "[INFO] -> 5: 11|10|r|/child",
    ]);
    let entries = parse_lines(&log);
    assert_eq!(filter_entries(&entries, 0, 10, &None), vec![1, 2]);
}

#[test]
fn path_prefix_is_rewritten() {
    let log = lines(&[
        "[INFO] -> 5: 10|1|w|/usr/src/dockermount/a.txt",
        "[INFO] -> 5: 10|1|w|/elsewhere/usr/src/dockermount",
    ]);
    let rw = Some(PathRewrite { from: "/usr/src/dockermount".to_string(), to: "/mnt".to_string() });
    assert_eq!(
        filter_log(&log, 0, 10, &None, &rw),
        "w|/mnt/a.txt\nw|/elsewhere/usr/src/dockermount\n"
    );
}

#[test]
fn parse_line_reads_every_field() {
    let e = parse_line("[INFO] -> 201: 11|10|m|/a|/b", 7).unwrap();
    assert_eq!(e.timestamp, 201);
    assert_eq!(e.pid, 11);
    assert_eq!(e.ppid, 10);
    assert_eq!(e.op, 'm');
    assert_eq!(e.path, "/a|/b");
    assert_eq!(e.order, 7);
}

#[test]
fn malformed_lines_are_dropped() {
    assert!(parse_line("[INFO] -> 201: 11|-1|w|/a", 1).is_none());
    assert!(parse_line("[INFO] -> 201: 11|10|W|/a", 1).is_none());
    assert!(parse_line("[WARN] -> 201: 11|10|w|/a", 1).is_none());
    assert!(parse_line("[INFO] -> 4294967296: 11|10|w|/a", 1).is_none());
    assert!(parse_line("[INFO] -> 201: 11|10|w", 1).is_none());
    assert!(parse_line("[INFO] -> : 11|10|w|/a", 1).is_none());
    assert!(parse_line("[INFO] -> 4294967295: 11|10|w|", 1).is_some());
}

#[test]
fn parsed_entries_are_numbered_from_one() {
    let log = lines(&["x", "[INFO] -> 1: 2|3|r|/a", "y", "[INFO] -> 4: 5|6|w|/b"]);
    let entries = parse_lines(&log);
    assert_eq!(entries.len(), 2);
    assert_eq!(entries[0].order, 1);
    assert_eq!(entries[1].order, 2);
    assert_eq!(entries[1].path, "/b");
}

#[test]
fn trace_message_matches_the_log_format() {
    let paths = vec!["rename".to_string(), "/a".to_string(), "/b".to_string()];
    let m = trace_message(1700000000, 42, 7, 'm', &paths);
    assert_eq!(m, "-> 1700000000: 42|7|m|rename|/a|/b");
    let line = format!("[INFO] {}", m);
    let e = parse_line(&line, 1).unwrap();
    assert_eq!((e.timestamp, e.pid, e.ppid, e.op), (1700000000, 42, 7, 'm'));
    assert_eq!(e.path, "rename|/a|/b");
    assert_eq!(trace_message(0, 0, -1, 'q', &vec!["statfs".to_string()]), "-> 0: 0|-1|q|statfs");
}

#[test]
fn reported_pid_is_the_last_line() {
    assert_eq!(parse_reported_pid("building\n1234\n"), Ok(1234));
    assert_eq!(parse_reported_pid("1234"), Ok(1234));
    assert_eq!(parse_reported_pid("x\r\n77\r\n"), Ok(77));
    assert_eq!(parse_reported_pid(""), Err(TraceError::ProcessLaunchFailure));
    assert_eq!(parse_reported_pid("12\nnot a pid\n"), Err(TraceError::ProcessLaunchFailure));
    assert_eq!(parse_reported_pid("12\n\n"), Err(TraceError::ProcessLaunchFailure));
}

#[test]
fn command_filters_its_own_run() {
    let mut cmd = Command::new("docker", vec!["exec", "build-env"], "out.log", "w", "/mnt");
    assert_eq!(cmd.args, vec!["exec".to_string(), "build-env".to_string()]);
    assert!(cmd.wants_trace());
    let log = lines(&[
        "[INFO] -> 100: 10|1|w|/usr/src/dockermount/early",
        "[INFO] -> 200: 10|1|w|/usr/src/dockermount/a",
        "[INFO] -> 200: 10|1|r|/usr/src/dockermount/b",
    ]);
    assert_eq!(cmd.filtered_trace(&log), Err(TraceError::ProcessLaunchFailure));
    cmd.record_start(150);
    assert_eq!(cmd.record_launch_output("hello\nnope\n"), Err(TraceError::ProcessLaunchFailure));
    assert_eq!(cmd.root_ppid, None);
    assert_eq!(cmd.record_launch_output("hello\n10\n"), Ok(()));
    assert_eq!(cmd.root_ppid, Some(10));
    assert_eq!(cmd.filtered_trace(&log), Ok("w|/mnt/a\n".to_string()));
}

#[test]
fn command_without_output_wants_no_trace() {
    let cmd = Command::new("bash", vec![], "", "rw", "/mnt");
    assert!(!cmd.wants_trace());
    assert_eq!(cmd.start_time, 0);
}
