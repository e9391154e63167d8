//! A traced build command: what to launch, and the decisions taken around the
//! launch (the root pid that the launcher reports, and the filtered trace).
use vstd::prelude::*;
use crate::filter::{filter_log, filter_output, PathRewrite};
use crate::log_format::lines_view;
use crate::text::{chars_of, parse_digits, parse_u32_spec};

verus! {

/// The mount path of the traced tree inside the build sandbox; trace paths
/// that start with it are reported under the command's mount directory.
pub const SANDBOX_MOUNT_DIR: &'static str = "/usr/src/dockermount";

/// The errors of a traced run that the library decides.
#[derive(Debug, PartialEq, Eq, Structural)]
pub enum TraceError {
    /// The launched command did not report its pid as the last line of its output.
    ProcessLaunchFailure,
}

pub struct Command {
    pub executable: String,
    pub args: Vec<String>,
    /// Where the filtered trace goes; empty when no trace is wanted.
    pub output_path: String,
    /// The pid that the launched command reported for itself.
    pub root_ppid: Option<u32>,
    /// Unix seconds at launch; older log entries belong to earlier runs.
    pub start_time: u32,
    /// The op codes to keep in the filtered trace.
    pub options: Vec<char>,
    pub mnt_dir: String,
}

/// Where the last line of `s` starts, once a final newline is taken off.
pub open spec fn line_start(t: Seq<char>) -> int
    decreases t.len(),
{
    if t.len() == 0 {
        0
    } else if t.last() == '\n' {
        t.len() as int
    } else {
        line_start(t.drop_last())
    }
}

/// The last line of a text, as `str::lines` splits it: lines end at `\n`, a
/// `\r` before it is dropped, and a final newline starts no new line. `None`
/// when the text is empty.
pub open spec fn last_line(s: Seq<char>) -> Option<Seq<char>> {
    if s.len() == 0 {
        None
    } else {
        let t = if s.last() == '\n' {
            s.drop_last()
        } else {
            s
        };
        let l = t.subrange(line_start(t), t.len() as int);
        Some(
            if l.len() > 0 && l.last() == '\r' {
                l.drop_last()
            } else {
                l
            },
        )
    }
}

/// The pid that the launcher's output reports: its last line, as plain decimal text.
pub open spec fn reported_pid(output: Seq<char>) -> Option<u32> {
    match last_line(output) {
        Some(l) => parse_u32_spec(l),
        None => None,
    }
}

pub open spec fn str_seqs(v: Seq<&str>) -> Seq<Seq<char>> {
    v.map_values(|s: &str| s@)
}

pub open spec fn string_seqs(v: Seq<String>) -> Seq<Seq<char>> {
    v.map_values(|s: String| s@)
}

/// Reads the pid on the last line of a launcher's output.
pub fn parse_reported_pid(output: &str) -> (r: Result<u32, TraceError>)
    ensures
        r matches Ok(p) ==> reported_pid(output@) == Some(p),
        r is Err ==> reported_pid(output@) is None && r == Err::<u32, TraceError>(
            TraceError::ProcessLaunchFailure,
        ),
{
    let v = chars_of(output);
    let ghost s = v@;
    if v.len() == 0 {
        return Err(TraceError::ProcessLaunchFailure);
    }
    let mut end = v.len();
    if v[end - 1] == '\n' {
        end = end - 1;
    }
    let ghost t = s.subrange(0, end as int);
    assert(t == (if s.last() == '\n' { s.drop_last() } else { s }));
    let mut begin = end;
    assert(t.subrange(0, end as int) == t);
    while begin > 0 && v[begin - 1] != '\n'
        invariant
            begin <= end <= v@.len(),
            t == v@.subrange(0, end as int),
            line_start(t) == line_start(t.subrange(0, begin as int)),
        decreases begin,
    {
        assert(t.subrange(0, begin as int).drop_last() == t.subrange(0, begin - 1));
        begin = begin - 1;
    }
    assert(line_start(t.subrange(0, begin as int)) == begin) by {
        if begin > 0 {
            assert(t.subrange(0, begin as int).last() == '\n');
        }
    }
    let mut stop = end;
    if stop > begin && v[stop - 1] == '\r' {
        stop = stop - 1;
    }
    assert(v@.subrange(begin as int, stop as int) == last_line(s)->0);
    match parse_digits(&v, begin, stop) {
        Some(p) => Ok(p),
        None => Err(TraceError::ProcessLaunchFailure),
    }
}

impl Command {
    pub fn new(
        executable: &str,
        args: Vec<&str>,
        output_path: &str,
        options: &str,
        mnt_dir: &str,
    ) -> (r: Command)
        ensures
            r.executable@ == executable@,
            string_seqs(r.args@) == str_seqs(args@),
            r.output_path@ == output_path@,
            r.options@ == options@,
            r.mnt_dir@ == mnt_dir@,
            r.root_ppid is None,
            r.start_time == 0,
    {
        let mut owned: Vec<String> = Vec::new();
        let mut i: usize = 0;
        while i < args.len()
            invariant
                i <= args@.len(),
                owned@.len() == i,
                string_seqs(owned@) == str_seqs(args@.subrange(0, i as int)),
            decreases args@.len() - i,
        {
            let a: &str = args[i];
            let o = a.to_owned();
            assert(o@ == args@[i as int]@);
            let ghost prev = owned@;
            owned.push(o);
            i = i + 1;
            assert forall|k: int| 0 <= k < i implies string_seqs(owned@)[k] == str_seqs(
                args@.subrange(0, i as int),
            )[k] by {
                if k < i - 1 {
                    assert(owned@[k] == prev[k]);
                    assert(string_seqs(prev)[k] == str_seqs(args@.subrange(0, i - 1))[k]);
                }
            }
            assert(string_seqs(owned@) =~= str_seqs(args@.subrange(0, i as int)));
        }
        assert(args@.subrange(0, args@.len() as int) == args@);
        Command {
            executable: executable.to_owned(),
            args: owned,
            output_path: output_path.to_owned(),
            root_ppid: None,
            start_time: 0,
            options: chars_of(options),
            mnt_dir: mnt_dir.to_owned(),
        }
    }

    /// Marks the launch time: log entries older than `now_secs` are not this run's.
    pub fn record_start(&mut self, now_secs: u32)
        ensures
            final(self).start_time == now_secs,
            final(self).root_ppid == old(self).root_ppid,
            final(self).options == old(self).options,
            final(self).mnt_dir == old(self).mnt_dir,
            final(self).output_path == old(self).output_path,
    {
        self.start_time = now_secs;
    }

    /// Takes the root pid from the launched command's output, whose last line
    /// must be the pid as plain decimal text.
    pub fn record_launch_output(&mut self, output: &str) -> (r: Result<(), TraceError>)
        ensures
            r is Ok <==> reported_pid(output@) is Some,
            r is Ok ==> final(self).root_ppid == reported_pid(output@),
            r is Err ==> final(self).root_ppid == old(self).root_ppid && r == Err::<(), TraceError>(
                TraceError::ProcessLaunchFailure,
            ),
            final(self).start_time == old(self).start_time,
            final(self).options == old(self).options,
            final(self).mnt_dir == old(self).mnt_dir,
            final(self).output_path == old(self).output_path,
    {
        match parse_reported_pid(output) {
            Ok(p) => {
                self.root_ppid = Some(p);
                Ok(())
            },
            Err(e) => Err(e),
        }
    }

    /// Whether a filtered trace is wanted from this command.
    pub fn wants_trace(&self) -> (r: bool)
        ensures
            r == (self.output_path@.len() > 0),
    {
        !self.output_path.as_str().is_empty()
    }

    /// The filtered trace of this run from the lines of the trace log: the
    /// entries of the root pid's process tree logged since the start, with the
    /// op codes of `options`, and sandbox paths shown under the mount directory.
    pub fn filtered_trace(&self, lines: &Vec<String>) -> (r: Result<String, TraceError>)
        ensures
            r is Err <==> self.root_ppid is None,
            r is Err ==> r == Err::<String, TraceError>(TraceError::ProcessLaunchFailure),
            r matches Ok(out) ==> out@ == filter_output(
                lines_view(lines@),
                self.start_time,
                self.root_ppid->0,
                Some(self.options@),
                Some((SANDBOX_MOUNT_DIR@, self.mnt_dir@)),
            ),
    {
        match self.root_ppid {
            None => Err(TraceError::ProcessLaunchFailure),
            Some(root) => {
                let ops = Some(self.options.clone());
                let rw = Some(PathRewrite { from: SANDBOX_MOUNT_DIR.to_owned(), to: self.mnt_dir.clone() });
                Ok(filter_log(lines, self.start_time, root, &ops, &rw))
            },
        }
    }
}

} // verus!
