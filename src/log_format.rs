//! The trace log's line format:
//! `[INFO] -> <unix_seconds>: <pid>|<ppid>|<op>|<path...>`.
//!
//! The writer side produces the message after the level tag; the reader side
//! parses whole lines, drops those that do not match, and numbers the rest.
use vstd::prelude::*;
use crate::text::{
    all_digits, chars_of, decimal, digits_value, is_digit, lemma_decimal_reads_back, parse_digits,
    parse_u32_spec, push_char, push_chars, push_decimal, push_str,
};

verus! {

/// One parsed line of the trace log.
pub struct LogEntry {
    pub timestamp: u32,
    pub pid: u32,
    /// The parent pid as it was logged, which may differ from the true ancestry.
    pub ppid: u32,
    pub op: char,
    pub path: String,
    /// Position among the lines that matched the format, counting from 1.
    pub order: usize,
}

/// The mathematical value of a [`LogEntry`].
pub struct EntryView {
    pub timestamp: u32,
    pub pid: u32,
    pub ppid: u32,
    pub op: char,
    pub path: Seq<char>,
    pub order: nat,
}

impl View for LogEntry {
    type V = EntryView;

    open spec fn view(&self) -> EntryView {
        EntryView {
            timestamp: self.timestamp,
            pid: self.pid,
            ppid: self.ppid,
            op: self.op,
            path: self.path@,
            order: self.order as nat,
        }
    }
}

/// The level tag that starts every trace line, with the arrow after it.
pub open spec fn line_prefix() -> Seq<char> {
    seq!['[', 'I', 'N', 'F', 'O', ']', ' ', '-', '>', ' ']
}

/// The level tag that the logger writes before each trace message.
pub open spec fn level_tag() -> Seq<char> {
    seq!['[', 'I', 'N', 'F', 'O', ']', ' ']
}

pub open spec fn is_op_char(c: char) -> bool {
    'a' <= c && c <= 'z'
}

/// The end of the run of digits that starts at `i`.
pub open spec fn digits_end(s: Seq<char>, i: int) -> int
    decreases s.len() - i,
{
    if 0 <= i < s.len() && is_digit(s[i]) {
        digits_end(s, i + 1)
    } else {
        i
    }
}

pub open spec fn no_newline(s: Seq<char>) -> bool {
    forall|i: int| 0 <= i < s.len() ==> #[trigger] s[i] != '\n'
}

/// The entry that the line `s` records, numbered `order`, or `None` where the
/// line does not follow the format or a number does not fit in a `u32`.
pub open spec fn parse_line_spec(s: Seq<char>, order: nat) -> Option<EntryView> {
    let e1 = digits_end(s, 10);
    let b = e1 + 2;
    let e2 = digits_end(s, b);
    let c = e2 + 1;
    let e3 = digits_end(s, c);
    if s.len() >= 10 && s.subrange(0, 10) == line_prefix() && e1 + 1 < s.len() && s[e1] == ':'
        && s[e1 + 1] == ' ' && e2 < s.len() && s[e2] == '|' && e3 + 2 < s.len() && s[e3] == '|'
        && is_op_char(s[e3 + 1]) && s[e3 + 2] == '|' && no_newline(s.subrange(e3 + 3, s.len() as int))
        && parse_u32_spec(s.subrange(10, e1)) is Some && parse_u32_spec(s.subrange(b, e2)) is Some
        && parse_u32_spec(s.subrange(c, e3)) is Some {
        Some(
            EntryView {
                timestamp: parse_u32_spec(s.subrange(10, e1))->0,
                pid: parse_u32_spec(s.subrange(b, e2))->0,
                ppid: parse_u32_spec(s.subrange(c, e3))->0,
                op: s[e3 + 1],
                path: s.subrange(e3 + 3, s.len() as int),
                order,
            },
        )
    } else {
        None
    }
}

/// The entries of a log, in file order, numbered from 1 among the lines that parse.
pub open spec fn parse_log(lines: Seq<Seq<char>>) -> Seq<EntryView>
    decreases lines.len(),
{
    if lines.len() == 0 {
        Seq::empty()
    } else {
        let prev = parse_log(lines.drop_last());
        match parse_line_spec(lines.last(), prev.len() + 1) {
            Some(e) => prev.push(e),
            None => prev,
        }
    }
}

pub open spec fn lines_view(lines: Seq<String>) -> Seq<Seq<char>> {
    lines.map_values(|l: String| l@)
}

/// A signed number in decimal: a minus sign before the digits of a negative one.
pub open spec fn signed_decimal(n: int) -> Seq<char> {
    if n < 0 {
        seq!['-'] + decimal((-n) as nat)
    } else {
        decimal(n as nat)
    }
}

/// The paths of a record, joined by `|`.
pub open spec fn joined_paths(paths: Seq<Seq<char>>) -> Seq<char>
    decreases paths.len(),
{
    if paths.len() == 0 {
        Seq::empty()
    } else if paths.len() == 1 {
        paths[0]
    } else {
        joined_paths(paths.drop_last()) + seq!['|'] + paths.last()
    }
}

/// The message of one trace record, which the logger writes after the level
/// tag: `-> <time>: <pid>|<ppid>|<op>|<paths>`.
pub open spec fn trace_message_spec(
    time: i64,
    pid: u32,
    ppid: i64,
    op: char,
    paths: Seq<Seq<char>>,
) -> Seq<char> {
    seq!['-', '>', ' '] + signed_decimal(time as int) + seq![':', ' '] + decimal(pid as nat) + seq!['|']
        + signed_decimal(ppid as int) + seq!['|', op, '|'] + joined_paths(paths)
}

proof fn lemma_digits_end_at(s: Seq<char>, i: int, e: int)
    requires
        0 <= i <= e < s.len(),
        forall|j: int| i <= j < e ==> is_digit(#[trigger] s[j]),
        !is_digit(s[e]),
    ensures
        digits_end(s, i) == e,
    decreases e - i,
{
    if i < e {
        lemma_digits_end_at(s, i + 1, e);
    }
}

/// A trace record, once the logger has put the level tag before it, reads
/// back as the entry it records: the parser recovers the time, pid, parent
/// pid, op code and paths that the writer was given, wherever those fit the
/// line format (times and pids that fit a `u32`, a lowercase op code, no
/// newline in the paths).
pub proof fn lemma_trace_line_reads_back(
    time: i64,
    pid: u32,
    ppid: i64,
    op: char,
    paths: Seq<Seq<char>>,
    order: nat,
)
    requires
        0 <= time <= u32::MAX,
        0 <= ppid <= u32::MAX,
        is_op_char(op),
        no_newline(joined_paths(paths)),
    ensures
        parse_line_spec(level_tag() + trace_message_spec(time, pid, ppid, op, paths), order) == Some(
            EntryView {
                timestamp: time as u32,
                pid,
                ppid: ppid as u32,
                op,
                path: joined_paths(paths),
                order,
            },
        ),
{
    let d1 = decimal(time as nat);
    let d2 = decimal(pid as nat);
    let d3 = decimal(ppid as nat);
    let p = joined_paths(paths);
    lemma_decimal_reads_back(time as nat);
    lemma_decimal_reads_back(pid as nat);
    lemma_decimal_reads_back(ppid as nat);
    let s = level_tag() + trace_message_spec(time, pid, ppid, op, paths);
    let e1 = 10 + d1.len() as int;
    let b = e1 + 2;
    let e2 = b + d2.len() as int;
    let c = e2 + 1;
    let e3 = c + d3.len() as int;
    assert(s =~= line_prefix() + d1 + seq![':', ' '] + d2 + seq!['|'] + d3 + seq!['|', op, '|'] + p);
    assert(s.len() == e3 + 3 + p.len());
    assert(s.subrange(0, 10) =~= line_prefix());
    assert(s.subrange(10, e1) =~= d1);
    assert(s.subrange(b, e2) =~= d2);
    assert(s.subrange(c, e3) =~= d3);
    assert(s.subrange(e3 + 3, s.len() as int) =~= p);
    assert(s[e1] == ':' && s[e1 + 1] == ' ');
    assert(s[e2] == '|');
    assert(s[e3] == '|' && s[e3 + 1] == op && s[e3 + 2] == '|');
    assert forall|j: int| 10 <= j < e1 implies is_digit(#[trigger] s[j]) by {
        assert(s[j] == s.subrange(10, e1)[j - 10]);
    }
    assert forall|j: int| b <= j < e2 implies is_digit(#[trigger] s[j]) by {
        assert(s[j] == s.subrange(b, e2)[j - b]);
    }
    assert forall|j: int| c <= j < e3 implies is_digit(#[trigger] s[j]) by {
        assert(s[j] == s.subrange(c, e3)[j - c]);
    }
    lemma_digits_end_at(s, 10, e1);
    lemma_digits_end_at(s, b, e2);
    lemma_digits_end_at(s, c, e3);
}

fn push_signed(dst: &mut String, n: i64)
    ensures
        final(dst)@ == old(dst)@ + signed_decimal(n as int),
{
    if n < 0 {
        push_char(dst, '-');
        let m: u64 = if n == i64::MIN {
            0x8000_0000_0000_0000u64
        } else {
            (-n) as u64
        };
        let ghost mid = dst@;
        push_decimal(dst, m);
        assert(dst@ =~= old(dst)@ + signed_decimal(n as int));
    } else {
        push_decimal(dst, n as u64);
    }
}

/// Formats one trace record: the time in Unix seconds, the pid of the
/// requester, its parent pid (negative where it could not be found), the op
/// code, and the paths that the request touched.
pub fn trace_message(time: i64, pid: u32, ppid: i64, op: char, paths: &Vec<String>) -> (r: String)
    ensures
        r@ == trace_message_spec(time, pid, ppid, op, lines_view(paths@)),
{
    let mut out = String::new();
    push_str(&mut out, "-> ");
    proof {
        reveal_strlit("-> ");
    }
    push_signed(&mut out, time);
    push_char(&mut out, ':');
    push_char(&mut out, ' ');
    push_decimal(&mut out, pid as u64);
    push_char(&mut out, '|');
    push_signed(&mut out, ppid);
    push_char(&mut out, '|');
    push_char(&mut out, op);
    push_char(&mut out, '|');
    let ghost head = out@;
    let mut i: usize = 0;
    while i < paths.len()
        invariant
            i <= paths@.len(),
            out@ == head + joined_paths(lines_view(paths@.subrange(0, i as int))),
        decreases paths@.len() - i,
    {
        let ghost before = out@;
        if i > 0 {
            push_char(&mut out, '|');
        }
        push_str(&mut out, paths[i].as_str());
        proof {
            let part = lines_view(paths@.subrange(0, i + 1));
            assert(part.drop_last() == lines_view(paths@.subrange(0, i as int)));
            assert(part.last() == paths@[i as int]@);
            if i == 0 {
                assert(part[0] == paths@[0]@);
            }
        }
        i = i + 1;
        assert(out@ =~= head + joined_paths(lines_view(paths@.subrange(0, i as int))));
    }
    assert(paths@.subrange(0, paths@.len() as int) == paths@);
    assert(out@ =~= trace_message_spec(time, pid, ppid, op, lines_view(paths@)));
    out
}

fn digits_end_exec(v: &Vec<char>, i: usize) -> (r: usize)
    requires
        i <= v@.len(),
    ensures
        r as int == digits_end(v@, i as int),
        i <= r <= v@.len(),
{
    let mut j = i;
    while j < v.len() && '0' <= v[j] && v[j] <= '9'
        invariant
            i <= j <= v@.len(),
            digits_end(v@, i as int) == digits_end(v@, j as int),
        decreases v@.len() - j,
    {
        j = j + 1;
    }
    j
}

fn has_no_newline(v: &Vec<char>, from: usize) -> (r: bool)
    requires
        from <= v@.len(),
    ensures
        r == no_newline(v@.subrange(from as int, v@.len() as int)),
{
    let mut j = from;
    while j < v.len()
        invariant
            from <= j <= v@.len(),
            no_newline(v@.subrange(from as int, j as int)),
        decreases v@.len() - j,
    {
        if v[j] == '\n' {
            assert(v@.subrange(from as int, v@.len() as int)[j - from] == '\n');
            return false;
        }
        j = j + 1;
        assert forall|k: int| 0 <= k < j - from implies #[trigger] v@.subrange(
            from as int,
            j as int,
        )[k] != '\n' by {
            if k < j - 1 - from {
                assert(v@.subrange(from as int, j as int)[k] == v@.subrange(
                    from as int,
                    j - 1,
                )[k]);
            }
        }
    }
    true
}

fn has_prefix(v: &Vec<char>) -> (r: bool)
    ensures
        r == (v@.len() >= 10 && v@.subrange(0, 10) == line_prefix()),
{
    if v.len() < 10 {
        return false;
    }
    let r = v[0] == '[' && v[1] == 'I' && v[2] == 'N' && v[3] == 'F' && v[4] == 'O' && v[5] == ']'
        && v[6] == ' ' && v[7] == '-' && v[8] == '>' && v[9] == ' ';
    assert(r ==> v@.subrange(0, 10) =~= line_prefix());
    assert(v@.subrange(0, 10) == line_prefix() ==> v@.subrange(0, 10)[9] == ' ' && v@.subrange(
        0,
        10,
    )[8] == '>');
    r
}

/// Parses one line of the trace log; `order` numbers the entry.
pub fn parse_line(line: &str, order: usize) -> (r: Option<LogEntry>)
    ensures
        r matches Some(e) ==> parse_line_spec(line@, order as nat) == Some(e@),
        r is None ==> parse_line_spec(line@, order as nat) is None,
{
    let v = chars_of(line);
    let ghost s = v@;
    if !has_prefix(&v) {
        return None;
    }
    let e1 = digits_end_exec(&v, 10);
    if !(v.len() - e1 > 1 && v[e1] == ':' && v[e1 + 1] == ' ') {
        return None;
    }
    let b = e1 + 2;
    let e2 = digits_end_exec(&v, b);
    if !(e2 < v.len() && v[e2] == '|') {
        return None;
    }
    let c = e2 + 1;
    let e3 = digits_end_exec(&v, c);
    if !(v.len() - e3 > 2 && v[e3] == '|' && 'a' <= v[e3 + 1] && v[e3 + 1] <= 'z' && v[e3 + 2]
        == '|') {
        return None;
    }
    if !has_no_newline(&v, e3 + 3) {
        return None;
    }
    let timestamp = match parse_digits(&v, 10, e1) {
        Some(x) => x,
        None => return None,
    };
    let pid = match parse_digits(&v, b, e2) {
        Some(x) => x,
        None => return None,
    };
    let ppid = match parse_digits(&v, c, e3) {
        Some(x) => x,
        None => return None,
    };
    let mut path = String::new();
    push_chars(&mut path, &v, e3 + 3, v.len());
    assert(path@ == s.subrange(e3 + 3, s.len() as int));
    Some(LogEntry { timestamp, pid, ppid, op: v[e3 + 1], path, order })
}

/// Parses the lines of a trace log, in order: lines that do not follow the
/// format are dropped, and the others are numbered from 1.
pub fn parse_lines(lines: &Vec<String>) -> (r: Vec<LogEntry>)
    ensures
        r@.map_values(|e: LogEntry| e@) == parse_log(lines_view(lines@)),
{
    let mut r: Vec<LogEntry> = Vec::new();
    let mut i: usize = 0;
    while i < lines.len()
        invariant
            i <= lines@.len(),
            r@.len() <= i,
            r@.map_values(|e: LogEntry| e@) == parse_log(lines_view(lines@.subrange(0, i as int))),
        decreases lines@.len() - i,
    {
        let ghost before = lines_view(lines@.subrange(0, i as int));
        let order = r.len() + 1;
        let parsed = parse_line(lines[i].as_str(), order);
        proof {
            let after = lines_view(lines@.subrange(0, i + 1));
            assert(after.drop_last() == before);
            assert(after.last() == lines@[i as int]@);
            lemma_parse_log_len(before);
        }
        match parsed {
            Some(e) => {
                r.push(e);
            },
            None => {},
        }
        i = i + 1;
        assert(r@.map_values(|e: LogEntry| e@) =~= parse_log(
            lines_view(lines@.subrange(0, i as int)),
        ));
    }
    assert(lines@.subrange(0, lines@.len() as int) == lines@);
    r
}

proof fn lemma_parse_log_len(lines: Seq<Seq<char>>)
    ensures
        parse_log(lines).len() <= lines.len(),
    decreases lines.len(),
{
    if lines.len() > 0 {
        lemma_parse_log_len(lines.drop_last());
    }
}

} // verus!
