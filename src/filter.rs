//! The causal filter end to end: from the raw lines of a trace log to the
//! `op|path` lines of one build's process tree, in file order.
use vstd::prelude::*;
use crate::lineage::{
    causal_filter, compute_lineage, entries_view, in_lineage, is_accepted, op_allowed,
    retained,
};
use crate::log_format::{lines_view, parse_line_spec, parse_lines, parse_log, EntryView, LogEntry};
use crate::text::{chars_of, push_char, push_chars, push_str};

verus! {

broadcast use vstd::std_specs::btree::group_btree_axioms;

/// Rewrites a leading path prefix: a path that starts with `from` gets `to` in
/// its place (an internal sandbox mount path for the one seen outside).
pub struct PathRewrite {
    pub from: String,
    pub to: String,
}

pub open spec fn rewrite_path(path: Seq<char>, from: Seq<char>, to: Seq<char>) -> Seq<char> {
    if from.len() <= path.len() && path.subrange(0, from.len() as int) == from {
        to + path.subrange(from.len() as int, path.len() as int)
    } else {
        path
    }
}

pub open spec fn rewrite_view(rw: Option<(Seq<char>, Seq<char>)>, path: Seq<char>) -> Seq<char> {
    match rw {
        Some(r) => rewrite_path(path, r.0, r.1),
        None => path,
    }
}

pub open spec fn rw_view(rw: Option<PathRewrite>) -> Option<(Seq<char>, Seq<char>)> {
    match rw {
        Some(r) => Some((r.from@, r.to@)),
        None => None,
    }
}

pub open spec fn ops_view(ops: Option<Vec<char>>) -> Option<Seq<char>> {
    match ops {
        Some(v) => Some(v@),
        None => None,
    }
}

/// One output line: `<op>|<path>` and a newline.
pub open spec fn output_line(e: EntryView, rw: Option<(Seq<char>, Seq<char>)>) -> Seq<char> {
    seq![e.op, '|'] + rewrite_view(rw, e.path) + seq!['\n']
}

/// The output for a sequence of entries: their lines, one after the other.
pub open spec fn render(es: Seq<EntryView>, rw: Option<(Seq<char>, Seq<char>)>) -> Seq<char>
    decreases es.len(),
{
    if es.len() == 0 {
        Seq::empty()
    } else {
        render(es.drop_last(), rw) + output_line(es.last(), rw)
    }
}

/// What the causal filter writes for a log: the lines of the entries that
/// belong to the process tree of `root`, that were logged at or after `start`
/// and whose op code `ops` lets through, in file order.
pub open spec fn filter_output(
    lines: Seq<Seq<char>>,
    start: u32,
    root: u32,
    ops: Option<Seq<char>>,
    rw: Option<(Seq<char>, Seq<char>)>,
) -> Seq<char> {
    render(causal_filter(parse_log(lines), start, root, ops), rw)
}

/// Whether the entries come in strictly increasing file order.
pub open spec fn in_file_order(es: Seq<EntryView>) -> bool {
    forall|i: int, j: int| 0 <= i < j < es.len() ==> es[i].order < es[j].order
}

proof fn lemma_parse_log_numbered(lines: Seq<Seq<char>>)
    ensures
        forall|i: int| 0 <= i < parse_log(lines).len() ==> #[trigger] parse_log(lines)[i].order == i + 1,
    decreases lines.len(),
{
    if lines.len() > 0 {
        lemma_parse_log_numbered(lines.drop_last());
        let prev = parse_log(lines.drop_last());
        if let Some(e) = parse_line_spec(lines.last(), prev.len() + 1) {
            assert(e.order == prev.len() + 1);
            assert(parse_log(lines) == prev.push(e));
        }
    }
}

proof fn lemma_retained_in_order(
    entries: Seq<EntryView>,
    part: Seq<EntryView>,
    start: u32,
    root: u32,
    ops: Option<Seq<char>>,
)
    requires
        in_file_order(part),
    ensures
        in_file_order(retained(entries, part, start, root, ops)),
        forall|k: int|
            0 <= k < retained(entries, part, start, root, ops).len() ==> exists|i: int|
                0 <= i < part.len() && part[i] == #[trigger] retained(entries, part, start, root, ops)[k],
    decreases part.len(),
{
    if part.len() > 0 {
        let prev = part.drop_last();
        assert(in_file_order(prev));
        lemma_retained_in_order(entries, prev, start, root, ops);
        let r = retained(entries, part, start, root, ops);
        let rp = retained(entries, prev, start, root, ops);
        assert forall|k: int| 0 <= k < r.len() implies exists|i: int|
            0 <= i < part.len() && part[i] == #[trigger] r[k] by {
            if k < rp.len() {
                let i = choose|i: int| 0 <= i < prev.len() && prev[i] == rp[k];
                assert(part[i] == r[k]);
            } else {
                assert(part[part.len() - 1] == r[k]);
            }
        }
        assert forall|a: int, b: int| 0 <= a < b < r.len() implies r[a].order < r[b].order by {
            if b >= rp.len() {
                let i = choose|i: int| 0 <= i < prev.len() && prev[i] == rp[a];
                assert(part[i] == r[a]);
            }
        }
    }
}

/// The filter keeps file order: the entries it keeps come out by increasing
/// position among the log's parsed lines, so no re-sorting is needed.
pub proof fn lemma_filter_keeps_file_order(
    lines: Seq<Seq<char>>,
    start: u32,
    root: u32,
    ops: Option<Seq<char>>,
)
    ensures
        in_file_order(causal_filter(parse_log(lines), start, root, ops)),
{
    lemma_parse_log_numbered(lines);
    lemma_retained_in_order(parse_log(lines), parse_log(lines), start, root, ops);
}

/// Filtering the same log with the same root pid, start time, op filter and
/// path rewrite twice gives the same output, character for character.
pub proof fn lemma_filter_deterministic(
    lines1: Seq<Seq<char>>,
    lines2: Seq<Seq<char>>,
    start: u32,
    root: u32,
    ops: Option<Seq<char>>,
    rw: Option<(Seq<char>, Seq<char>)>,
)
    requires
        lines1 == lines2,
    ensures
        filter_output(lines1, start, root, ops, rw) == filter_output(lines2, start, root, ops, rw),
        in_file_order(causal_filter(parse_log(lines1), start, root, ops)),
{
    lemma_filter_keeps_file_order(lines1, start, root, ops);
}

fn op_passes(ops: &Option<Vec<char>>, op: char) -> (r: bool)
    ensures
        r == op_allowed(ops_view(*ops), op),
{
    match ops {
        None => true,
        Some(v) => {
            let mut i: usize = 0;
            while i < v.len()
                invariant
                    ops_view(*ops) == Some(v@),
                    i <= v@.len(),
                    forall|j: int| 0 <= j < i ==> v@[j] != op,
                decreases v@.len() - i,
            {
                if v[i] == op {
                    assert(v@[i as int] == op);
                    return true;
                }
                i = i + 1;
            }
            false
        },
    }
}

/// The positions in `entries` of the entries that the causal filter keeps, in order.
pub fn filter_entries(entries: &Vec<LogEntry>, start: u32, root: u32, ops: &Option<Vec<char>>) -> (r:
    Vec<usize>)
    ensures
        forall|k: int| 0 <= k < r@.len() ==> r@[k] < entries@.len(),
        r@.map_values(|k: usize| entries@[k as int]@) == causal_filter(
            entries_view(entries@),
            start,
            root,
            ops_view(*ops),
        ),
{
    let ghost es = entries_view(entries@);
    let lineage = compute_lineage(entries, start, root);
    let mut r: Vec<usize> = Vec::new();
    let mut i: usize = 0;
    while i < entries.len()
        invariant
            es == entries_view(entries@),
            i <= entries@.len(),
            forall|p: u32| lineage@.contains(p) <==> in_lineage(es, start, root, p),
            forall|k: int| 0 <= k < r@.len() ==> r@[k] < entries@.len(),
            r@.map_values(|k: usize| entries@[k as int]@) == retained(
                es,
                es.subrange(0, i as int),
                start,
                root,
                ops_view(*ops),
            ),
        decreases entries@.len() - i,
    {
        let e = &entries[i];
        let keep = e.timestamp >= start && (e.pid == root || lineage.contains(&e.ppid)) && op_passes(
            ops,
            e.op,
        );
        proof {
            let part = es.subrange(0, i + 1);
            assert(part.drop_last() == es.subrange(0, i as int));
            assert(part.last() == e@);
            assert(keep == (is_accepted(es, start, root, e@) && op_allowed(ops_view(*ops), e@.op)));
        }
        if keep {
            r.push(i);
        }
        i = i + 1;
        assert(r@.map_values(|k: usize| entries@[k as int]@) =~= retained(
            es,
            es.subrange(0, i as int),
            start,
            root,
            ops_view(*ops),
        ));
    }
    assert(es.subrange(0, entries@.len() as int) == es);
    r
}

fn push_rewritten(dst: &mut String, path: &String, rw: &Option<PathRewrite>)
    ensures
        final(dst)@ == old(dst)@ + rewrite_view(rw_view(*rw), path@),
{
    match rw {
        None => push_str(dst, path.as_str()),
        Some(r) => {
            let p = chars_of(path.as_str());
            let f = chars_of(r.from.as_str());
            let mut is_prefix = f.len() <= p.len();
            let mut i: usize = 0;
            while is_prefix && i < f.len()
                invariant
                    p@ == path@,
                    f@ == r.from@,
                    i <= f@.len(),
                    is_prefix ==> f@.len() <= p@.len(),
                    is_prefix ==> forall|j: int| 0 <= j < i ==> p@[j] == f@[j],
                    !is_prefix ==> !(f@.len() <= p@.len() && p@.subrange(0, f@.len() as int) == f@),
                decreases f@.len() - i + (if is_prefix { 1int } else { 0int }),
            {
                if p[i] != f[i] {
                    assert(p@.subrange(0, f@.len() as int)[i as int] == p@[i as int]);
                    is_prefix = false;
                } else {
                    i = i + 1;
                }
            }
            if is_prefix {
                assert(p@.subrange(0, f@.len() as int) =~= f@);
                push_str(dst, r.to.as_str());
                push_chars(dst, &p, f.len(), p.len());
            } else {
                push_str(dst, path.as_str());
            }
        },
    }
}

/// Renders entries as output lines, `<op>|<path>` each, rewriting path prefixes
/// as `rw` says.
pub fn render_entries(entries: &Vec<LogEntry>, picked: &Vec<usize>, rw: &Option<PathRewrite>) -> (r:
    String)
    requires
        forall|k: int| 0 <= k < picked@.len() ==> picked@[k] < entries@.len(),
    ensures
        r@ == render(picked@.map_values(|k: usize| entries@[k as int]@), rw_view(*rw)),
{
    let ghost picked_view = picked@.map_values(|k: usize| entries@[k as int]@);
    let mut out = String::new();
    let mut i: usize = 0;
    while i < picked.len()
        invariant
            i <= picked@.len(),
            forall|k: int| 0 <= k < picked@.len() ==> picked@[k] < entries@.len(),
            picked_view == picked@.map_values(|k: usize| entries@[k as int]@),
            out@ == render(picked_view.subrange(0, i as int), rw_view(*rw)),
        decreases picked@.len() - i,
    {
        let e = &entries[picked[i]];
        let ghost before = out@;
        push_char(&mut out, e.op);
        push_char(&mut out, '|');
        push_rewritten(&mut out, &e.path, rw);
        push_char(&mut out, '\n');
        proof {
            let part = picked_view.subrange(0, i + 1);
            assert(part.drop_last() == picked_view.subrange(0, i as int));
            assert(part.last() == e@);
            assert(out@ =~= before + output_line(e@, rw_view(*rw)));
        }
        i = i + 1;
    }
    assert(picked_view.subrange(0, picked@.len() as int) == picked_view);
    out
}

/// The causal filter on the raw lines of a trace log: parse them, keep the
/// entries of the process tree of `root` logged at or after `start` whose op
/// code `ops` lets through, and render them in file order.
pub fn filter_log(
    lines: &Vec<String>,
    start: u32,
    root: u32,
    ops: &Option<Vec<char>>,
    rw: &Option<PathRewrite>,
) -> (r: String)
    ensures
        r@ == filter_output(lines_view(lines@), start, root, ops_view(*ops), rw_view(*rw)),
{
    let entries = parse_lines(lines);
    let picked = filter_entries(&entries, start, root, ops);
    proof {
        assert(entries_view(entries@) == parse_log(lines_view(lines@)));
    }
    render_entries(&entries, &picked, rw)
}

} // verus!
