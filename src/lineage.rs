//! Causal filtering of a trace log: the set of pids that the log itself shows
//! to descend from a root pid, and the entries that belong to that process tree.
use vstd::prelude::*;
use std::collections::BTreeSet;
use crate::log_format::{EntryView, LogEntry};

verus! {

broadcast use vstd::std_specs::btree::group_btree_axioms;

/// An entry at or after the run's start time; older ones come from earlier runs.
pub open spec fn is_live(e: EntryView, start: u32) -> bool {
    e.timestamp >= start
}

/// The pids that one pass over `entries` adds to `s`: the pid of every live
/// entry whose logged parent is in `s`.
pub open spec fn expand(entries: Seq<EntryView>, start: u32, s: Set<u32>) -> Set<u32> {
    s.union(
        Set::new(
            |p: u32|
                exists|i: int|
                    0 <= i < entries.len() && is_live(#[trigger] entries[i], start) && s.contains(
                        entries[i].ppid,
                    ) && entries[i].pid == p,
        ),
    )
}

/// The lineage after `n` passes, starting from the root alone.
pub open spec fn lineage_after(entries: Seq<EntryView>, start: u32, root: u32, n: nat) -> Set<u32>
    decreases n,
{
    if n == 0 {
        set![root]
    } else {
        expand(entries, start, lineage_after(entries, start, root, (n - 1) as nat))
    }
}

/// Whether the log shows `p` to descend from `root` (the root included).
pub open spec fn in_lineage(entries: Seq<EntryView>, start: u32, root: u32, p: u32) -> bool {
    exists|n: nat| #[trigger] lineage_after(entries, start, root, n).contains(p)
}

/// Whether an entry belongs to the root's process tree: it is live, and it is
/// the root's own or its logged parent is in the lineage.
pub open spec fn is_accepted(entries: Seq<EntryView>, start: u32, root: u32, e: EntryView) -> bool {
    is_live(e, start) && (e.pid == root || in_lineage(entries, start, root, e.ppid))
}

/// Whether `ops` lets an op code through: no filter lets every code through.
pub open spec fn op_allowed(ops: Option<Seq<char>>, op: char) -> bool {
    match ops {
        Some(o) => o.contains(op),
        None => true,
    }
}

/// The accepted entries of `part` whose op code `ops` lets through, in order;
/// the lineage is the one of the whole log `entries`.
pub open spec fn retained(
    entries: Seq<EntryView>,
    part: Seq<EntryView>,
    start: u32,
    root: u32,
    ops: Option<Seq<char>>,
) -> Seq<EntryView>
    decreases part.len(),
{
    if part.len() == 0 {
        Seq::empty()
    } else {
        let prev = retained(entries, part.drop_last(), start, root, ops);
        if is_accepted(entries, start, root, part.last()) && op_allowed(ops, part.last().op) {
            prev.push(part.last())
        } else {
            prev
        }
    }
}

/// The entries that the causal filter keeps from the log `entries`.
pub open spec fn causal_filter(
    entries: Seq<EntryView>,
    start: u32,
    root: u32,
    ops: Option<Seq<char>>,
) -> Seq<EntryView> {
    retained(entries, entries, start, root, ops)
}

pub open spec fn entries_view(entries: Seq<LogEntry>) -> Seq<EntryView> {
    entries.map_values(|e: LogEntry| e@)
}

/// Whether `s` holds `root` and is closed under the rule that adds the pid of a
/// live entry whose logged parent it holds.
pub open spec fn is_closed(entries: Seq<EntryView>, start: u32, root: u32, s: Set<u32>) -> bool {
    &&& s.contains(root)
    &&& forall|i: int|
        0 <= i < entries.len() && is_live(#[trigger] entries[i], start) && s.contains(entries[i].ppid)
            ==> s.contains(entries[i].pid)
}

/// Each pass only adds pids.
pub proof fn lemma_lineage_grows(entries: Seq<EntryView>, start: u32, root: u32, m: nat, n: nat)
    requires
        m <= n,
    ensures
        lineage_after(entries, start, root, m).subset_of(lineage_after(entries, start, root, n)),
    decreases n - m,
{
    if m < n {
        lemma_lineage_grows(entries, start, root, m, (n - 1) as nat);
    }
}

/// Every pass stays within a closed set.
pub proof fn lemma_lineage_within_closed(
    entries: Seq<EntryView>,
    start: u32,
    root: u32,
    s: Set<u32>,
    n: nat,
)
    requires
        is_closed(entries, start, root, s),
    ensures
        lineage_after(entries, start, root, n).subset_of(s),
    decreases n,
{
    if n > 0 {
        lemma_lineage_within_closed(entries, start, root, s, (n - 1) as nat);
        let prev = lineage_after(entries, start, root, (n - 1) as nat);
        assert forall|p: u32| #[trigger] lineage_after(entries, start, root, n).contains(p) implies s.contains(p) by {
            if !prev.contains(p) {
                let i = choose|i: int|
                    0 <= i < entries.len() && is_live(#[trigger] entries[i], start) && prev.contains(
                        entries[i].ppid,
                    ) && entries[i].pid == p;
            }
        }
    }
}

/// The pid of a live entry whose logged parent is in the lineage is in it too.
proof fn lemma_lineage_step(entries: Seq<EntryView>, start: u32, root: u32, i: int)
    requires
        0 <= i < entries.len(),
        is_live(entries[i], start),
        in_lineage(entries, start, root, entries[i].ppid),
    ensures
        in_lineage(entries, start, root, entries[i].pid),
{
    let n = choose|n: nat| #[trigger] lineage_after(entries, start, root, n).contains(entries[i].ppid);
    assert(lineage_after(entries, start, root, n + 1).contains(entries[i].pid));
}

/// The distinct pids that carry entries of the log.
pub open spec fn log_pids(entries: Seq<EntryView>) -> Set<u32> {
    entries.map_values(|e: EntryView| e.pid).to_set()
}

proof fn lemma_lineage_within_pids(entries: Seq<EntryView>, start: u32, root: u32, n: nat)
    ensures
        lineage_after(entries, start, root, n).subset_of(log_pids(entries).insert(root)),
    decreases n,
{
    if n > 0 {
        lemma_lineage_within_pids(entries, start, root, (n - 1) as nat);
        let prev = lineage_after(entries, start, root, (n - 1) as nat);
        assert forall|p: u32| #[trigger] lineage_after(entries, start, root, n).contains(p) implies log_pids(
            entries,
        ).insert(root).contains(p) by {
            if !prev.contains(p) {
                let i = choose|i: int|
                    0 <= i < entries.len() && is_live(#[trigger] entries[i], start) && prev.contains(
                        entries[i].ppid,
                    ) && entries[i].pid == p;
                assert(entries.map_values(|e: EntryView| e.pid)[i] == p);
            }
        }
    }
}

/// Once a pass adds nothing, no later pass does.
proof fn lemma_lineage_stays(entries: Seq<EntryView>, start: u32, root: u32, m: nat, n: nat)
    requires
        m <= n,
        lineage_after(entries, start, root, m + 1) == lineage_after(entries, start, root, m),
    ensures
        lineage_after(entries, start, root, n) == lineage_after(entries, start, root, m),
    decreases n - m,
{
    if m < n {
        lemma_lineage_stays(entries, start, root, m, (n - 1) as nat);
    }
}

/// Until the lineage settles, each pass adds at least one pid.
proof fn lemma_lineage_settles_or_grows(entries: Seq<EntryView>, start: u32, root: u32, m: nat)
    ensures
        lineage_after(entries, start, root, m).finite(),
        lineage_after(entries, start, root, m + 1) == lineage_after(entries, start, root, m)
            || lineage_after(entries, start, root, m).len() >= m + 1,
    decreases m,
{
    let pids = log_pids(entries).insert(root);
    entries.map_values(|e: EntryView| e.pid).lemma_cardinality_of_set();
    lemma_lineage_within_pids(entries, start, root, m);
    vstd::set_lib::lemma_len_subset(lineage_after(entries, start, root, m), pids);
    if m == 0 {
        assert(set![root].len() == 1);
    } else {
        let prev = lineage_after(entries, start, root, (m - 1) as nat);
        let cur = lineage_after(entries, start, root, m);
        lemma_lineage_settles_or_grows(entries, start, root, (m - 1) as nat);
        if cur != lineage_after(entries, start, root, m + 1) && prev != cur {
            lemma_lineage_grows(entries, start, root, (m - 1) as nat, m);
            vstd::set_lib::lemma_len_subset(prev, cur);
            if prev.len() == cur.len() {
                vstd::set_lib::lemma_subset_equality(prev, cur);
            }
        }
    }
}

/// Lineage expansion settles within as many passes as the log has distinct
/// pids: one more pass after that adds nothing, and what it holds then is the
/// whole lineage.
pub proof fn lemma_lineage_settles(entries: Seq<EntryView>, start: u32, root: u32)
    ensures
        ({
            let k = log_pids(entries).len();
            &&& lineage_after(entries, start, root, k + 1) == lineage_after(entries, start, root, k)
            &&& forall|p: u32|
                in_lineage(entries, start, root, p) <==> lineage_after(entries, start, root, k).contains(p)
        }),
{
    let k = log_pids(entries).len();
    let pids = log_pids(entries).insert(root);
    let lk = lineage_after(entries, start, root, k);
    entries.map_values(|e: EntryView| e.pid).lemma_cardinality_of_set();
    lemma_lineage_settles_or_grows(entries, start, root, k);
    lemma_lineage_within_pids(entries, start, root, k);
    lemma_lineage_within_pids(entries, start, root, k + 1);
    if lineage_after(entries, start, root, k + 1) != lk {
        vstd::set_lib::lemma_len_subset(lk, pids);
        vstd::set_lib::lemma_subset_equality(lk, pids);
        lemma_lineage_grows(entries, start, root, k, k + 1);
        assert(lineage_after(entries, start, root, k + 1) =~= lk);
    }
    assert forall|p: u32| in_lineage(entries, start, root, p) implies lk.contains(p) by {
        let n = choose|n: nat| #[trigger] lineage_after(entries, start, root, n).contains(p);
        if n <= k {
            lemma_lineage_grows(entries, start, root, n, k);
        } else {
            lemma_lineage_stays(entries, start, root, k, n);
        }
    }
}

/// The lineage depends on which entries the log holds, not on their order:
/// two logs with the same entries, in any order, give the same lineage.
pub proof fn lemma_lineage_ignores_order(
    a: Seq<EntryView>,
    b: Seq<EntryView>,
    start: u32,
    root: u32,
)
    requires
        a.to_set() == b.to_set(),
    ensures
        forall|p: u32| in_lineage(a, start, root, p) <==> in_lineage(b, start, root, p),
{
    assert forall|n: nat| lineage_after(a, start, root, n) == lineage_after(b, start, root, n) by {
        lemma_same_passes(a, b, start, root, n);
    }
    assert forall|p: u32| in_lineage(a, start, root, p) implies in_lineage(b, start, root, p) by {
        let n = choose|n: nat| #[trigger] lineage_after(a, start, root, n).contains(p);
        assert(lineage_after(b, start, root, n).contains(p));
    }
    assert forall|p: u32| in_lineage(b, start, root, p) implies in_lineage(a, start, root, p) by {
        let n = choose|n: nat| #[trigger] lineage_after(b, start, root, n).contains(p);
        assert(lineage_after(a, start, root, n).contains(p));
    }
}

proof fn lemma_same_passes(a: Seq<EntryView>, b: Seq<EntryView>, start: u32, root: u32, n: nat)
    requires
        a.to_set() == b.to_set(),
    ensures
        lineage_after(a, start, root, n) == lineage_after(b, start, root, n),
    decreases n,
{
    if n > 0 {
        lemma_same_passes(a, b, start, root, (n - 1) as nat);
        let prev = lineage_after(a, start, root, (n - 1) as nat);
        assert forall|p: u32| expand(a, start, prev).contains(p) implies expand(b, start, prev).contains(p) by {
            if !prev.contains(p) {
                let i = choose|i: int|
                    0 <= i < a.len() && is_live(#[trigger] a[i], start) && prev.contains(a[i].ppid)
                        && a[i].pid == p;
                assert(a.to_set().contains(a[i]));
                let j = choose|j: int| 0 <= j < b.len() && b[j] == a[i];
                assert(is_live(b[j], start));
            }
        }
        assert forall|p: u32| expand(b, start, prev).contains(p) implies expand(a, start, prev).contains(p) by {
            if !prev.contains(p) {
                let i = choose|i: int|
                    0 <= i < b.len() && is_live(#[trigger] b[i], start) && prev.contains(b[i].ppid)
                        && b[i].pid == p;
                assert(b.to_set().contains(b[i]));
                let j = choose|j: int| 0 <= j < a.len() && a[j] == b[i];
                assert(is_live(a[j], start));
            }
        }
        assert(expand(a, start, prev) =~= expand(b, start, prev));
    }
}

proof fn lemma_push_contains<T>(s: Seq<T>, x: T)
    ensures
        forall|p: T| #[trigger] s.push(x).contains(p) <==> (s.contains(p) || p == x),
{
    assert forall|p: T| #[trigger] s.push(x).contains(p) <==> (s.contains(p) || p == x) by {
        if s.contains(p) {
            let j = choose|j: int| 0 <= j < s.len() && s[j] == p;
            assert(s.push(x)[j] == p);
        }
        if p == x {
            assert(s.push(x)[s.len() as int] == p);
        }
        if s.push(x).contains(p) && p != x {
            let j = choose|j: int| 0 <= j < s.len() + 1 && s.push(x)[j] == p;
            assert(s[j] == p);
        }
    }
}

/// The lineage of `root` in the log: repeated passes over the entries not yet
/// settled, until a pass settles none. An entry settles when it is older than
/// `start` (dropped), or when it is the root's or its logged parent is in the
/// lineage (its pid joins).
pub fn compute_lineage(entries: &Vec<LogEntry>, start: u32, root: u32) -> (r: BTreeSet<u32>)
    ensures
        forall|p: u32| r@.contains(p) <==> in_lineage(entries_view(entries@), start, root, p),
{
    let ghost es = entries_view(entries@);
    let n: usize = entries.len();
    let mut lineage: BTreeSet<u32> = BTreeSet::new();
    lineage.insert(root);
    proof {
        assert(lineage_after(es, start, root, 0).contains(root));
    }
    let mut remaining: Vec<usize> = Vec::new();
    let mut i: usize = 0;
    while i < entries.len()
        invariant
            i <= entries@.len(),
            remaining@ == Seq::new(i as nat, |j: int| j as usize),
        decreases entries@.len() - i,
    {
        remaining.push(i);
        i = i + 1;
    }
    assert forall|j: usize| j < entries@.len() implies remaining@.contains(j) by {
        assert(remaining@[j as int] == j);
    }
    loop
        invariant
            es == entries_view(entries@),
            es.len() == entries@.len(),
            n == entries@.len(),
            lineage@.contains(root),
            forall|p: u32| lineage@.contains(p) ==> in_lineage(es, start, root, p),
            forall|k: int| 0 <= k < remaining@.len() ==> remaining@[k] < entries@.len(),
            forall|j: usize|
                j < entries@.len() ==> remaining@.contains(j) || !is_live(#[trigger] es[j as int], start)
                    || lineage@.contains(es[j as int].pid),
        decreases remaining@.len(),
    {
        let ghost before = lineage@;
        let mut next: Vec<usize> = Vec::new();
        let mut k: usize = 0;
        while k < remaining.len()
            invariant
                es == entries_view(entries@),
            es.len() == entries@.len(),
            n == entries@.len(),
                k <= remaining@.len(),
                next@.len() <= k,
                lineage@.contains(root),
                forall|p: u32| lineage@.contains(p) ==> in_lineage(es, start, root, p),
                forall|q: int| 0 <= q < remaining@.len() ==> remaining@[q] < entries@.len(),
                forall|q: int| 0 <= q < next@.len() ==> next@[q] < entries@.len(),
                forall|j: usize|
                    j < entries@.len() && !remaining@.contains(j) ==> !is_live(
                        #[trigger] es[j as int],
                        start,
                    ) || lineage@.contains(es[j as int].pid),
                forall|q: int|
                    0 <= q < k ==> next@.contains(#[trigger] remaining@[q]) || !is_live(
                        es[remaining@[q] as int],
                        start,
                    ) || lineage@.contains(es[remaining@[q] as int].pid),
                next@.len() == k ==> lineage@ == before,
                next@.len() == k ==> forall|q: int|
                    0 <= q < k ==> #[trigger] next@[q] == remaining@[q] && is_live(
                        es[remaining@[q] as int],
                        start,
                    ) && !lineage@.contains(es[remaining@[q] as int].ppid),
                forall|p: u32| before.contains(p) ==> lineage@.contains(p),
            decreases remaining@.len() - k,
        {
            let idx = remaining[k];
            let e = &entries[idx];
            assert(es[idx as int] == e@);
            if e.timestamp < start {
                // logged by an earlier run: dropped for good
            } else if e.pid == root || lineage.contains(&e.ppid) {
                if !lineage.contains(&e.pid) {
                    proof {
                        if e.pid != root {
                            lemma_lineage_step(es, start, root, idx as int);
                        }
                    }
                    lineage.insert(e.pid);
                }
            } else {
                proof {
                    lemma_push_contains(next@, idx);
                }
                next.push(idx);
            }
            k = k + 1;
        }
        if next.len() == remaining.len() {
            proof {
                assert forall|j: int|
                    0 <= j < es.len() && is_live(#[trigger] es[j], start) && lineage@.contains(
                        es[j].ppid,
                    ) implies lineage@.contains(es[j].pid) by {
                    let ju = j as usize;
                    assert(es[ju as int] == es[j]);
                    if remaining@.contains(ju) {
                        let q = choose|q: int| 0 <= q < remaining@.len() && remaining@[q] == ju;
                        assert(next@[q] == remaining@[q]);
                    }
                }
                assert forall|p: u32| in_lineage(es, start, root, p) implies lineage@.contains(p) by {
                    let n = choose|n: nat| #[trigger] lineage_after(es, start, root, n).contains(p);
                    lemma_lineage_within_closed(es, start, root, lineage@, n);
                }
            }
            return lineage;
        }
        proof {
            assert forall|j: usize|
                j < entries@.len() implies next@.contains(j) || !is_live(#[trigger] es[j as int], start)
                || lineage@.contains(es[j as int].pid) by {
                if remaining@.contains(j) {
                    let q = choose|q: int| 0 <= q < remaining@.len() && remaining@[q] == j;
                    assert(next@.contains(remaining@[q]) || !is_live(es[remaining@[q] as int], start)
                        || lineage@.contains(es[remaining@[q] as int].pid));
                }
            }
        }
        remaining = next;
    }
}

} // verus!
