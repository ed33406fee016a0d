use vstd::prelude::*;

use crate::metrics::{GpuMetrics, GpuProcessInfo};

verus! {

/// Processes shown per device.
pub const TOP_PROCESS_LIMIT: usize = 5;

/// One process as the driver lists it on a device.
#[derive(Debug, Clone, Copy, PartialEq, Eq, Structural)]
pub struct ProcEntry {
    pub pid: u32,
    /// Bytes of GPU memory in use; `None` when the driver does not report it.
    pub vram: Option<u64>,
    /// The MIG GPU instance the process runs on, when the driver says.
    pub gpu_instance_id: Option<u32>,
}

/// Display order: known memory use largest first, then processes without a
/// figure by ascending PID. `precedes(a, b)` holds when `a` goes strictly
/// before `b`.
pub open spec fn precedes(a: ProcEntry, b: ProcEntry) -> bool {
    match (a.vram, b.vram) {
        (Some(av), Some(bv)) => av > bv,
        (Some(_), None) => true,
        (None, Some(_)) => false,
        (None, None) => a.pid < b.pid,
    }
}

/// `i` is the first position of `s` that no entry of `s` precedes.
pub open spec fn is_first_best(s: Seq<ProcEntry>, i: int) -> bool {
    &&& 0 <= i < s.len()
    &&& forall|j: int| 0 <= j < s.len() ==> !precedes(#[trigger] s[j], s[i])
    &&& forall|j: int| 0 <= j < i ==> precedes(s[i], #[trigger] s[j])
}

/// The first position of `s` that no entry of `s` precedes.
pub open spec fn first_best(s: Seq<ProcEntry>) -> int {
    choose|i: int| is_first_best(s, i)
}

/// The first `k` entries of `s` in display order, ties keeping their order
/// in `s`: what a stable sort followed by truncation to `k` gives.
pub open spec fn top_k(s: Seq<ProcEntry>, k: nat) -> Seq<ProcEntry>
    decreases k,
{
    if k == 0 || s.len() == 0 {
        Seq::empty()
    } else {
        let b = first_best(s);
        seq![s[b]] + top_k(s.remove(b), (k - 1) as nat)
    }
}

/// The entries of `s` whose PID did not occur earlier in `s`.
pub open spec fn first_by_pid(s: Seq<ProcEntry>) -> Seq<ProcEntry>
    decreases s.len(),
{
    if s.len() == 0 {
        s
    } else {
        let p = first_by_pid(s.drop_last());
        if exists|i: int| 0 <= i < p.len() && #[trigger] p[i].pid == s.last().pid {
            p
        } else {
            p.push(s.last())
        }
    }
}

/// The entries of `s` on GPU instance `gi`, in order.
pub open spec fn on_instance(s: Seq<ProcEntry>, gi: Option<u32>) -> Seq<ProcEntry> {
    s.filter(|e: ProcEntry| e.gpu_instance_id == gi)
}

/// Whether some entry of `s` names its GPU instance.
pub open spec fn any_instance_known(s: Seq<ProcEntry>) -> bool {
    exists|i: int| 0 <= i < s.len() && (#[trigger] s[i]).gpu_instance_id is Some
}

proof fn lemma_first_best_unique(s: Seq<ProcEntry>, i: int)
    requires
        is_first_best(s, i),
    ensures
        first_best(s) == i,
{
    let b = first_best(s);
    assert(is_first_best(s, b));
    if b < i {
        assert(precedes(s[i], s[b]));
    } else if i < b {
        assert(precedes(s[b], s[i]));
    }
}

fn precedes_exec(a: &ProcEntry, b: &ProcEntry) -> (r: bool)
    ensures
        r == precedes(*a, *b),
{
    match (a.vram, b.vram) {
        (Some(av), Some(bv)) => av > bv,
        (Some(_), None) => true,
        (None, Some(_)) => false,
        (None, None) => a.pid < b.pid,
    }
}

fn find_first_best(s: &Vec<ProcEntry>) -> (r: usize)
    requires
        s@.len() > 0,
    ensures
        r as int == first_best(s@),
        r < s@.len(),
{
    let mut b: usize = 0;
    let mut j: usize = 1;
    while j < s.len()
        invariant
            1 <= j <= s@.len(),
            b < j,
            forall|t: int| 0 <= t < j ==> !precedes(#[trigger] s@[t], s@[b as int]),
            forall|t: int| 0 <= t < b ==> precedes(s@[b as int], #[trigger] s@[t]),
        decreases s.len() - j,
    {
        if precedes_exec(&s[j], &s[b]) {
            b = j;
        }
        j = j + 1;
    }
    proof {
        lemma_first_best_unique(s@, b as int);
    }
    b
}

/// The first `TOP_PROCESS_LIMIT` entries of `entries` in display order.
pub fn top_processes(entries: &Vec<ProcEntry>) -> (r: Vec<ProcEntry>)
    ensures
        r@ == top_k(entries@, TOP_PROCESS_LIMIT as nat),
{
    let mut rest = entries.clone();
    let mut r: Vec<ProcEntry> = Vec::new();
    let ghost s0 = entries@;
    let mut k: usize = TOP_PROCESS_LIMIT;
    while k > 0 && rest.len() > 0
        invariant
            r@ + top_k(rest@, k as nat) == top_k(s0, TOP_PROCESS_LIMIT as nat),
        decreases k,
    {
        let ghost rest0 = rest@;
        let ghost r0 = r@;
        let b = find_first_best(&rest);
        let e = rest.remove(b);
        proof {
            assert(top_k(rest0, k as nat) == seq![e] + top_k(rest@, (k - 1) as nat));
        }
        r.push(e);
        k = k - 1;
        proof {
            assert(r@ + top_k(rest@, k as nat) =~= r0 + (seq![e] + top_k(rest@, k as nat)));
        }
    }
    assert(top_k(rest@, k as nat) =~= Seq::<ProcEntry>::empty());
    assert(r@ =~= r@ + top_k(rest@, k as nat));
    r
}

fn has_pid(s: &Vec<ProcEntry>, pid: u32) -> (r: bool)
    ensures
        r == exists|i: int| 0 <= i < s@.len() && #[trigger] s@[i].pid == pid,
{
    let mut i: usize = 0;
    while i < s.len()
        invariant
            0 <= i <= s@.len(),
            forall|j: int| 0 <= j < i ==> #[trigger] s@[j].pid != pid,
        decreases s.len() - i,
    {
        if s[i].pid == pid {
            return true;
        }
        i = i + 1;
    }
    false
}

/// The compute processes followed by the graphics processes, each PID kept
/// only at its first occurrence.
pub fn merge_process_lists(compute: &Vec<ProcEntry>, graphics: &Vec<ProcEntry>) -> (r: Vec<
    ProcEntry,
>)
    ensures
        r@ == first_by_pid(compute@ + graphics@),
{
    let ghost all = compute@ + graphics@;
    let mut r: Vec<ProcEntry> = Vec::new();
    let mut i: usize = 0;
    while i < compute.len()
        invariant
            all == compute@ + graphics@,
            0 <= i <= compute@.len(),
            r@ == first_by_pid(all.take(i as int)),
        decreases compute.len() - i,
    {
        let e = compute[i];
        proof {
            assert(e == all[i as int]);
            assert(all.take(i + 1).drop_last() =~= all.take(i as int));
        }
        if !has_pid(&r, e.pid) {
            r.push(e);
        }
        i = i + 1;
    }
    let mut g: usize = 0;
    while g < graphics.len()
        invariant
            all == compute@ + graphics@,
            0 <= g <= graphics@.len(),
            r@ == first_by_pid(all.take(compute@.len() + g as int)),
        decreases graphics.len() - g,
    {
        let e = graphics[g];
        let ghost t: int = compute@.len() + g;
        proof {
            assert(e == all[t]);
            assert(all.take(t + 1).drop_last() =~= all.take(t));
        }
        if !has_pid(&r, e.pid) {
            r.push(e);
        }
        g = g + 1;
    }
    assert(all.take(all.len() as int) =~= all);
    r
}

/// How many processes a device lists and which are shown: the count covers
/// every distinct PID, the shown ones are the first few in display order.
pub fn device_processes(compute: &Vec<ProcEntry>, graphics: &Vec<ProcEntry>) -> (r: (
    u32,
    Vec<ProcEntry>,
))
    ensures
        r.0 == first_by_pid(compute@ + graphics@).len() as u32,
        r.1@ == top_k(first_by_pid(compute@ + graphics@), TOP_PROCESS_LIMIT as nat),
{
    let entries = merge_process_lists(compute, graphics);
    let count = entries.len() as u32;
    (count, top_processes(&entries))
}

fn instance_entries(s: &Vec<ProcEntry>, gi: Option<u32>) -> (r: Vec<ProcEntry>)
    ensures
        r@ == on_instance(s@, gi),
{
    let mut r: Vec<ProcEntry> = Vec::new();
    let mut i: usize = 0;
    while i < s.len()
        invariant
            0 <= i <= s@.len(),
            r@ == on_instance(s@.take(i as int), gi),
        decreases s.len() - i,
    {
        proof {
            reveal(Seq::filter);
            assert(s@.take(i + 1).drop_last() =~= s@.take(i as int));
        }
        if s[i].gpu_instance_id == gi {
            r.push(s[i]);
        }
        i = i + 1;
    }
    assert(s@.take(s@.len() as int) =~= s@);
    r
}

/// The processes of a MIG instance taken from its parent's list: those on
/// instance `gi` when the parent names instances and `gi` is known, otherwise
/// all of them. Returns how many are shown and which.
pub fn mig_processes(parent: &Vec<ProcEntry>, gi: Option<u32>) -> (r: (u32, Vec<ProcEntry>))
    ensures
        ({
            let chosen = if any_instance_known(parent@) && gi is Some {
                on_instance(parent@, gi)
            } else {
                parent@
            };
            &&& r.1@ == top_k(chosen, TOP_PROCESS_LIMIT as nat)
            &&& r.0 == r.1@.len() as u32
        }),
{
    let mut known = false;
    let mut i: usize = 0;
    while i < parent.len()
        invariant
            0 <= i <= parent@.len(),
            known == exists|j: int| 0 <= j < i && (#[trigger] parent@[j]).gpu_instance_id is Some,
        decreases parent.len() - i,
    {
        if parent[i].gpu_instance_id.is_some() {
            known = true;
        }
        i = i + 1;
    }
    let top = if known && gi.is_some() {
        let chosen = instance_entries(parent, gi);
        top_processes(&chosen)
    } else {
        top_processes(parent)
    };
    (top.len() as u32, top)
}

/// The processes a MIG instance is shown with, as `mig_processes` picks them
/// from its parent's list, when the instance listed `own` none of its own;
/// `None` when it listed some, which it then keeps.
pub fn parent_processes_for_instance(
    own: &Vec<GpuProcessInfo>,
    parent: &Vec<ProcEntry>,
    gi: Option<u32>,
) -> (r: Option<(u32, Vec<ProcEntry>)>)
    ensures
        r is None <==> own@.len() > 0,
        r matches Some(x) ==> {
            let chosen = if any_instance_known(parent@) && gi is Some {
                on_instance(parent@, gi)
            } else {
                parent@
            };
            &&& x.1@ == top_k(chosen, TOP_PROCESS_LIMIT as nat)
            &&& x.0 == x.1@.len() as u32
        },
{
    if own.len() > 0 {
        None
    } else {
        Some(mig_processes(parent, gi))
    }
}

proof fn lemma_best_of_prefix(s: Seq<ProcEntry>, j: int) -> (b: int)
    requires
        1 <= j <= s.len(),
    ensures
        0 <= b < j,
        forall|t: int| 0 <= t < j ==> !precedes(#[trigger] s[t], s[b]),
        forall|t: int| 0 <= t < b ==> precedes(s[b], #[trigger] s[t]),
    decreases j,
{
    if j == 1 {
        0
    } else {
        let b = lemma_best_of_prefix(s, j - 1);
        if precedes(s[j - 1], s[b]) {
            j - 1
        } else {
            b
        }
    }
}

proof fn lemma_first_best_exists(s: Seq<ProcEntry>)
    requires
        s.len() > 0,
    ensures
        is_first_best(s, first_best(s)),
{
    let b = lemma_best_of_prefix(s, s.len() as int);
    assert(is_first_best(s, b));
}

/// The shown processes are at most `k`, all taken from the list, and in
/// display order: none is preceded by one shown after it.
pub proof fn law_top_processes_ordered(s: Seq<ProcEntry>, k: nat)
    ensures
        top_k(s, k).len() == if s.len() < k {
            s.len()
        } else {
            k
        },
        forall|i: int| 0 <= i < top_k(s, k).len() ==> s.contains(#[trigger] top_k(s, k)[i]),
        forall|i: int, j: int|
            0 <= i < j < top_k(s, k).len() ==> !precedes(
                #[trigger] top_k(s, k)[j],
                #[trigger] top_k(s, k)[i],
            ),
    decreases k,
{
    if k > 0 && s.len() > 0 {
        lemma_first_best_exists(s);
        let b = first_best(s);
        let rest = s.remove(b);
        law_top_processes_ordered(rest, (k - 1) as nat);
        let t = top_k(s, k);
        let tr = top_k(rest, (k - 1) as nat);
        assert(t == seq![s[b]] + tr);
        assert forall|i: int| 0 <= i < tr.len() implies s.contains(#[trigger] tr[i]) by {
            assert(rest.contains(tr[i]));
            let x = choose|x: int| 0 <= x < rest.len() && rest[x] == tr[i];
            if x < b {
                assert(s[x] == tr[i]);
            } else {
                assert(s[x + 1] == tr[i]);
            }
        }
        assert forall|i: int| 0 <= i < t.len() implies s.contains(#[trigger] t[i]) by {
            if i > 0 {
                assert(t[i] == tr[i - 1]);
            }
        }
        assert forall|i: int, j: int| 0 <= i < j < t.len() implies !precedes(
            #[trigger] t[j],
            #[trigger] t[i],
        ) by {
            assert(t[j] == tr[j - 1]);
            assert(s.contains(tr[j - 1]));
            if i > 0 {
                assert(t[i] == tr[i - 1]);
            }
        }
    }
}

/// Merged process lists name each PID once, and every PID of either list.
pub proof fn law_merge_keeps_each_pid_once(s: Seq<ProcEntry>)
    ensures
        forall|i: int, j: int|
            0 <= i < j < first_by_pid(s).len() ==> (#[trigger] first_by_pid(s)[i]).pid
                != (#[trigger] first_by_pid(s)[j]).pid,
        forall|i: int|
            0 <= i < s.len() ==> exists|j: int|
                0 <= j < first_by_pid(s).len() && #[trigger] first_by_pid(s)[j].pid == (#[trigger] s[i]).pid,
        forall|j: int| 0 <= j < first_by_pid(s).len() ==> s.contains(#[trigger] first_by_pid(s)[j]),
    decreases s.len(),
{
    if s.len() > 0 {
        let d = s.drop_last();
        law_merge_keeps_each_pid_once(d);
        let p = first_by_pid(d);
        let r = first_by_pid(s);
        assert forall|j: int| 0 <= j < r.len() implies s.contains(#[trigger] r[j]) by {
            if j < p.len() {
                assert(r[j] == p[j]);
                assert(d.contains(p[j]));
                let x = choose|x: int| 0 <= x < d.len() && d[x] == p[j];
                assert(s[x] == p[j]);
            } else {
                assert(r[j] == s.last());
                assert(s[s.len() - 1] == r[j]);
            }
        }
        assert forall|i: int| 0 <= i < s.len() implies exists|j: int|
            0 <= j < r.len() && #[trigger] r[j].pid == (#[trigger] s[i]).pid by {
            if i < s.len() - 1 {
                assert(s[i] == d[i]);
                let j = choose|j: int| 0 <= j < p.len() && #[trigger] p[j].pid == d[i].pid;
                assert(r[j] == p[j]);
            } else {
                if exists|x: int| 0 <= x < p.len() && #[trigger] p[x].pid == s.last().pid {
                    let x = choose|x: int| 0 <= x < p.len() && #[trigger] p[x].pid == s.last().pid;
                    assert(r[x] == p[x]);
                } else {
                    assert(r[p.len() as int] == s.last());
                }
            }
        }
    }
}

/// The PIDs shown in `ms`, device by device, in order.
pub open spec fn pids_shown(ms: Seq<GpuMetrics>) -> Seq<u32>
    decreases ms.len(),
{
    if ms.len() == 0 {
        Seq::empty()
    } else {
        pids_shown(ms.drop_last()) + ms.last().top_processes@.map_values(|p: GpuProcessInfo| p.pid)
    }
}

/// The PIDs of every process shown for the devices of `metrics`; a cache of
/// process names keeps only these.
pub fn shown_pids(metrics: &Vec<GpuMetrics>) -> (r: Vec<u32>)
    ensures
        r@ == pids_shown(metrics@),
{
    let mut r: Vec<u32> = Vec::new();
    let mut i: usize = 0;
    while i < metrics.len()
        invariant
            0 <= i <= metrics@.len(),
            r@ == pids_shown(metrics@.take(i as int)),
        decreases metrics.len() - i,
    {
        let procs = &metrics[i].top_processes;
        let ghost base = r@;
        let mut k: usize = 0;
        while k < procs.len()
            invariant
                0 <= k <= procs@.len(),
                r@ == base + procs@.take(k as int).map_values(|p: GpuProcessInfo| p.pid),
            decreases procs.len() - k,
        {
            r.push(procs[k].pid);
            k = k + 1;
            assert(r@ =~= base + procs@.take(k as int).map_values(|p: GpuProcessInfo| p.pid));
        }
        proof {
            assert(procs@.take(procs@.len() as int) =~= procs@);
            assert(metrics@.take(i + 1).drop_last() =~= metrics@.take(i as int));
        }
        i = i + 1;
    }
    assert(metrics@.take(metrics@.len() as int) =~= metrics@);
    r
}

/// No process left out goes before a shown one: the shown processes are the
/// first in display order.
pub proof fn law_left_out_processes_come_later(s: Seq<ProcEntry>, k: nat, x: ProcEntry)
    requires
        s.contains(x),
        !top_k(s, k).contains(x),
    ensures
        forall|i: int| 0 <= i < top_k(s, k).len() ==> !precedes(x, #[trigger] top_k(s, k)[i]),
    decreases k,
{
    if k > 0 && s.len() > 0 {
        lemma_first_best_exists(s);
        let b = first_best(s);
        let rest = s.remove(b);
        let t = top_k(s, k);
        let tr = top_k(rest, (k - 1) as nat);
        assert(t == seq![s[b]] + tr);
        assert(t[0] == s[b]);
        assert(x != s[b]);
        let j = choose|j: int| 0 <= j < s.len() && s[j] == x;
        if j < b {
            assert(rest[j] == x);
        } else {
            assert(rest[j - 1] == x);
        }
        assert(rest.contains(x));
        assert(!tr.contains(x)) by {
            if tr.contains(x) {
                let q = choose|q: int| 0 <= q < tr.len() && tr[q] == x;
                assert(t[q + 1] == x);
            }
        }
        law_left_out_processes_come_later(rest, (k - 1) as nat, x);
        assert forall|i: int| 0 <= i < t.len() implies !precedes(x, #[trigger] t[i]) by {
            if i == 0 {
                assert(!precedes(s[j], s[b]));
            } else {
                assert(t[i] == tr[i - 1]);
            }
        }
    }
}

} // verus!
