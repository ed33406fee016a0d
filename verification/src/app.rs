use vstd::prelude::*;

use crate::event::{is_next_key, is_prev_key, AppEvent, KeyCode};
use crate::history::{HistoryView, MetricsHistory};
use crate::keyed::{key_set, ByUuid};
use crate::metrics::{GpuMetrics, GpuProcessInfo};
use crate::processes::{pids_shown, shown_pids};

verus! {

/// Entries kept per metric history: 300 ticks, five minutes at the default
/// one-second interval.
pub const MAX_HISTORY: usize = 300;

/// Consecutive failed memory queries during which the last known memory use
/// is still shown; after that the reading is left missing.
pub const VRAM_CARRY_FORWARD_TTL: u32 = 10;

/// Dashboard state: the latest snapshot of every device, their histories
/// keyed by UUID, and the selected device.
pub struct App {
    pub running: bool,
    pub selected_gpu: usize,
    pub metrics: Vec<GpuMetrics>,
    pub history: ByUuid<MetricsHistory>,
    pub driver_version: String,
    pub cuda_version: String,
    /// Consecutive failed memory queries per UUID.
    pub vram_fail_count: ByUuid<u32>,
    /// Last reported total memory per UUID, kept while the device is present.
    pub last_known_vram_total: ByUuid<u64>,
}

/// The UUIDs of a list of snapshots.
pub open spec fn uuid_set(s: Seq<GpuMetrics>) -> Set<Seq<char>> {
    Set::new(|k: Seq<char>| exists|i: int| 0 <= i < s.len() && #[trigger] s[i].uuid@ == k)
}

/// The position of the last snapshot in `s` with UUID `u`, or -1.
pub open spec fn last_index_of(s: Seq<GpuMetrics>, u: Seq<char>) -> int
    decreases s.len(),
{
    if s.len() == 0 {
        -1
    } else if s.last().uuid@ == u {
        s.len() - 1
    } else {
        last_index_of(s.drop_last(), u)
    }
}

/// A failure counter incremented without wrapping.
pub open spec fn bumped(c: u32) -> u32 {
    if c == u32::MAX {
        c
    } else {
        (c + 1) as u32
    }
}

/// The total-memory cache after seeing `m`: a reported total is remembered.
pub open spec fn totals_after(totals: Map<Seq<char>, u64>, m: GpuMetrics) -> Map<Seq<char>, u64> {
    match m.memory_total {
        Some(t) => totals.insert(m.uuid@, t),
        None => totals,
    }
}

/// The total memory shown for `m`: its own reading, else the remembered one.
pub open spec fn reported_total(totals: Map<Seq<char>, u64>, m: GpuMetrics) -> Option<u64> {
    match m.memory_total {
        Some(t) => Some(t),
        None => if totals.contains_key(m.uuid@) {
            Some(totals[m.uuid@])
        } else {
            None
        },
    }
}

/// The consecutive-failure count of `m`'s device once `m` lacks a memory reading.
pub open spec fn failures(fails: Map<Seq<char>, u32>, m: GpuMetrics) -> u32 {
    if fails.contains_key(m.uuid@) {
        bumped(fails[m.uuid@])
    } else {
        1
    }
}

/// The failure counters after seeing `m`: a missing reading counts one more
/// failure, a present one clears the counter.
pub open spec fn fails_after(fails: Map<Seq<char>, u32>, m: GpuMetrics) -> Map<Seq<char>, u32> {
    match m.memory_used {
        Some(_) => fails.remove(m.uuid@),
        None => fails.insert(m.uuid@, failures(fails, m)),
    }
}

/// The memory use shown for `m`: its own reading; while a missing reading has
/// failed at most `VRAM_CARRY_FORWARD_TTL` times in a row, the previous
/// snapshot's reading; otherwise none.
pub open spec fn reported_used(
    prev: Seq<GpuMetrics>,
    fails: Map<Seq<char>, u32>,
    m: GpuMetrics,
) -> Option<u64> {
    match m.memory_used {
        Some(u) => Some(u),
        None => {
            let i = last_index_of(prev, m.uuid@);
            if failures(fails, m) <= VRAM_CARRY_FORWARD_TTL && i >= 0 {
                prev[i].memory_used
            } else {
                None
            }
        },
    }
}

/// The processes of `procs` whose PID is listed in `alive`, in order.
pub open spec fn alive_in(procs: Seq<GpuProcessInfo>, alive: Seq<u32>) -> Seq<GpuProcessInfo> {
    procs.filter(|p: GpuProcessInfo| alive.contains(p.pid))
}

/// The processes carried into `m` from the previous snapshot of its device:
/// only when `m` has none, and only those still alive, if any are.
pub open spec fn carried_processes(
    prev: Seq<GpuMetrics>,
    alive: Seq<u32>,
    m: GpuMetrics,
) -> Option<Seq<GpuProcessInfo>> {
    let i = last_index_of(prev, m.uuid@);
    if m.top_processes@.len() == 0 && i >= 0 && prev[i].top_processes@.len() > 0 {
        let a = alive_in(prev[i].top_processes@, alive);
        if a.len() > 0 {
            Some(a)
        } else {
            None
        }
    } else {
        None
    }
}

/// `r` carries every reading of `m` unchanged except memory and processes.
pub open spec fn same_readings(r: GpuMetrics, m: GpuMetrics) -> bool {
    &&& r.index == m.index
    &&& r.name == m.name
    &&& r.uuid == m.uuid
    &&& r.is_mig_instance == m.is_mig_instance
    &&& r.parent_gpu_index == m.parent_gpu_index
    &&& r.gpu_util == m.gpu_util
    &&& r.memory_util == m.memory_util
    &&& r.sm_util == m.sm_util
    &&& r.temperature == m.temperature
    &&& r.power_usage == m.power_usage
    &&& r.power_limit == m.power_limit
    &&& r.architecture == m.architecture
    &&& r.compute_capability == m.compute_capability
    &&& r.ecc_enabled == m.ecc_enabled
    &&& r.temp_shutdown == m.temp_shutdown
    &&& r.temp_slowdown == m.temp_slowdown
    &&& r.clock_graphics_mhz == m.clock_graphics_mhz
    &&& r.clock_sm_mhz == m.clock_sm_mhz
    &&& r.clock_memory_mhz == m.clock_memory_mhz
    &&& r.pcie_tx_kbps == m.pcie_tx_kbps
    &&& r.pcie_rx_kbps == m.pcie_rx_kbps
    &&& r.pcie_gen == m.pcie_gen
    &&& r.pcie_width == m.pcie_width
    &&& r.performance_state == m.performance_state
    &&& r.throttle_reasons == m.throttle_reasons
    &&& r.encoder_util == m.encoder_util
    &&& r.decoder_util == m.decoder_util
    &&& r.ecc_errors_corrected == m.ecc_errors_corrected
    &&& r.ecc_errors_uncorrected == m.ecc_errors_uncorrected
}

/// `r` is the snapshot `m` as stored, given the previous snapshots, the live
/// PIDs and the caches as they stood when `m` was reached.
pub open spec fn refreshed(
    r: GpuMetrics,
    m: GpuMetrics,
    prev: Seq<GpuMetrics>,
    alive: Seq<u32>,
    totals: Map<Seq<char>, u64>,
    fails: Map<Seq<char>, u32>,
) -> bool {
    &&& same_readings(r, m)
    &&& r.memory_total == reported_total(totals, m)
    &&& r.memory_used == reported_used(prev, fails, m)
    &&& match carried_processes(prev, alive, m) {
        Some(a) => r.top_processes@ == a && r.process_count == a.len() as u32,
        None => r.top_processes@ == m.top_processes@ && r.process_count == m.process_count,
    }
}

/// The caches after the snapshots `news` are seen in order.
pub open spec fn caches_after(
    totals: Map<Seq<char>, u64>,
    fails: Map<Seq<char>, u32>,
    news: Seq<GpuMetrics>,
) -> (Map<Seq<char>, u64>, Map<Seq<char>, u32>)
    decreases news.len(),
{
    if news.len() == 0 {
        (totals, fails)
    } else {
        let c = caches_after(totals, fails, news.drop_last());
        (totals_after(c.0, news.last()), fails_after(c.1, news.last()))
    }
}

/// The histories after the snapshots `rs` are recorded in order; a device
/// seen for the first time starts an empty history of `MAX_HISTORY` entries.
pub open spec fn histories_after(
    h: Map<Seq<char>, HistoryView>,
    rs: Seq<GpuMetrics>,
) -> Map<Seq<char>, HistoryView>
    decreases rs.len(),
{
    if rs.len() == 0 {
        h
    } else {
        let h2 = histories_after(h, rs.drop_last());
        let m = rs.last();
        let base = if h2.contains_key(m.uuid@) {
            h2[m.uuid@]
        } else {
            HistoryView::empty(MAX_HISTORY as nat)
        };
        h2.insert(m.uuid@, base.pushed(m))
    }
}

/// The contents of every history held.
pub open spec fn history_views(h: Map<Seq<char>, MetricsHistory>) -> Map<Seq<char>, HistoryView> {
    h.map_values(|x: MetricsHistory| x@)
}

/// The selection after a refresh to `n` devices: clamped to the last device.
pub open spec fn clamped_selection(selected: usize, n: nat) -> usize {
    if n > 0 && selected >= n {
        (n - 1) as usize
    } else {
        selected
    }
}

/// `a` and `b` hold the same snapshots, histories, caches and versions.
pub open spec fn same_data(a: App, b: App) -> bool {
    &&& a.metrics == b.metrics
    &&& a.history == b.history
    &&& a.driver_version == b.driver_version
    &&& a.cuda_version == b.cuda_version
    &&& a.vram_fail_count == b.vram_fail_count
    &&& a.last_known_vram_total == b.last_known_vram_total
}

/// The selection after moving forward among `n` devices.
pub open spec fn next_selection(selected: usize, n: nat) -> usize {
    if n > 0 {
        ((selected + 1) % (n as int)) as usize
    } else {
        selected
    }
}

/// The selection after moving back among `n` devices.
pub open spec fn prev_selection(selected: usize, n: nat) -> usize {
    if n == 0 {
        selected
    } else if selected == 0 {
        (n - 1) as usize
    } else {
        (selected - 1) as usize
    }
}

/// `post` is `pre` after the snapshots `news` arrive, with `alive` the PIDs
/// found running.
pub open spec fn refresh_outcome(pre: App, news: Seq<GpuMetrics>, alive: Seq<u32>, post: App) -> bool {
    let prev = pre.metrics@;
    let c0 = (pre.last_known_vram_total@, pre.vram_fail_count@);
    let c = caches_after(c0.0, c0.1, news);
    let h = histories_after(history_views(pre.history@), post.metrics@);
    let keep = uuid_set(news);
    &&& post.running == pre.running
    &&& post.driver_version == pre.driver_version
    &&& post.cuda_version == pre.cuda_version
    &&& post.metrics@.len() == news.len()
    &&& forall|j: int|
        #![trigger post.metrics@[j]]
        0 <= j < news.len() ==> {
            let cj = caches_after(c0.0, c0.1, news.take(j));
            refreshed(post.metrics@[j], news[j], prev, alive, cj.0, cj.1)
        }
    &&& history_views(post.history@) == h.restrict(keep)
    &&& post.last_known_vram_total@ == c.0.restrict(keep)
    &&& post.vram_fail_count@ == c.1.restrict(keep)
    &&& post.selected_gpu == clamped_selection(pre.selected_gpu, news.len())
}

/// The PIDs of `shown` whose answer in `answers`, at the same position, is
/// yes, in order.
pub open spec fn pids_answered_alive(shown: Seq<u32>, answers: Seq<bool>) -> Seq<u32>
    decreases shown.len(),
{
    if shown.len() == 0 || answers.len() == 0 {
        Seq::empty()
    } else {
        pids_answered_alive(shown.drop_last(), answers.drop_last()) + if answers.last() {
            seq![shown.last()]
        } else {
            Seq::empty()
        }
    }
}

/// With one answer per shown PID, a PID is listed as alive exactly when some
/// position holds it with a yes; every PID answered yes is listed, whatever
/// the answers for the others.
pub proof fn law_liveness_answers(shown: Seq<u32>, answers: Seq<bool>)
    requires
        answers.len() == shown.len(),
    ensures
        forall|p: u32|
            #[trigger] pids_answered_alive(shown, answers).contains(p) <==> exists|k: int|
                0 <= k < shown.len() && shown[k] == p && answers[k],
    decreases shown.len(),
{
    if shown.len() > 0 {
        let s0 = shown.drop_last();
        let a0 = answers.drop_last();
        law_liveness_answers(s0, a0);
        let prev = pids_answered_alive(s0, a0);
        let tail = if answers.last() {
            seq![shown.last()]
        } else {
            Seq::<u32>::empty()
        };
        assert forall|p: u32|
            #[trigger] pids_answered_alive(shown, answers).contains(p) <==> exists|k: int|
                0 <= k < shown.len() && shown[k] == p && answers[k] by {
            let all = pids_answered_alive(shown, answers);
            assert(all == prev + tail);
            if all.contains(p) {
                let t = choose|t: int| 0 <= t < all.len() && all[t] == p;
                if t < prev.len() {
                    assert(prev[t] == p);
                    assert(prev.contains(p));
                    let k = choose|k: int| 0 <= k < s0.len() && s0[k] == p && a0[k];
                    assert(shown[k] == p && answers[k]);
                } else {
                    assert(shown[shown.len() - 1] == p && answers[shown.len() - 1]);
                }
            }
            if exists|k: int| 0 <= k < shown.len() && shown[k] == p && answers[k] {
                let k = choose|k: int| 0 <= k < shown.len() && shown[k] == p && answers[k];
                if k < shown.len() - 1 {
                    assert(s0[k] == p && a0[k]);
                    assert(prev.contains(p));
                    let t = choose|t: int| 0 <= t < prev.len() && prev[t] == p;
                    assert(all[t] == p);
                } else {
                    assert(all[prev.len() as int] == p);
                }
            }
        }
    }
}

/// Whether the process `pid` still exists: calls `std::path::Path::exists`
/// on `/proc/{pid}`. Nothing is claimed of the answer, which depends on the
/// running system at the moment of the call.
#[verifier::external_body]
fn pid_is_alive(pid: u32) -> bool {
    std::path::Path::new(&format!("/proc/{}", pid)).exists()
}

fn contains_pid(pids: &Vec<u32>, pid: u32) -> (r: bool)
    ensures
        r == pids@.contains(pid),
{
    let mut i: usize = 0;
    while i < pids.len()
        invariant
            0 <= i <= pids@.len(),
            forall|j: int| 0 <= j < i ==> pids@[j] != pid,
        decreases pids.len() - i,
    {
        if pids[i] == pid {
            return true;
        }
        i = i + 1;
    }
    false
}

fn alive_processes(procs: &Vec<GpuProcessInfo>, alive: &Vec<u32>) -> (r: Vec<GpuProcessInfo>)
    ensures
        r@ == alive_in(procs@, alive@),
{
    let mut r: Vec<GpuProcessInfo> = Vec::new();
    let mut i: usize = 0;
    while i < procs.len()
        invariant
            0 <= i <= procs@.len(),
            r@ == alive_in(procs@.take(i as int), alive@),
        decreases procs.len() - i,
    {
        proof {
            reveal(Seq::filter);
            assert(procs@.take(i + 1).drop_last() =~= procs@.take(i as int));
        }
        if contains_pid(alive, procs[i].pid) {
            r.push(procs[i].clone());
        }
        i = i + 1;
    }
    assert(procs@.take(procs@.len() as int) =~= procs@);
    r
}

fn last_index(metrics: &Vec<GpuMetrics>, uuid: &String) -> (r: Option<usize>)
    ensures
        match r {
            Some(i) => i as int == last_index_of(metrics@, uuid@) && i < metrics@.len(),
            None => last_index_of(metrics@, uuid@) == -1,
        },
{
    let mut i: usize = metrics.len();
    assert(metrics@.take(i as int) =~= metrics@);
    while i > 0
        invariant
            0 <= i <= metrics@.len(),
            last_index_of(metrics@, uuid@) == last_index_of(metrics@.take(i as int), uuid@),
        decreases i,
    {
        proof {
            assert(metrics@.take(i as int).drop_last() =~= metrics@.take(i - 1));
        }
        if metrics[i - 1].uuid == *uuid {
            return Some(i - 1);
        }
        i = i - 1;
    }
    None
}

impl App {
    /// Records each snapshot of `rs`, in order, in the history of its UUID.
    fn record_histories(history: &mut ByUuid<MetricsHistory>, rs: &Vec<GpuMetrics>)
        ensures
            history_views(final(history)@) == histories_after(history_views(old(history)@), rs@),
    {
        let ghost h0 = history_views(history@);
        let mut j: usize = 0;
        while j < rs.len()
            invariant
                0 <= j <= rs@.len(),
                h0 == history_views(old(history)@),
                history_views(history@) == histories_after(h0, rs@.take(j as int)),
            decreases rs.len() - j,
        {
            let ghost before = history@;
            let m = &rs[j];
            let mut h = match history.remove(&m.uuid) {
                Some(h) => h,
                None => MetricsHistory::new(MAX_HISTORY),
            };
            h.push(m);
            history.insert(m.uuid.clone(), h);
            proof {
                assert(rs@.take(j + 1).drop_last() =~= rs@.take(j as int));
                assert(rs@.take(j + 1).last() == rs@[j as int]);
                assert(history_views(history@) =~= histories_after(h0, rs@.take(j + 1)));
            }
            j = j + 1;
        }
        assert(rs@.take(rs@.len() as int) =~= rs@);
    }

    /// Fills in one arriving snapshot from the caches and the previous
    /// snapshots, and updates the caches.
    fn refresh_one(&mut self, m: GpuMetrics, alive: &Vec<u32>) -> (r: GpuMetrics)
        ensures
            final(self).metrics == old(self).metrics,
            final(self).history == old(self).history,
            final(self).running == old(self).running,
            final(self).selected_gpu == old(self).selected_gpu,
            final(self).driver_version == old(self).driver_version,
            final(self).cuda_version == old(self).cuda_version,
            final(self).last_known_vram_total@ == totals_after(old(self).last_known_vram_total@, m),
            final(self).vram_fail_count@ == fails_after(old(self).vram_fail_count@, m),
            refreshed(
                r,
                m,
                old(self).metrics@,
                alive@,
                old(self).last_known_vram_total@,
                old(self).vram_fail_count@,
            ),
    {
        let ghost m0 = m;
        let mut m = m;
        match m.memory_total {
            Some(total) => {
                self.last_known_vram_total.insert(m.uuid.clone(), total);
            },
            None => {
                match self.last_known_vram_total.get(&m.uuid) {
                    Some(cached) => {
                        m.memory_total = Some(*cached);
                    },
                    None => {},
                }
            },
        }
        let prev = last_index(&self.metrics, &m.uuid);
        if m.memory_used.is_none() {
            let count = match self.vram_fail_count.get(&m.uuid) {
                Some(c) => c.saturating_add(1),
                None => 1,
            };
            self.vram_fail_count.insert(m.uuid.clone(), count);
            if count <= VRAM_CARRY_FORWARD_TTL {
                match prev {
                    Some(i) => {
                        m.memory_used = self.metrics[i].memory_used;
                    },
                    None => {},
                }
            }
        } else {
            let _ = self.vram_fail_count.remove(&m.uuid);
        }
        if m.top_processes.len() == 0 {
            match prev {
                Some(i) => {
                    if self.metrics[i].top_processes.len() > 0 {
                        let still = alive_processes(&self.metrics[i].top_processes, alive);
                        if still.len() > 0 {
                            m.process_count = still.len() as u32;
                            m.top_processes = still;
                        }
                    }
                },
                None => {},
            }
        }
        assert(same_readings(m, m0));
        m
    }

    /// Stores a fresh set of snapshots, given the PIDs found running.
    ///
    /// Each snapshot lacking a total memory reading gets the last one reported
    /// for its UUID. One lacking a memory-use reading gets the previous
    /// snapshot's, for up to `VRAM_CARRY_FORWARD_TTL` consecutive failures.
    /// One with no processes keeps the previous snapshot's processes whose PID
    /// is in `alive_pids`. Every snapshot is then recorded in its history, and
    /// the histories and caches of UUIDs not in `new_metrics` are dropped, so
    /// that exactly the UUIDs just reported keep them. The selection is
    /// clamped to the last device.
    pub fn update_metrics_with_liveness(&mut self, new_metrics: Vec<GpuMetrics>, alive_pids: &Vec<u32>)
        ensures
            refresh_outcome(*old(self), new_metrics@, alive_pids@, *final(self)),
    {
        let ghost pre = *self;
        let ghost news = new_metrics@;
        let ghost c0 = (self.last_known_vram_total@, self.vram_fail_count@);
        let n = new_metrics.len();
        let mut rest = new_metrics;
        let mut out: Vec<GpuMetrics> = Vec::new();
        let mut j: usize = 0;
        while j < n
            invariant
                n == news.len(),
                0 <= j <= n,
                rest@ == news.skip(j as int),
                out@.len() == j,
                self.metrics == pre.metrics,
                self.history == pre.history,
                self.running == pre.running,
                self.selected_gpu == pre.selected_gpu,
                self.driver_version == pre.driver_version,
                self.cuda_version == pre.cuda_version,
                (self.last_known_vram_total@, self.vram_fail_count@) == caches_after(
                    c0.0,
                    c0.1,
                    news.take(j as int),
                ),
                forall|i: int|
                    #![trigger out@[i]]
                    0 <= i < j ==> {
                        let ci = caches_after(c0.0, c0.1, news.take(i));
                        refreshed(out@[i], news[i], pre.metrics@, alive_pids@, ci.0, ci.1)
                    },
            decreases n - j,
        {
            let m = rest.remove(0);
            let ghost cj = (self.last_known_vram_total@, self.vram_fail_count@);
            let r = self.refresh_one(m, alive_pids);
            out.push(r);
            proof {
                assert(m == news[j as int]);
                assert(news.take(j + 1).drop_last() =~= news.take(j as int));
                assert(news.take(j + 1).last() == news[j as int]);
                assert(rest@ =~= news.skip(j + 1));
            }
            j = j + 1;
        }
        assert(news.take(n as int) =~= news);
        App::record_histories(&mut self.history, &out);
        let ghost h = histories_after(history_views(pre.history@), out@);
        assert(history_views(self.history@) == h);
        assert(history_views(self.history@).dom() =~= self.history@.dom());
        let mut keep: Vec<String> = Vec::new();
        let mut i: usize = 0;
        while i < out.len()
            invariant
                0 <= i <= out@.len(),
                out@.len() == news.len(),
                keep@.len() == i,
                forall|t: int| 0 <= t < i ==> #[trigger] keep@[t]@ == out@[t].uuid@,
            decreases out.len() - i,
        {
            keep.push(out[i].uuid.clone());
            i = i + 1;
        }
        proof {
            assert forall|k: Seq<char>| key_set(keep@).contains(k) <==> uuid_set(news).contains(k) by {
                if key_set(keep@).contains(k) {
                    let t = choose|t: int| 0 <= t < keep@.len() && keep@[t]@ == k;
                    assert(same_readings(out@[t], news[t]));
                    assert(news[t].uuid@ == k);
                }
                if uuid_set(news).contains(k) {
                    let t = choose|t: int| 0 <= t < news.len() && news[t].uuid@ == k;
                    assert(same_readings(out@[t], news[t]));
                    assert(keep@[t]@ == k);
                }
            }
            assert(key_set(keep@) =~= uuid_set(news));
        }
        let ghost hb = self.history@;
        self.history.retain_keys(&keep);
        self.vram_fail_count.retain_keys(&keep);
        self.last_known_vram_total.retain_keys(&keep);
        proof {
            assert(history_views(self.history@) =~= history_views(hb).restrict(uuid_set(news)));
        }
        self.metrics = out;
        if self.metrics.len() > 0 && self.selected_gpu >= self.metrics.len() {
            self.selected_gpu = self.metrics.len() - 1;
        }
    }

    /// A running dashboard with no devices yet.
    pub fn new(driver_version: String, cuda_version: String) -> (r: Self)
        ensures
            r.running,
            r.selected_gpu == 0,
            r.metrics@.len() == 0,
            r.history@ == Map::<Seq<char>, MetricsHistory>::empty(),
            r.driver_version == driver_version,
            r.cuda_version == cuda_version,
            r.vram_fail_count@ == Map::<Seq<char>, u32>::empty(),
            r.last_known_vram_total@ == Map::<Seq<char>, u64>::empty(),
    {
        App {
            running: true,
            selected_gpu: 0,
            metrics: Vec::new(),
            history: ByUuid::new(),
            driver_version,
            cuda_version,
            vram_fail_count: ByUuid::new(),
            last_known_vram_total: ByUuid::new(),
        }
    }

    /// Stores a fresh set of snapshots as `update_metrics_with_liveness`
    /// does, checking which of the processes listed in the previous
    /// snapshots are still running.
    pub fn update_metrics(&mut self, new_metrics: Vec<GpuMetrics>)
        ensures
            exists|answers: Seq<bool>|
                #![trigger pids_answered_alive(pids_shown(old(self).metrics@), answers)]
                {
                    let shown = pids_shown(old(self).metrics@);
                    let alive = pids_answered_alive(shown, answers);
                    &&& answers.len() == shown.len()
                    &&& forall|p: u32| #[trigger] alive.contains(p) ==> shown.contains(p)
                    &&& refresh_outcome(*old(self), new_metrics@, alive, *final(self))
                },
    {
        let shown = shown_pids(&self.metrics);
        let mut alive: Vec<u32> = Vec::new();
        let ghost mut answers: Seq<bool> = Seq::empty();
        let mut i: usize = 0;
        while i < shown.len()
            invariant
                0 <= i <= shown@.len(),
                answers.len() == i,
                alive@ == pids_answered_alive(shown@.take(i as int), answers),
            decreases shown.len() - i,
        {
            let pid = shown[i];
            let live = pid_is_alive(pid);
            let ghost before = alive@;
            let ghost old_answers = answers;
            proof {
                answers = answers.push(live);
                assert(shown@.take(i + 1).drop_last() =~= shown@.take(i as int));
                assert(answers.drop_last() =~= old_answers);
            }
            if live {
                alive.push(pid);
            }
            proof {
                assert(shown@.take(i + 1).last() == pid);
                assert(answers.last() == live);
                assert(pids_answered_alive(shown@.take(i + 1), answers) == before + if live {
                    seq![pid]
                } else {
                    Seq::<u32>::empty()
                });
                assert(alive@ =~= pids_answered_alive(shown@.take(i + 1), answers));
            }
            i = i + 1;
        }
        proof {
            assert(shown@.take(shown@.len() as int) =~= shown@);
            law_liveness_answers(shown@, answers);
            assert forall|p: u32| #[trigger] alive@.contains(p) implies shown@.contains(p) by {
                let k = choose|k: int| 0 <= k < shown@.len() && shown@[k] == p && answers[k];
            }
        }
        self.update_metrics_with_liveness(new_metrics, &alive);
    }

    /// Selects the next device, wrapping around after the last.
    pub fn next_gpu(&mut self)
        ensures
            same_data(*final(self), *old(self)),
            final(self).running == old(self).running,
            final(self).selected_gpu == next_selection(old(self).selected_gpu, old(self).metrics@.len()),
    {
        let n = self.metrics.len();
        if n > 0 {
            let s = self.selected_gpu;
            self.selected_gpu = (s % n + 1) % n;
            assert((s % n + 1) % (n as int) == (s + 1) % (n as int)) by (nonlinear_arith)
                requires n > 0;
        }
    }

    /// Selects the previous device, wrapping around before the first.
    pub fn prev_gpu(&mut self)
        ensures
            same_data(*final(self), *old(self)),
            final(self).running == old(self).running,
            final(self).selected_gpu == prev_selection(old(self).selected_gpu, old(self).metrics@.len()),
    {
        if self.metrics.len() > 0 {
            self.selected_gpu = if self.selected_gpu == 0 {
                self.metrics.len() - 1
            } else {
                self.selected_gpu - 1
            };
        }
    }

    /// The snapshot of the selected device, if the selection is in range.
    pub fn selected_metrics(&self) -> (r: Option<&GpuMetrics>)
        ensures
            r is Some <==> self.selected_gpu < self.metrics@.len(),
            r matches Some(m) ==> *m == self.metrics@[self.selected_gpu as int],
    {
        if self.selected_gpu < self.metrics.len() {
            Some(&self.metrics[self.selected_gpu])
        } else {
            None
        }
    }

    /// The history of the selected device, if it has one.
    pub fn selected_history(&self) -> (r: Option<&MetricsHistory>)
        ensures
            r is Some <==> (self.selected_gpu < self.metrics@.len() && self.history@.contains_key(
                self.metrics@[self.selected_gpu as int].uuid@,
            )),
            r matches Some(h) ==> *h == self.history@[self.metrics@[self.selected_gpu as int].uuid@],
    {
        match self.selected_metrics() {
            Some(m) => self.history.get(&m.uuid),
            None => None,
        }
    }

    /// Stops the main loop.
    pub fn quit(&mut self)
        ensures
            !final(self).running,
            final(self).selected_gpu == old(self).selected_gpu,
            same_data(*final(self), *old(self)),
    {
        self.running = false;
    }

    /// Acts on one main-loop event: navigation keys move the selection, a
    /// quit event stops the loop, anything else changes nothing.
    pub fn handle_event(&mut self, ev: AppEvent)
        ensures
            same_data(*final(self), *old(self)),
            final(self).running == (old(self).running && ev != AppEvent::Quit),
            final(self).selected_gpu == match ev {
                AppEvent::Key(k) => if is_next_key(k.code) {
                    next_selection(old(self).selected_gpu, old(self).metrics@.len())
                } else if is_prev_key(k.code) {
                    prev_selection(old(self).selected_gpu, old(self).metrics@.len())
                } else {
                    old(self).selected_gpu
                },
                _ => old(self).selected_gpu,
            },
    {
        match ev {
            AppEvent::Key(k) => match k.code {
                KeyCode::Tab | KeyCode::Down | KeyCode::Right => self.next_gpu(),
                KeyCode::BackTab | KeyCode::Up | KeyCode::Left => self.prev_gpu(),
                _ => {},
            },
            AppEvent::Quit => self.quit(),
            AppEvent::Tick => {},
        }
    }
}

/// Whether the snapshots of `s` all have different UUIDs.
pub open spec fn uuids_distinct(s: Seq<GpuMetrics>) -> bool {
    forall|i: int, j: int| 0 <= i < j < s.len() ==> #[trigger] s[i].uuid@ != #[trigger] s[j].uuid@
}

/// The selection points at a device whenever there is one.
pub open spec fn selection_valid(app: App) -> bool {
    app.metrics@.len() > 0 ==> app.selected_gpu < app.metrics@.len()
}

/// The selection after moving forward `k` times among `n` devices.
pub open spec fn next_selection_times(selected: usize, n: nat, k: nat) -> usize
    decreases k,
{
    if k == 0 {
        selected
    } else {
        next_selection(next_selection_times(selected, n, (k - 1) as nat), n)
    }
}

pub(crate) proof fn lemma_histories_dom(h: Map<Seq<char>, HistoryView>, rs: Seq<GpuMetrics>)
    ensures
        histories_after(h, rs).dom() == h.dom().union(uuid_set(rs)),
    decreases rs.len(),
{
    if rs.len() > 0 {
        lemma_histories_dom(h, rs.drop_last());
        assert forall|k: Seq<char>| uuid_set(rs).contains(k) <==> (uuid_set(rs.drop_last()).contains(
            k,
        ) || k == rs.last().uuid@) by {
            if uuid_set(rs).contains(k) {
                let i = choose|i: int| 0 <= i < rs.len() && #[trigger] rs[i].uuid@ == k;
                if i < rs.len() - 1 {
                    assert(rs.drop_last()[i].uuid@ == k);
                }
            }
            if uuid_set(rs.drop_last()).contains(k) {
                let i = choose|i: int|
                    0 <= i < rs.drop_last().len() && #[trigger] rs.drop_last()[i].uuid@ == k;
                assert(rs[i].uuid@ == k);
            }
            if k == rs.last().uuid@ {
                assert(rs[rs.len() - 1].uuid@ == k);
            }
        }
        assert(histories_after(h, rs).dom() =~= h.dom().union(uuid_set(rs)));
    }
}

/// A refresh stores one snapshot per arriving one, with the same UUID.
pub(crate) proof fn lemma_refreshed_uuids(pre: App, news: Seq<GpuMetrics>, alive: Seq<u32>, post: App)
    requires
        refresh_outcome(pre, news, alive, post),
    ensures
        post.metrics@.len() == news.len(),
        forall|j: int| 0 <= j < news.len() ==> (#[trigger] post.metrics@[j]).uuid@ == news[j].uuid@,
        uuid_set(post.metrics@) == uuid_set(news),
{
    assert forall|j: int| 0 <= j < news.len() implies (#[trigger] post.metrics@[j]).uuid@ == news[j].uuid@ by {
        let cj = caches_after(pre.last_known_vram_total@, pre.vram_fail_count@, news.take(j));
        assert(refreshed(post.metrics@[j], news[j], pre.metrics@, alive, cj.0, cj.1));
    }
    let u = uuid_set(news);
    assert forall|k: Seq<char>| uuid_set(post.metrics@).contains(k) <==> u.contains(k) by {
        if uuid_set(post.metrics@).contains(k) {
            let i = choose|i: int| 0 <= i < post.metrics@.len() && #[trigger] post.metrics@[i].uuid@ == k;
            assert(news[i].uuid@ == k);
        }
        if u.contains(k) {
            let i = choose|i: int| 0 <= i < news.len() && #[trigger] news[i].uuid@ == k;
            assert(post.metrics@[i].uuid@ == k);
        }
    }
    assert(uuid_set(post.metrics@) =~= u);
}

/// After any refresh, histories are held for exactly the devices just
/// reported: new devices gain one, and every device no longer reported loses
/// its history, its failure counter and its remembered total.
pub proof fn law_history_follows_devices(pre: App, news: Seq<GpuMetrics>, alive: Seq<u32>, post: App)
    requires
        refresh_outcome(pre, news, alive, post),
    ensures
        post.history@.dom() == uuid_set(news),
        post.vram_fail_count@.dom().subset_of(uuid_set(news)),
        post.last_known_vram_total@.dom().subset_of(uuid_set(news)),
{
    let h = histories_after(history_views(pre.history@), post.metrics@);
    let u = uuid_set(news);
    lemma_refreshed_uuids(pre, news, alive, post);
    lemma_histories_dom(history_views(pre.history@), post.metrics@);
    assert(history_views(post.history@).dom() =~= post.history@.dom());
    assert(h.restrict(u).dom() =~= u);
}

/// A refresh that reports devices leaves the selection on one of them.
pub proof fn law_refresh_selects_a_device(pre: App, news: Seq<GpuMetrics>, alive: Seq<u32>, post: App)
    requires
        refresh_outcome(pre, news, alive, post),
    ensures
        selection_valid(post),
{
}

/// Moving forward or back keeps a selection among `n` devices in range.
pub proof fn law_navigation_stays_in_range(selected: usize, n: nat)
    requires
        n > 0,
        n <= usize::MAX,
    ensures
        next_selection(selected, n) < n,
        selected < n ==> prev_selection(selected, n) < n,
{
}

/// Moving back undoes moving forward, and moving forward undoes moving back.
pub proof fn law_prev_undoes_next(selected: usize, n: nat)
    requires
        selected < n,
        n <= usize::MAX,
    ensures
        prev_selection(next_selection(selected, n), n) == selected,
        next_selection(prev_selection(selected, n), n) == selected,
{
    assert((selected + 1) % (n as int) == if selected + 1 < n {
        selected + 1
    } else {
        0
    }) by (nonlinear_arith)
        requires
            selected < n,
    ;
    let p = prev_selection(selected, n);
    assert((p + 1) % (n as int) == if p + 1 < n {
        p + 1
    } else {
        0
    }) by (nonlinear_arith)
        requires
            p < n,
    ;
}

proof fn lemma_next_times(selected: usize, n: nat, k: nat)
    requires
        selected < n,
        n <= usize::MAX,
    ensures
        next_selection_times(selected, n, k) == (selected + k) % (n as int),
    decreases k,
{
    if k > 0 {
        lemma_next_times(selected, n, (k - 1) as nat);
        let p = next_selection_times(selected, n, (k - 1) as nat);
        assert(((selected + k - 1) % (n as int) + 1) % (n as int) == (selected + k) % (n as int))
            by (nonlinear_arith)
            requires
                n > 0,
        ;
        assert(0 <= (p + 1) % (n as int) < n) by (nonlinear_arith)
            requires
                n > 0,
        ;
    } else {
        assert((selected as int) % (n as int) == selected) by (nonlinear_arith)
            requires
                selected < n,
        ;
    }
}

/// Moving forward `n` times among `n` devices comes back to the start;
/// after `k` moves the selection is `selected + k` wrapped around.
pub proof fn law_next_cycles(selected: usize, n: nat, k: nat)
    requires
        selected < n,
        n <= usize::MAX,
    ensures
        next_selection_times(selected, n, k) == (selected + k) % (n as int),
        next_selection_times(selected, n, n) == selected,
{
    lemma_next_times(selected, n, k);
    lemma_next_times(selected, n, n);
    assert((selected + n) % (n as int) == selected) by (nonlinear_arith)
        requires
            selected < n,
    ;
}

/// A reported total memory figure stands for the device until another is
/// reported: a later snapshot without one shows it.
pub proof fn law_total_persists(totals: Map<Seq<char>, u64>, m1: GpuMetrics, m2: GpuMetrics, t: u64)
    requires
        m1.memory_total == Some(t),
        m2.memory_total is None,
        m2.uuid@ == m1.uuid@,
    ensures
        reported_total(totals_after(totals, m1), m2) == Some(t),
{
}

/// The failure counter of a device counts its consecutive snapshots
/// without a memory reading, and a reading clears it.
pub proof fn law_failures_count_consecutive(
    totals: Map<Seq<char>, u64>,
    fails: Map<Seq<char>, u32>,
    u: Seq<char>,
    ms: Seq<GpuMetrics>,
)
    requires
        !fails.contains_key(u),
        ms.len() < u32::MAX,
        forall|i: int| 0 <= i < ms.len() ==> (#[trigger] ms[i]).uuid@ == u && ms[i].memory_used is None,
    ensures
        ms.len() > 0 ==> caches_after(totals, fails, ms).1.contains_key(u)
            && caches_after(totals, fails, ms).1[u] == ms.len(),
    decreases ms.len(),
{
    if ms.len() > 0 {
        let m = ms.last();
        assert(m == ms[ms.len() - 1]);
        let c = caches_after(totals, fails, ms.drop_last());
        if ms.len() == 1 {
            assert(c == (totals, fails));
        } else {
            assert forall|i: int| 0 <= i < ms.drop_last().len() implies (#[trigger] ms.drop_last()[i]).uuid@
                == u && ms.drop_last()[i].memory_used is None by {
                assert(ms.drop_last()[i] == ms[i]);
            }
            law_failures_count_consecutive(totals, fails, u, ms.drop_last());
        }
    }
}

/// A snapshot with a memory reading clears its device's failure counter.
pub proof fn law_reading_clears_failures(fails: Map<Seq<char>, u32>, m: GpuMetrics)
    requires
        m.memory_used is Some,
    ensures
        !fails_after(fails, m).contains_key(m.uuid@),
{
}

/// Memory use is carried over a failed reading only within the limit of
/// consecutive failures, and only from the device's previous snapshot.
pub proof fn law_carry_within_ttl(prev: Seq<GpuMetrics>, fails: Map<Seq<char>, u32>, m: GpuMetrics)
    requires
        m.memory_used is None,
    ensures
        failures(fails, m) > VRAM_CARRY_FORWARD_TTL ==> reported_used(prev, fails, m) is None,
        last_index_of(prev, m.uuid@) < 0 ==> reported_used(prev, fails, m) is None,
        failures(fails, m) <= VRAM_CARRY_FORWARD_TTL && last_index_of(prev, m.uuid@) >= 0 ==> reported_used(prev, fails, m)
            == prev[last_index_of(prev, m.uuid@)].memory_used,
{
}

pub(crate) proof fn lemma_last_index_in_range(s: Seq<GpuMetrics>, u: Seq<char>)
    ensures
        -1 <= last_index_of(s, u) < s.len(),
        last_index_of(s, u) >= 0 ==> s[last_index_of(s, u)].uuid@ == u,
    decreases s.len(),
{
    if s.len() > 0 {
        lemma_last_index_in_range(s.drop_last(), u);
    }
}

/// Processes are carried into a snapshot only when it lists none, and the
/// carried ones are still alive and come from the device's previous snapshot.
pub proof fn law_carried_processes_are_alive(prev: Seq<GpuMetrics>, alive: Seq<u32>, m: GpuMetrics)
    requires
        carried_processes(prev, alive, m) is Some,
    ensures
        m.top_processes@.len() == 0,
        ({
            let a = carried_processes(prev, alive, m)->0;
            let i = last_index_of(prev, m.uuid@);
            &&& 0 <= i < prev.len()
            &&& prev[i].uuid@ == m.uuid@
            &&& a.len() > 0
            &&& forall|j: int| 0 <= j < a.len() ==> alive.contains(#[trigger] a[j].pid)
                && prev[i].top_processes@.contains(a[j])
        }),
{
    let i = last_index_of(prev, m.uuid@);
    lemma_last_index_in_range(prev, m.uuid@);
    let procs = prev[i].top_processes@;
    let pred = |p: GpuProcessInfo| alive.contains(p.pid);
    let a = procs.filter(pred);
    assert forall|j: int| 0 <= j < a.len() implies alive.contains(#[trigger] a[j].pid)
        && procs.contains(a[j]) by {
        procs.lemma_filter_pred(pred, j);
        procs.lemma_filter_contains_rev(pred, a[j]);
        assert(a.contains(a[j]));
    }
}

/// After a refresh to `n` devices, a selection at or past `n` moves to the
/// last device, and a selection below `n`, or any selection when no device
/// is reported, stays where it was.
pub proof fn law_refresh_clamps_selection(pre: App, news: Seq<GpuMetrics>, alive: Seq<u32>, post: App)
    requires
        refresh_outcome(pre, news, alive, post),
    ensures
        news.len() > 0 && pre.selected_gpu >= news.len() ==> post.selected_gpu == news.len() - 1,
        pre.selected_gpu < news.len() ==> post.selected_gpu == pre.selected_gpu,
        news.len() == 0 ==> post.selected_gpu == pre.selected_gpu,
{
}

/// When a refreshed device lists no processes, every process of its
/// previous snapshot whose PID is listed as alive is carried into it,
/// whatever the state of the other processes; and whatever it then shows
/// comes from that previous snapshot and is alive, with the count of what
/// it shows.
pub proof fn law_live_processes_are_carried(
    pre: App,
    news: Seq<GpuMetrics>,
    alive: Seq<u32>,
    post: App,
    j: int,
)
    requires
        refresh_outcome(pre, news, alive, post),
        0 <= j < news.len(),
        news[j].top_processes@.len() == 0,
        last_index_of(pre.metrics@, news[j].uuid@) >= 0,
    ensures
        ({
            let prev = pre.metrics@[last_index_of(pre.metrics@, news[j].uuid@)].top_processes@;
            let got = post.metrics@[j].top_processes@;
            &&& forall|k: int|
                0 <= k < prev.len() && alive.contains(#[trigger] prev[k].pid) ==> got.contains(prev[k])
            &&& forall|k: int|
                0 <= k < got.len() ==> prev.contains(#[trigger] got[k]) && alive.contains(got[k].pid)
            &&& got.len() > 0 ==> post.metrics@[j].process_count == got.len() as u32
        }),
{
    let m = news[j];
    let i = last_index_of(pre.metrics@, m.uuid@);
    let prev = pre.metrics@[i].top_processes@;
    let cj = caches_after(pre.last_known_vram_total@, pre.vram_fail_count@, news.take(j));
    assert(refreshed(post.metrics@[j], news[j], pre.metrics@, alive, cj.0, cj.1));
    let pred = |p: GpuProcessInfo| alive.contains(p.pid);
    let a = prev.filter(pred);
    let got = post.metrics@[j].top_processes@;
    assert forall|k: int| 0 <= k < prev.len() && alive.contains(#[trigger] prev[k].pid) implies got.contains(
        prev[k],
    ) by {
        prev.lemma_filter_contains(pred, k);
        assert(a.len() > 0);
        assert(got == a);
    }
    assert forall|k: int| 0 <= k < got.len() implies prev.contains(#[trigger] got[k]) && alive.contains(
        got[k].pid,
    ) by {
        if carried_processes(pre.metrics@, alive, m) is Some {
            assert(got == a);
            prev.lemma_filter_pred(pred, k);
            prev.lemma_filter_contains_rev(pred, a[k]);
            assert(a.contains(a[k]));
        } else {
            assert(got == m.top_processes@);
        }
    }
}

} // verus!
