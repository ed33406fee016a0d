use std::collections::VecDeque;
use vstd::prelude::*;

use crate::metrics::{mib_of, GpuMetrics};

verus! {

broadcast use vstd::std_specs::vecdeque::group_vec_dequeue_axioms;

/// The most entries a ring buffer created with `max` holds: `max`, but at
/// least one, because a push always stores the new value.
pub open spec fn ring_bound(max: nat) -> nat {
    if max == 0 {
        1
    } else {
        max
    }
}

/// The contents of a ring buffer after `v` is pushed: the oldest entry is
/// dropped first when the buffer already holds `max` or more entries.
pub open spec fn ring_pushed<T>(s: Seq<T>, v: T, max: nat) -> Seq<T> {
    if s.len() >= max && s.len() > 0 {
        s.drop_first().push(v)
    } else {
        s.push(v)
    }
}

/// Consecutive missing readings of one metric during which its chart repeats
/// the newest value; past that, zeros are recorded so the chart drops.
pub const SPARKLINE_CARRY_FORWARD_TTL: u32 = 10;

/// The length of a metric's run of missing readings once `v` arrives: a
/// reading ends the run; a missing one lengthens it, counting no further
/// than one past `SPARKLINE_CARRY_FORWARD_TTL`.
pub open spec fn missing_run_after<T>(run: u32, v: Option<T>) -> u32 {
    match v {
        Some(_) => 0,
        None => if run <= SPARKLINE_CARRY_FORWARD_TTL {
            (run + 1) as u32
        } else {
            (SPARKLINE_CARRY_FORWARD_TTL + 1) as u32
        },
    }
}

/// The contents after an optional reading, `run` being the length of the
/// run of missing readings before it. A reading is pushed. A missing reading
/// leaves an empty buffer empty; otherwise it repeats the newest entry while
/// the run, this reading included, is at most `SPARKLINE_CARRY_FORWARD_TTL`
/// long, and pushes `zero` after that.
pub open spec fn ring_pushed_with_ttl<T>(s: Seq<T>, run: u32, v: Option<T>, zero: T, max: nat) -> Seq<T> {
    match v {
        Some(x) => ring_pushed(s, x, max),
        None => if s.len() == 0 {
            s
        } else if missing_run_after(run, v) <= SPARKLINE_CARRY_FORWARD_TTL {
            ring_pushed(s, s.last(), max)
        } else {
            ring_pushed(s, zero, max)
        },
    }
}

/// Appends `val`, first evicting the oldest entry when `buf` holds `max` or more.
pub fn push_ring<T>(buf: &mut VecDeque<T>, val: T, max: usize)
    ensures
        final(buf)@ == ring_pushed(old(buf)@, val, max as nat),
{
    if buf.len() >= max {
        let _ = buf.pop_front();
    }
    buf.push_back(val);
}

/// Records an optional reading of one metric and returns the new length of
/// its run of missing readings. A reading is pushed. A missing reading
/// repeats the newest entry so that the chart keeps scrolling, for at most
/// `SPARKLINE_CARRY_FORWARD_TTL` readings in a row; after that `zero` is
/// pushed instead. A buffer that never saw a value stays empty.
pub fn push_with_ttl<T: Copy>(buf: &mut VecDeque<T>, run: u32, val: Option<T>, zero: T, max: usize) -> (r: u32)
    ensures
        r == missing_run_after(run, val),
        final(buf)@ == ring_pushed_with_ttl(old(buf)@, run, val, zero, max as nat),
{
    match val {
        Some(v) => {
            push_ring(buf, v, max);
            0
        },
        None => {
            let r = if run <= SPARKLINE_CARRY_FORWARD_TTL {
                run + 1
            } else {
                SPARKLINE_CARRY_FORWARD_TTL + 1
            };
            let n = buf.len();
            if n > 0 {
                let v = if r <= SPARKLINE_CARRY_FORWARD_TTL {
                    buf[n - 1]
                } else {
                    zero
                };
                push_ring(buf, v, max);
            }
            r
        },
    }
}

/// The contents of a `MetricsHistory`: one sequence per metric, oldest first.
pub struct HistoryView {
    pub gpu_util: Seq<u32>,
    pub memory_util: Seq<u32>,
    pub memory_used_mb: Seq<u64>,
    pub sm_util: Seq<u32>,
    pub temperature: Seq<u32>,
    pub power_usage_mw: Seq<u32>,
    pub clock_graphics_mhz: Seq<u32>,
    pub pcie_tx_kbps: Seq<u32>,
    pub pcie_rx_kbps: Seq<u32>,
    /// The length of each metric's current run of missing readings, in the
    /// order of the sequences above.
    pub missing_runs: Seq<u32>,
    pub limit: nat,
}

impl HistoryView {
    /// A history with no entries that keeps `limit` entries per metric.
    pub open spec fn empty(limit: nat) -> HistoryView {
        HistoryView {
            gpu_util: Seq::empty(),
            memory_util: Seq::empty(),
            memory_used_mb: Seq::empty(),
            sm_util: Seq::empty(),
            temperature: Seq::empty(),
            power_usage_mw: Seq::empty(),
            clock_graphics_mhz: Seq::empty(),
            pcie_tx_kbps: Seq::empty(),
            pcie_rx_kbps: Seq::empty(),
            missing_runs: seq![0u32, 0, 0, 0, 0, 0, 0, 0, 0],
            limit,
        }
    }

    /// The history after one snapshot is recorded.
    pub open spec fn pushed(self, m: GpuMetrics) -> HistoryView {
        let r = self.missing_runs;
        let l = self.limit;
        HistoryView {
            gpu_util: ring_pushed_with_ttl(self.gpu_util, r[0], m.gpu_util, 0, l),
            memory_util: ring_pushed_with_ttl(self.memory_util, r[1], m.memory_util, 0, l),
            memory_used_mb: ring_pushed_with_ttl(self.memory_used_mb, r[2], mib_of(m.memory_used), 0, l),
            sm_util: ring_pushed_with_ttl(self.sm_util, r[3], m.sm_util, 0, l),
            temperature: ring_pushed_with_ttl(self.temperature, r[4], m.temperature, 0, l),
            power_usage_mw: ring_pushed_with_ttl(self.power_usage_mw, r[5], m.power_usage, 0, l),
            clock_graphics_mhz: ring_pushed_with_ttl(self.clock_graphics_mhz, r[6], m.clock_graphics_mhz, 0, l),
            pcie_tx_kbps: ring_pushed_with_ttl(self.pcie_tx_kbps, r[7], m.pcie_tx_kbps, 0, l),
            pcie_rx_kbps: ring_pushed_with_ttl(self.pcie_rx_kbps, r[8], m.pcie_rx_kbps, 0, l),
            missing_runs: seq![
                missing_run_after(r[0], m.gpu_util),
                missing_run_after(r[1], m.memory_util),
                missing_run_after(r[2], mib_of(m.memory_used)),
                missing_run_after(r[3], m.sm_util),
                missing_run_after(r[4], m.temperature),
                missing_run_after(r[5], m.power_usage),
                missing_run_after(r[6], m.clock_graphics_mhz),
                missing_run_after(r[7], m.pcie_tx_kbps),
                missing_run_after(r[8], m.pcie_rx_kbps),
            ],
            limit: l,
        }
    }

    /// Every sequence holds at most `ring_bound(limit)` entries.
    pub open spec fn bounded(self) -> bool {
        let b = ring_bound(self.limit);
        &&& self.gpu_util.len() <= b
        &&& self.memory_util.len() <= b
        &&& self.memory_used_mb.len() <= b
        &&& self.sm_util.len() <= b
        &&& self.temperature.len() <= b
        &&& self.power_usage_mw.len() <= b
        &&& self.clock_graphics_mhz.len() <= b
        &&& self.pcie_tx_kbps.len() <= b
        &&& self.pcie_rx_kbps.len() <= b
    }
}

/// Time series of one GPU or MIG instance, one ring buffer per metric.
/// Power is kept in milliwatts, as the driver reports it.
#[derive(Debug, Clone)]
pub struct MetricsHistory {
    pub gpu_util: VecDeque<u32>,
    pub memory_util: VecDeque<u32>,
    pub memory_used_mb: VecDeque<u64>,
    pub sm_util: VecDeque<u32>,
    pub temperature: VecDeque<u32>,
    pub power_usage_mw: VecDeque<u32>,
    pub clock_graphics_mhz: VecDeque<u32>,
    pub pcie_tx_kbps: VecDeque<u32>,
    pub pcie_rx_kbps: VecDeque<u32>,
    /// The length of each metric's current run of missing readings, in the
    /// order of the buffers above.
    pub none_counts: [u32; 9],
    pub max_entries: usize,
}

impl View for MetricsHistory {
    type V = HistoryView;

    open spec fn view(&self) -> HistoryView {
        HistoryView {
            gpu_util: self.gpu_util@,
            memory_util: self.memory_util@,
            memory_used_mb: self.memory_used_mb@,
            sm_util: self.sm_util@,
            temperature: self.temperature@,
            power_usage_mw: self.power_usage_mw@,
            clock_graphics_mhz: self.clock_graphics_mhz@,
            pcie_tx_kbps: self.pcie_tx_kbps@,
            pcie_rx_kbps: self.pcie_rx_kbps@,
            missing_runs: self.none_counts@,
            limit: self.max_entries as nat,
        }
    }
}

impl MetricsHistory {
    /// An empty history whose buffers keep `max_entries` values each.
    pub fn new(max_entries: usize) -> (r: Self)
        ensures
            r@ == HistoryView::empty(max_entries as nat),
    {
        let r = MetricsHistory {
            gpu_util: VecDeque::with_capacity(max_entries),
            memory_util: VecDeque::with_capacity(max_entries),
            memory_used_mb: VecDeque::with_capacity(max_entries),
            sm_util: VecDeque::with_capacity(max_entries),
            temperature: VecDeque::with_capacity(max_entries),
            power_usage_mw: VecDeque::with_capacity(max_entries),
            clock_graphics_mhz: VecDeque::with_capacity(max_entries),
            pcie_tx_kbps: VecDeque::with_capacity(max_entries),
            pcie_rx_kbps: VecDeque::with_capacity(max_entries),
            none_counts: [0, 0, 0, 0, 0, 0, 0, 0, 0],
            max_entries,
        };
        assert(r.none_counts@ =~= seq![0u32, 0, 0, 0, 0, 0, 0, 0, 0]);
        r
    }

    /// Records one snapshot: each present reading is appended; each missing
    /// reading repeats the buffer's newest value for up to
    /// `SPARKLINE_CARRY_FORWARD_TTL` readings in a row, and records a zero
    /// after that.
    pub fn push(&mut self, metrics: &GpuMetrics)
        ensures
            final(self)@ == old(self)@.pushed(*metrics),
    {
        let max = self.max_entries;
        let r = self.none_counts;
        let c0 = push_with_ttl(&mut self.gpu_util, r[0], metrics.gpu_util, 0, max);
        let c1 = push_with_ttl(&mut self.memory_util, r[1], metrics.memory_util, 0, max);
        let c2 = push_with_ttl(&mut self.memory_used_mb, r[2], metrics.memory_used_mb(), 0, max);
        let c3 = push_with_ttl(&mut self.sm_util, r[3], metrics.sm_util, 0, max);
        let c4 = push_with_ttl(&mut self.temperature, r[4], metrics.temperature, 0, max);
        let c5 = push_with_ttl(&mut self.power_usage_mw, r[5], metrics.power_usage, 0, max);
        let c6 = push_with_ttl(&mut self.clock_graphics_mhz, r[6], metrics.clock_graphics_mhz, 0, max);
        let c7 = push_with_ttl(&mut self.pcie_tx_kbps, r[7], metrics.pcie_tx_kbps, 0, max);
        let c8 = push_with_ttl(&mut self.pcie_rx_kbps, r[8], metrics.pcie_rx_kbps, 0, max);
        self.none_counts = [c0, c1, c2, c3, c4, c5, c6, c7, c8];
        assert(self.none_counts@ =~= old(self)@.pushed(*metrics).missing_runs);
    }
}

/// Time series of whole-system figures: total CPU usage and RAM usage, in
/// whatever sample types the caller measures them with.
#[derive(Debug, Clone)]
pub struct SystemHistory<C, R> {
    pub cpu_total: VecDeque<C>,
    pub ram_percent: VecDeque<R>,
    pub max_entries: usize,
}

impl<C, R> SystemHistory<C, R> {
    /// The number of entries each buffer keeps.
    pub open spec fn limit(&self) -> nat {
        self.max_entries as nat
    }

    /// Both buffers hold at most `ring_bound(limit)` entries.
    pub open spec fn bounded(&self) -> bool {
        &&& self.cpu_total@.len() <= ring_bound(self.limit())
        &&& self.ram_percent@.len() <= ring_bound(self.limit())
    }

    /// An empty history whose buffers keep `max_entries` values each.
    pub fn new(max_entries: usize) -> (r: Self)
        ensures
            r.limit() == max_entries,
            r.cpu_total@.len() == 0,
            r.ram_percent@.len() == 0,
    {
        SystemHistory {
            cpu_total: VecDeque::with_capacity(max_entries),
            ram_percent: VecDeque::with_capacity(max_entries),
            max_entries,
        }
    }

    /// Appends one sample of each figure, evicting the oldest when full.
    pub fn push(&mut self, cpu_total: C, ram_percent: R)
        ensures
            final(self).limit() == old(self).limit(),
            final(self).cpu_total@ == ring_pushed(old(self).cpu_total@, cpu_total, old(self).limit()),
            final(self).ram_percent@ == ring_pushed(
                old(self).ram_percent@,
                ram_percent,
                old(self).limit(),
            ),
    {
        let max = self.max_entries;
        push_ring(&mut self.cpu_total, cpu_total, max);
        push_ring(&mut self.ram_percent, ram_percent, max);
    }
}

/// The contents after each value of `vals` is pushed in order.
pub open spec fn ring_pushed_all<T>(s: Seq<T>, vals: Seq<T>, max: nat) -> Seq<T>
    decreases vals.len(),
{
    if vals.len() == 0 {
        s
    } else {
        ring_pushed(ring_pushed_all(s, vals.drop_last(), max), vals.last(), max)
    }
}

/// A ring buffer never holds more than `ring_bound(max)` entries.
pub proof fn law_ring_stays_bounded<T>(s: Seq<T>, v: T, max: nat)
    requires
        s.len() <= ring_bound(max),
    ensures
        ring_pushed(s, v, max).len() <= ring_bound(max),
{
}

/// A push keeps the newest values: the pushed value comes last, after the
/// previous contents less at most their oldest entry, which goes only when
/// the buffer was full.
pub proof fn law_ring_keeps_newest<T>(s: Seq<T>, v: T, max: nat)
    ensures
        ring_pushed(s, v, max).last() == v,
        s.len() < max ==> ring_pushed(s, v, max) == s.push(v),
        s.len() >= max && s.len() > 0 ==> ring_pushed(s, v, max) == s.subrange(1, s.len() as int).push(v),
{
}

/// Pushing a stream of values into an empty buffer leaves the newest
/// `ring_bound(max)` of them, oldest first.
pub proof fn law_ring_window<T>(vals: Seq<T>, max: nat)
    ensures
        ring_pushed_all(Seq::<T>::empty(), vals, max) == vals.skip(
            if vals.len() <= ring_bound(max) {
                0
            } else {
                vals.len() - ring_bound(max)
            },
        ),
    decreases vals.len(),
{
    if vals.len() > 0 {
        let prev = vals.drop_last();
        law_ring_window(prev, max);
        let w = ring_pushed_all(Seq::<T>::empty(), prev, max);
        let b = ring_bound(max);
        if prev.len() <= b {
            assert(w =~= prev);
        }
        let r = ring_pushed(w, vals.last(), max);
        assert(r =~= vals.skip(
            if vals.len() <= b {
                0
            } else {
                vals.len() - b
            },
        ));
    }
}

/// A metric's buffer and run of missing readings after the optional
/// readings `vals` arrive in order.
pub open spec fn series_after<T>(s: Seq<T>, run: u32, vals: Seq<Option<T>>, zero: T, max: nat) -> (Seq<T>, u32)
    decreases vals.len(),
{
    if vals.len() == 0 {
        (s, run)
    } else {
        let p = series_after(s, run, vals.drop_last(), zero, max);
        (ring_pushed_with_ttl(p.0, p.1, vals.last(), zero, max), missing_run_after(p.1, vals.last()))
    }
}

/// A reading `x` followed by `k` missing readings.
pub open spec fn reading_then_gap<T>(x: T, k: nat) -> Seq<Option<T>> {
    seq![Some(x)] + Seq::new(k, |i: int| None::<T>)
}

/// A missing reading never invents a value: an empty buffer stays empty.
pub proof fn law_missing_reading_adds_nothing_to_empty<T>(run: u32, zero: T, max: nat)
    ensures
        ring_pushed_with_ttl(Seq::<T>::empty(), run, None, zero, max) == Seq::<T>::empty(),
        missing_run_after(run, None::<T>) <= SPARKLINE_CARRY_FORWARD_TTL + 1,
{
}

/// After a reading `x` and `k` missing readings, whatever came before, the
/// run of missing readings is `k`, counted up to one past
/// `SPARKLINE_CARRY_FORWARD_TTL`, and the newest entry is `x` while `k` is
/// at most `SPARKLINE_CARRY_FORWARD_TTL`, and zero after that.
pub proof fn law_gap_repeats_then_drops<T>(s: Seq<T>, run: u32, x: T, k: nat, zero: T, max: nat)
    ensures
        ({
            let r = series_after(s, run, reading_then_gap(x, k), zero, max);
            &&& r.1 as int == if k <= SPARKLINE_CARRY_FORWARD_TTL {
                k as int
            } else {
                SPARKLINE_CARRY_FORWARD_TTL + 1
            }
            &&& r.0.len() > 0
            &&& r.0.last() == if k <= SPARKLINE_CARRY_FORWARD_TTL {
                x
            } else {
                zero
            }
        }),
    decreases k,
{
    let vals = reading_then_gap(x, k);
    if k == 0 {
        assert(vals.drop_last() =~= Seq::<Option<T>>::empty());
        assert(vals.last() == Some(x));
    } else {
        law_gap_repeats_then_drops(s, run, x, (k - 1) as nat, zero, max);
        assert(vals.drop_last() =~= reading_then_gap(x, (k - 1) as nat));
        assert(vals.last() == None::<T>);
    }
}

/// Recording a snapshot keeps every buffer of a history within its bound.
pub proof fn law_history_stays_bounded(h: HistoryView, m: GpuMetrics)
    requires
        h.bounded(),
    ensures
        h.pushed(m).bounded(),
{
}

/// The history after the snapshots `ms` are recorded in order.
pub open spec fn history_after(h: HistoryView, ms: Seq<GpuMetrics>) -> HistoryView
    decreases ms.len(),
{
    if ms.len() == 0 {
        h
    } else {
        history_after(h, ms.drop_last()).pushed(ms.last())
    }
}

/// However many snapshots a history records, it keeps its limit, and each
/// of its buffers stays within `ring_bound(limit)` entries.
pub proof fn law_history_bounded_after_any_pushes(h: HistoryView, ms: Seq<GpuMetrics>)
    requires
        h.bounded(),
    ensures
        history_after(h, ms).bounded(),
        history_after(h, ms).limit == h.limit,
    decreases ms.len(),
{
    if ms.len() > 0 {
        law_history_bounded_after_any_pushes(h, ms.drop_last());
    }
}

/// Readings that are all present fill a buffer like a plain ring: the run of
/// missing readings plays no part.
pub proof fn law_present_readings_fill_ring<T>(s: Seq<T>, run: u32, vals: Seq<T>, zero: T, max: nat)
    ensures
        series_after(s, run, vals.map_values(|x: T| Some(x)), zero, max).0 == ring_pushed_all(s, vals, max),
    decreases vals.len(),
{
    if vals.len() > 0 {
        let opts = vals.map_values(|x: T| Some(x));
        assert(opts.drop_last() =~= vals.drop_last().map_values(|x: T| Some(x)));
        assert(opts.last() == Some(vals.last()));
        law_present_readings_fill_ring(s, run, vals.drop_last(), zero, max);
    }
}

/// Each buffer of a history, with its run of missing readings, evolves on
/// its own: after any snapshots it is what that metric's readings alone make
/// of it.
pub proof fn law_history_tracks_each_metric(h: HistoryView, ms: Seq<GpuMetrics>)
    ensures
        history_after(h, ms).limit == h.limit,
        ({
            let r = series_after(
                h.gpu_util,
                h.missing_runs[0],
                ms.map_values(|m: GpuMetrics| m.gpu_util),
                0,
                h.limit,
            );
            history_after(h, ms).gpu_util == r.0 && history_after(h, ms).missing_runs[0] == r.1
        }),
        ({
            let r = series_after(
                h.memory_util,
                h.missing_runs[1],
                ms.map_values(|m: GpuMetrics| m.memory_util),
                0,
                h.limit,
            );
            history_after(h, ms).memory_util == r.0 && history_after(h, ms).missing_runs[1] == r.1
        }),
        ({
            let r = series_after(
                h.memory_used_mb,
                h.missing_runs[2],
                ms.map_values(|m: GpuMetrics| mib_of(m.memory_used)),
                0,
                h.limit,
            );
            history_after(h, ms).memory_used_mb == r.0 && history_after(h, ms).missing_runs[2] == r.1
        }),
        ({
            let r = series_after(
                h.sm_util,
                h.missing_runs[3],
                ms.map_values(|m: GpuMetrics| m.sm_util),
                0,
                h.limit,
            );
            history_after(h, ms).sm_util == r.0 && history_after(h, ms).missing_runs[3] == r.1
        }),
        ({
            let r = series_after(
                h.temperature,
                h.missing_runs[4],
                ms.map_values(|m: GpuMetrics| m.temperature),
                0,
                h.limit,
            );
            history_after(h, ms).temperature == r.0 && history_after(h, ms).missing_runs[4] == r.1
        }),
        ({
            let r = series_after(
                h.power_usage_mw,
                h.missing_runs[5],
                ms.map_values(|m: GpuMetrics| m.power_usage),
                0,
                h.limit,
            );
            history_after(h, ms).power_usage_mw == r.0 && history_after(h, ms).missing_runs[5] == r.1
        }),
        ({
            let r = series_after(
                h.clock_graphics_mhz,
                h.missing_runs[6],
                ms.map_values(|m: GpuMetrics| m.clock_graphics_mhz),
                0,
                h.limit,
            );
            history_after(h, ms).clock_graphics_mhz == r.0 && history_after(h, ms).missing_runs[6] == r.1
        }),
        ({
            let r = series_after(
                h.pcie_tx_kbps,
                h.missing_runs[7],
                ms.map_values(|m: GpuMetrics| m.pcie_tx_kbps),
                0,
                h.limit,
            );
            history_after(h, ms).pcie_tx_kbps == r.0 && history_after(h, ms).missing_runs[7] == r.1
        }),
        ({
            let r = series_after(
                h.pcie_rx_kbps,
                h.missing_runs[8],
                ms.map_values(|m: GpuMetrics| m.pcie_rx_kbps),
                0,
                h.limit,
            );
            history_after(h, ms).pcie_rx_kbps == r.0 && history_after(h, ms).missing_runs[8] == r.1
        }),
    decreases ms.len(),
{
    if ms.len() > 0 {
        let p = ms.drop_last();
        law_history_tracks_each_metric(h, p);
        assert(ms.map_values(|m: GpuMetrics| m.gpu_util).drop_last() =~= p.map_values(|m: GpuMetrics| m.gpu_util));
        assert(ms.map_values(|m: GpuMetrics| m.memory_util).drop_last() =~= p.map_values(|m: GpuMetrics| m.memory_util));
        assert(ms.map_values(|m: GpuMetrics| mib_of(m.memory_used)).drop_last() =~= p.map_values(|m: GpuMetrics| mib_of(m.memory_used)));
        assert(ms.map_values(|m: GpuMetrics| m.sm_util).drop_last() =~= p.map_values(|m: GpuMetrics| m.sm_util));
        assert(ms.map_values(|m: GpuMetrics| m.temperature).drop_last() =~= p.map_values(|m: GpuMetrics| m.temperature));
        assert(ms.map_values(|m: GpuMetrics| m.power_usage).drop_last() =~= p.map_values(|m: GpuMetrics| m.power_usage));
        assert(ms.map_values(|m: GpuMetrics| m.clock_graphics_mhz).drop_last() =~= p.map_values(|m: GpuMetrics| m.clock_graphics_mhz));
        assert(ms.map_values(|m: GpuMetrics| m.pcie_tx_kbps).drop_last() =~= p.map_values(|m: GpuMetrics| m.pcie_tx_kbps));
        assert(ms.map_values(|m: GpuMetrics| m.pcie_rx_kbps).drop_last() =~= p.map_values(|m: GpuMetrics| m.pcie_rx_kbps));
    }
}

/// Through `MetricsHistory::push`: when a metric's readings over the
/// snapshots `ms` are one reading `x` followed only by missing ones, its
/// buffer ends with `x` while at most `SPARKLINE_CARRY_FORWARD_TTL` readings
/// are missing, and with zero after that. The same holds of all nine buffers.
pub proof fn law_history_gap_repeats_then_drops(h: HistoryView, ms: Seq<GpuMetrics>)
    requires
        ms.len() > 0,
    ensures
        forall|x: u32|
            #![trigger reading_then_gap(x, (ms.len() - 1) as nat)]
            ms.map_values(|m: GpuMetrics| m.gpu_util) == reading_then_gap(x, (ms.len() - 1) as nat) ==> {
                let b = history_after(h, ms).gpu_util;
                &&& b.len() > 0
                &&& b.last() == if ms.len() - 1 <= SPARKLINE_CARRY_FORWARD_TTL {
                    x
                } else {
                    0
                }
            },
        forall|x: u32|
            #![trigger reading_then_gap(x, (ms.len() - 1) as nat)]
            ms.map_values(|m: GpuMetrics| m.memory_util) == reading_then_gap(x, (ms.len() - 1) as nat) ==> {
                let b = history_after(h, ms).memory_util;
                &&& b.len() > 0
                &&& b.last() == if ms.len() - 1 <= SPARKLINE_CARRY_FORWARD_TTL {
                    x
                } else {
                    0
                }
            },
        forall|x: u64|
            #![trigger reading_then_gap(x, (ms.len() - 1) as nat)]
            ms.map_values(|m: GpuMetrics| mib_of(m.memory_used)) == reading_then_gap(x, (ms.len() - 1) as nat) ==> {
                let b = history_after(h, ms).memory_used_mb;
                &&& b.len() > 0
                &&& b.last() == if ms.len() - 1 <= SPARKLINE_CARRY_FORWARD_TTL {
                    x
                } else {
                    0
                }
            },
        forall|x: u32|
            #![trigger reading_then_gap(x, (ms.len() - 1) as nat)]
            ms.map_values(|m: GpuMetrics| m.sm_util) == reading_then_gap(x, (ms.len() - 1) as nat) ==> {
                let b = history_after(h, ms).sm_util;
                &&& b.len() > 0
                &&& b.last() == if ms.len() - 1 <= SPARKLINE_CARRY_FORWARD_TTL {
                    x
                } else {
                    0
                }
            },
        forall|x: u32|
            #![trigger reading_then_gap(x, (ms.len() - 1) as nat)]
            ms.map_values(|m: GpuMetrics| m.temperature) == reading_then_gap(x, (ms.len() - 1) as nat) ==> {
                let b = history_after(h, ms).temperature;
                &&& b.len() > 0
                &&& b.last() == if ms.len() - 1 <= SPARKLINE_CARRY_FORWARD_TTL {
                    x
                } else {
                    0
                }
            },
        forall|x: u32|
            #![trigger reading_then_gap(x, (ms.len() - 1) as nat)]
            ms.map_values(|m: GpuMetrics| m.power_usage) == reading_then_gap(x, (ms.len() - 1) as nat) ==> {
                let b = history_after(h, ms).power_usage_mw;
                &&& b.len() > 0
                &&& b.last() == if ms.len() - 1 <= SPARKLINE_CARRY_FORWARD_TTL {
                    x
                } else {
                    0
                }
            },
        forall|x: u32|
            #![trigger reading_then_gap(x, (ms.len() - 1) as nat)]
            ms.map_values(|m: GpuMetrics| m.clock_graphics_mhz) == reading_then_gap(x, (ms.len() - 1) as nat) ==> {
                let b = history_after(h, ms).clock_graphics_mhz;
                &&& b.len() > 0
                &&& b.last() == if ms.len() - 1 <= SPARKLINE_CARRY_FORWARD_TTL {
                    x
                } else {
                    0
                }
            },
        forall|x: u32|
            #![trigger reading_then_gap(x, (ms.len() - 1) as nat)]
            ms.map_values(|m: GpuMetrics| m.pcie_tx_kbps) == reading_then_gap(x, (ms.len() - 1) as nat) ==> {
                let b = history_after(h, ms).pcie_tx_kbps;
                &&& b.len() > 0
                &&& b.last() == if ms.len() - 1 <= SPARKLINE_CARRY_FORWARD_TTL {
                    x
                } else {
                    0
                }
            },
        forall|x: u32|
            #![trigger reading_then_gap(x, (ms.len() - 1) as nat)]
            ms.map_values(|m: GpuMetrics| m.pcie_rx_kbps) == reading_then_gap(x, (ms.len() - 1) as nat) ==> {
                let b = history_after(h, ms).pcie_rx_kbps;
                &&& b.len() > 0
                &&& b.last() == if ms.len() - 1 <= SPARKLINE_CARRY_FORWARD_TTL {
                    x
                } else {
                    0
                }
            },
{
    law_history_tracks_each_metric(h, ms);
    assert forall|x: u32|
        #![trigger reading_then_gap(x, (ms.len() - 1) as nat)]
        ms.map_values(|m: GpuMetrics| m.gpu_util) == reading_then_gap(x, (ms.len() - 1) as nat) implies {
            let b = history_after(h, ms).gpu_util;
            &&& b.len() > 0
            &&& b.last() == if ms.len() - 1 <= SPARKLINE_CARRY_FORWARD_TTL {
                x
            } else {
                0
            }
        } by {
        law_gap_repeats_then_drops(h.gpu_util, h.missing_runs[0], x, (ms.len() - 1) as nat, 0, h.limit);
    }
    assert forall|x: u32|
        #![trigger reading_then_gap(x, (ms.len() - 1) as nat)]
        ms.map_values(|m: GpuMetrics| m.memory_util) == reading_then_gap(x, (ms.len() - 1) as nat) implies {
            let b = history_after(h, ms).memory_util;
            &&& b.len() > 0
            &&& b.last() == if ms.len() - 1 <= SPARKLINE_CARRY_FORWARD_TTL {
                x
            } else {
                0
            }
        } by {
        law_gap_repeats_then_drops(h.memory_util, h.missing_runs[1], x, (ms.len() - 1) as nat, 0, h.limit);
    }
    assert forall|x: u64|
        #![trigger reading_then_gap(x, (ms.len() - 1) as nat)]
        ms.map_values(|m: GpuMetrics| mib_of(m.memory_used)) == reading_then_gap(x, (ms.len() - 1) as nat) implies {
            let b = history_after(h, ms).memory_used_mb;
            &&& b.len() > 0
            &&& b.last() == if ms.len() - 1 <= SPARKLINE_CARRY_FORWARD_TTL {
                x
            } else {
                0
            }
        } by {
        law_gap_repeats_then_drops(h.memory_used_mb, h.missing_runs[2], x, (ms.len() - 1) as nat, 0, h.limit);
    }
    assert forall|x: u32|
        #![trigger reading_then_gap(x, (ms.len() - 1) as nat)]
        ms.map_values(|m: GpuMetrics| m.sm_util) == reading_then_gap(x, (ms.len() - 1) as nat) implies {
            let b = history_after(h, ms).sm_util;
            &&& b.len() > 0
            &&& b.last() == if ms.len() - 1 <= SPARKLINE_CARRY_FORWARD_TTL {
                x
            } else {
                0
            }
        } by {
        law_gap_repeats_then_drops(h.sm_util, h.missing_runs[3], x, (ms.len() - 1) as nat, 0, h.limit);
    }
    assert forall|x: u32|
        #![trigger reading_then_gap(x, (ms.len() - 1) as nat)]
        ms.map_values(|m: GpuMetrics| m.temperature) == reading_then_gap(x, (ms.len() - 1) as nat) implies {
            let b = history_after(h, ms).temperature;
            &&& b.len() > 0
            &&& b.last() == if ms.len() - 1 <= SPARKLINE_CARRY_FORWARD_TTL {
                x
            } else {
                0
            }
        } by {
        law_gap_repeats_then_drops(h.temperature, h.missing_runs[4], x, (ms.len() - 1) as nat, 0, h.limit);
    }
    assert forall|x: u32|
        #![trigger reading_then_gap(x, (ms.len() - 1) as nat)]
        ms.map_values(|m: GpuMetrics| m.power_usage) == reading_then_gap(x, (ms.len() - 1) as nat) implies {
            let b = history_after(h, ms).power_usage_mw;
            &&& b.len() > 0
            &&& b.last() == if ms.len() - 1 <= SPARKLINE_CARRY_FORWARD_TTL {
                x
            } else {
                0
            }
        } by {
        law_gap_repeats_then_drops(h.power_usage_mw, h.missing_runs[5], x, (ms.len() - 1) as nat, 0, h.limit);
    }
    assert forall|x: u32|
        #![trigger reading_then_gap(x, (ms.len() - 1) as nat)]
        ms.map_values(|m: GpuMetrics| m.clock_graphics_mhz) == reading_then_gap(x, (ms.len() - 1) as nat) implies {
            let b = history_after(h, ms).clock_graphics_mhz;
            &&& b.len() > 0
            &&& b.last() == if ms.len() - 1 <= SPARKLINE_CARRY_FORWARD_TTL {
                x
            } else {
                0
            }
        } by {
        law_gap_repeats_then_drops(h.clock_graphics_mhz, h.missing_runs[6], x, (ms.len() - 1) as nat, 0, h.limit);
    }
    assert forall|x: u32|
        #![trigger reading_then_gap(x, (ms.len() - 1) as nat)]
        ms.map_values(|m: GpuMetrics| m.pcie_tx_kbps) == reading_then_gap(x, (ms.len() - 1) as nat) implies {
            let b = history_after(h, ms).pcie_tx_kbps;
            &&& b.len() > 0
            &&& b.last() == if ms.len() - 1 <= SPARKLINE_CARRY_FORWARD_TTL {
                x
            } else {
                0
            }
        } by {
        law_gap_repeats_then_drops(h.pcie_tx_kbps, h.missing_runs[7], x, (ms.len() - 1) as nat, 0, h.limit);
    }
    assert forall|x: u32|
        #![trigger reading_then_gap(x, (ms.len() - 1) as nat)]
        ms.map_values(|m: GpuMetrics| m.pcie_rx_kbps) == reading_then_gap(x, (ms.len() - 1) as nat) implies {
            let b = history_after(h, ms).pcie_rx_kbps;
            &&& b.len() > 0
            &&& b.last() == if ms.len() - 1 <= SPARKLINE_CARRY_FORWARD_TTL {
                x
            } else {
                0
            }
        } by {
        law_gap_repeats_then_drops(h.pcie_rx_kbps, h.missing_runs[8], x, (ms.len() - 1) as nat, 0, h.limit);
    }
}

/// A history made by `MetricsHistory::new(limit)` and fed any snapshots
/// keeps every buffer within `ring_bound(limit)` entries, and a metric
/// reported in every snapshot holds the newest `ring_bound(limit)` of its
/// readings, oldest first.
pub proof fn law_fresh_history_windows(limit: nat, ms: Seq<GpuMetrics>)
    ensures
        history_after(HistoryView::empty(limit), ms).bounded(),
        forall|vals: Seq<u32>|
            ms.map_values(|m: GpuMetrics| m.gpu_util) == vals.map_values(|x: u32| Some(x)) ==> history_after(
                HistoryView::empty(limit),
                ms,
            ).gpu_util == vals.skip(
                if vals.len() <= ring_bound(limit) {
                    0
                } else {
                    vals.len() - ring_bound(limit)
                },
            ),
        forall|vals: Seq<u64>|
            ms.map_values(|m: GpuMetrics| mib_of(m.memory_used)) == vals.map_values(|x: u64| Some(x))
                ==> history_after(HistoryView::empty(limit), ms).memory_used_mb == vals.skip(
                if vals.len() <= ring_bound(limit) {
                    0
                } else {
                    vals.len() - ring_bound(limit)
                },
            ),
{
    let h = HistoryView::empty(limit);
    law_history_bounded_after_any_pushes(h, ms);
    law_history_tracks_each_metric(h, ms);
    assert forall|vals: Seq<u32>|
        ms.map_values(|m: GpuMetrics| m.gpu_util) == vals.map_values(|x: u32| Some(x)) implies history_after(
            HistoryView::empty(limit),
            ms,
        ).gpu_util == vals.skip(
            if vals.len() <= ring_bound(limit) {
                0
            } else {
                vals.len() - ring_bound(limit)
            },
        ) by {
        law_present_readings_fill_ring(Seq::<u32>::empty(), h.missing_runs[0], vals, 0, limit);
        law_ring_window(vals, limit);
    }
    assert forall|vals: Seq<u64>|
        ms.map_values(|m: GpuMetrics| mib_of(m.memory_used)) == vals.map_values(|x: u64| Some(x))
            implies history_after(HistoryView::empty(limit), ms).memory_used_mb == vals.skip(
            if vals.len() <= ring_bound(limit) {
                0
            } else {
                vals.len() - ring_bound(limit)
            },
        ) by {
        law_present_readings_fill_ring(Seq::<u64>::empty(), h.missing_runs[2], vals, 0, limit);
        law_ring_window(vals, limit);
    }
}

} // verus!
