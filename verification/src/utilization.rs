use vstd::prelude::*;

verus! {

/// Recent samples averaged for a parent GPU's utilization.
pub const RECENT_SAMPLES: usize = 5;

/// Divisor that turns a raw utilization sample into percent.
pub const SAMPLE_SCALE: u64 = 10000;

/// `r` is the largest value of `s` no greater than 100, or 0 if none is.
pub open spec fn is_max_valid(s: Seq<u32>, r: u32) -> bool {
    &&& r <= 100
    &&& forall|i: int| 0 <= i < s.len() && s[i] <= 100 ==> #[trigger] s[i] <= r
    &&& (r == 0 || exists|i: int| 0 <= i < s.len() && #[trigger] s[i] == r)
}

fn max_valid(s: &Vec<u32>) -> (r: u32)
    ensures
        is_max_valid(s@, r),
{
    let mut best: u32 = 0;
    let mut i: usize = 0;
    while i < s.len()
        invariant
            0 <= i <= s@.len(),
            is_max_valid(s@.take(i as int), best),
        decreases s.len() - i,
    {
        proof {
            assert(s@.take(i + 1).drop_last() =~= s@.take(i as int));
        }
        if s[i] <= 100 && s[i] > best {
            best = s[i];
        }
        proof {
            let t = s@.take(i + 1);
            assert(t[i as int] == s@[i as int]);
            assert forall|j: int| 0 <= j < t.len() && t[j] <= 100 implies #[trigger] t[j] <= best by {
                if j < i {
                    assert(t[j] == s@.take(i as int)[j]);
                }
            }
            if best != 0 {
                if best == s@[i as int] {
                    assert(t[i as int] == best);
                } else {
                    let j = choose|j: int| 0 <= j < i && #[trigger] s@.take(i as int)[j] == best;
                    assert(t[j] == best);
                }
            }
        }
        i = i + 1;
    }
    assert(s@.take(s@.len() as int) =~= s@);
    best
}

/// A MIG instance's utilization from per-process samples: the largest SM and
/// the largest memory figure among those no greater than 100.
pub fn aggregate_process_utilization(sm: &Vec<u32>, mem: &Vec<u32>) -> (r: (u32, u32))
    ensures
        is_max_valid(sm@, r.0),
        is_max_valid(mem@, r.1),
{
    (max_valid(sm), max_valid(mem))
}

/// The sum of a sequence of samples.
pub open spec fn sum(s: Seq<u32>) -> nat
    decreases s.len(),
{
    if s.len() == 0 {
        0
    } else {
        sum(s.drop_last()) + (s.last() as nat)
    }
}

/// Parent utilization from raw samples: the mean of the last
/// `RECENT_SAMPLES` samples over `SAMPLE_SCALE`, at most 100; none without
/// samples.
pub open spec fn sampled_util(s: Seq<u32>) -> Option<u32> {
    if s.len() == 0 {
        None
    } else {
        let n = if s.len() < RECENT_SAMPLES {
            s.len()
        } else {
            RECENT_SAMPLES as nat
        };
        let avg = sum(s.skip(s.len() - n)) / n;
        let pct = avg / (SAMPLE_SCALE as nat);
        Some(if pct > 100 {
            100u32
        } else {
            pct as u32
        })
    }
}

proof fn lemma_sum_bound(s: Seq<u32>)
    ensures
        sum(s) <= s.len() * 0xffff_ffff,
    decreases s.len(),
{
    if s.len() > 0 {
        lemma_sum_bound(s.drop_last());
    }
}

/// A parent device's utilization in percent (GPU or memory controller) from
/// its raw samples, oldest first.
pub fn sampled_gpu_util(samples: &Vec<u32>) -> (r: Option<u32>)
    ensures
        r == sampled_util(samples@),
{
    let len = samples.len();
    if len == 0 {
        return None;
    }
    let n = if len < RECENT_SAMPLES {
        len
    } else {
        RECENT_SAMPLES
    };
    let start = len - n;
    let ghost tail = samples@.skip(start as int);
    let mut total: u64 = 0;
    let mut i: usize = start;
    while i < len
        invariant
            start <= i <= len,
            len == samples@.len(),
            n == len - start,
            n <= RECENT_SAMPLES,
            tail == samples@.skip(start as int),
            total == sum(tail.take(i - start)),
            total <= (i - start) * 0xffff_ffff,
        decreases len - i,
    {
        proof {
            assert(tail.take(i - start + 1).drop_last() =~= tail.take(i - start));
            assert(tail.take(i - start + 1).last() == samples@[i as int]);
        }
        total = total + samples[i] as u64;
        i = i + 1;
    }
    assert(tail.take(n as int) =~= tail);
    let avg = total / (n as u64);
    let pct = avg / SAMPLE_SCALE;
    Some(
        if pct > 100 {
            100
        } else {
            pct as u32
        },
    )
}

/// A MIG instance's share of its parent's utilization, scaled by the ratio
/// of all slices to the instance's slices and capped at 100.
pub open spec fn scaled_util(parent_util: u32, total_slices: u32, mig_slices: u32) -> u32 {
    let v = (parent_util as nat) * (total_slices as nat) / (mig_slices as nat);
    if v > 100 {
        100
    } else {
        v as u32
    }
}

/// `parent_util * total_slices / mig_slices`, capped at 100.
pub fn scaled_parent_util(parent_util: u32, total_slices: u32, mig_slices: u32) -> (r: u32)
    requires
        mig_slices > 0,
    ensures
        r == scaled_util(parent_util, total_slices, mig_slices),
{
    let a = parent_util as u64;
    let b = total_slices as u64;
    assert(a * b <= 0xffff_ffff * 0xffff_ffff) by (nonlinear_arith)
        requires
            a <= 0xffff_ffff,
            b <= 0xffff_ffff,
    ;
    let product = a * b;
    let v = product / (mig_slices as u64);
    if v > 100 {
        100
    } else {
        v as u32
    }
}

/// The memory figure of a MIG instance once its own is known to be missing:
/// the parent's sampled memory-controller utilization, else the parent's
/// current memory utilization, either scaled by slice ratio; none when both
/// are missing or the instance's slice count is unknown.
pub open spec fn parent_memory_share(
    parent_mem_sampled: Option<u32>,
    parent_mem_rate: Option<u32>,
    total_slices: u32,
    mig_slices: Option<u32>,
) -> Option<u32> {
    match (parent_mem_sampled, parent_mem_rate, mig_slices) {
        (Some(p), _, Some(ms)) => Some(scaled_util(p, total_slices, ms)),
        (None, Some(p), Some(ms)) => Some(scaled_util(p, total_slices, ms)),
        _ => None,
    }
}

/// The utilization figures of a MIG instance after the fallbacks: a missing
/// GPU figure is taken first from per-process samples (SM figure for GPU and
/// SM, a non-zero memory figure for memory), then from the parent's GPU
/// samples scaled by slice ratio (GPU and SM). A memory figure still missing
/// is taken from the parent's memory readings (`parent_memory_share`).
pub open spec fn mig_fallbacks(
    gpu: Option<u32>,
    sm: Option<u32>,
    mem: Option<u32>,
    proc_util: Option<(u32, u32)>,
    parent_util: Option<u32>,
    parent_mem_sampled: Option<u32>,
    parent_mem_rate: Option<u32>,
    total_slices: u32,
    mig_slices: Option<u32>,
) -> (Option<u32>, Option<u32>, Option<u32>) {
    let (g1, s1, m1) = match (gpu, proc_util) {
        (None, Some((ps, pm))) => (Some(ps), Some(ps), if pm > 0 {
            Some(pm)
        } else {
            mem
        }),
        _ => (gpu, sm, mem),
    };
    let (g2, s2) = match (g1, parent_util, mig_slices) {
        (None, Some(p), Some(ms)) => {
            let v = scaled_util(p, total_slices, ms);
            (Some(v), Some(v))
        },
        _ => (g1, s1),
    };
    let m2 = match m1 {
        Some(v) => Some(v),
        None => parent_memory_share(parent_mem_sampled, parent_mem_rate, total_slices, mig_slices),
    };
    (g2, s2, m2)
}

/// Applies the MIG utilization fallbacks to the GPU, SM and memory figures.
pub fn mig_utilization(
    gpu: Option<u32>,
    sm: Option<u32>,
    mem: Option<u32>,
    proc_util: Option<(u32, u32)>,
    parent_util: Option<u32>,
    parent_mem_sampled: Option<u32>,
    parent_mem_rate: Option<u32>,
    total_slices: u32,
    mig_slices: Option<u32>,
) -> (r: (Option<u32>, Option<u32>, Option<u32>))
    requires
        mig_slices != Some(0u32),
    ensures
        r == mig_fallbacks(
            gpu,
            sm,
            mem,
            proc_util,
            parent_util,
            parent_mem_sampled,
            parent_mem_rate,
            total_slices,
            mig_slices,
        ),
{
    let (mut g, mut s, mut m) = (gpu, sm, mem);
    if g.is_none() {
        if let Some((ps, pm)) = proc_util {
            g = Some(ps);
            s = Some(ps);
            if pm > 0 {
                m = Some(pm);
            }
        }
    }
    if g.is_none() {
        if let Some(p) = parent_util {
            if let Some(ms) = mig_slices {
                let v = scaled_parent_util(p, total_slices, ms);
                g = Some(v);
                s = Some(v);
            }
        }
    }
    if m.is_none() {
        if let Some(ms) = mig_slices {
            let parent_mem = match parent_mem_sampled {
                Some(p) => Some(p),
                None => parent_mem_rate,
            };
            if let Some(p) = parent_mem {
                m = Some(scaled_parent_util(p, total_slices, ms));
            }
        }
    }
    (g, s, m)
}

/// Every utilization figure the fallbacks derive is a percentage: at most 100.
pub proof fn law_derived_utilization_at_most_100(
    samples: Seq<u32>,
    parent_util: u32,
    total_slices: u32,
    mig_slices: u32,
)
    ensures
        sampled_util(samples) matches Some(u) ==> u <= 100,
        mig_slices > 0 ==> scaled_util(parent_util, total_slices, mig_slices) <= 100,
{
    if mig_slices > 0 {
        let v = (parent_util as nat) * (total_slices as nat) / (mig_slices as nat);
        assert(v >= 0);
    }
}

} // verus!
