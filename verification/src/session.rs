use vstd::prelude::*;

use crate::app::{
    caches_after, fails_after, histories_after, history_views, last_index_of, lemma_histories_dom,
    lemma_last_index_in_range, lemma_refreshed_uuids, refresh_outcome, reported_total, reported_used,
    same_data, totals_after, uuid_set, uuids_distinct, App, VRAM_CARRY_FORWARD_TTL,
};
use crate::metrics::GpuMetrics;

verus! {

proof fn lemma_caches_elsewhere(
    totals: Map<Seq<char>, u64>,
    fails: Map<Seq<char>, u32>,
    ms: Seq<GpuMetrics>,
    u: Seq<char>,
)
    requires
        forall|i: int| 0 <= i < ms.len() ==> (#[trigger] ms[i]).uuid@ != u,
    ensures
        caches_after(totals, fails, ms).0.get(u) == totals.get(u),
        caches_after(totals, fails, ms).1.get(u) == fails.get(u),
    decreases ms.len(),
{
    if ms.len() > 0 {
        let p = ms.drop_last();
        assert forall|i: int| 0 <= i < p.len() implies (#[trigger] p[i]).uuid@ != u by {
            assert(p[i] == ms[i]);
        }
        lemma_caches_elsewhere(totals, fails, p, u);
        assert(ms.last() == ms[ms.len() - 1]);
    }
}

proof fn lemma_caches_at(
    totals: Map<Seq<char>, u64>,
    fails: Map<Seq<char>, u32>,
    news: Seq<GpuMetrics>,
    j: int,
    k: int,
)
    requires
        uuids_distinct(news),
        0 <= j < k <= news.len(),
    ensures
        ({
            let u = news[j].uuid@;
            let c = caches_after(totals, fails, news.take(k));
            &&& c.0.get(u) == totals_after(totals, news[j]).get(u)
            &&& c.1.get(u) == fails_after(fails, news[j]).get(u)
        }),
    decreases k - j,
{
    let u = news[j].uuid@;
    assert(news.take(k).drop_last() =~= news.take(k - 1));
    assert(news.take(k).last() == news[k - 1]);
    if k == j + 1 {
        assert forall|i: int| 0 <= i < news.take(j).len() implies (#[trigger] news.take(j)[i]).uuid@ != u by {
            assert(news.take(j)[i] == news[i]);
            assert(news[i].uuid@ != news[j].uuid@);
        }
        lemma_caches_elsewhere(totals, fails, news.take(j), u);
    } else {
        lemma_caches_at(totals, fails, news, j, k - 1);
        assert(news[j].uuid@ != news[k - 1].uuid@);
    }
}

/// What one refresh with distinct UUIDs does to the caches of one device:
/// a device not reported loses its entries; a reported one has them updated
/// from its snapshot alone, and its stored memory figures are those computed
/// from the caches before the refresh.
pub(crate) proof fn lemma_refresh_step(pre: App, news: Seq<GpuMetrics>, alive: Seq<u32>, post: App, u: Seq<char>)
    requires
        refresh_outcome(pre, news, alive, post),
        uuids_distinct(news),
    ensures
        !uuid_set(news).contains(u) ==> post.vram_fail_count@.get(u) is None
            && post.last_known_vram_total@.get(u) is None,
        forall|j: int|
            0 <= j < news.len() && (#[trigger] news[j]).uuid@ == u ==> {
                &&& post.vram_fail_count@.get(u) == fails_after(pre.vram_fail_count@, news[j]).get(u)
                &&& post.last_known_vram_total@.get(u) == totals_after(pre.last_known_vram_total@, news[j]).get(u)
                &&& post.metrics@[j].memory_used == reported_used(pre.metrics@, pre.vram_fail_count@, news[j])
                &&& post.metrics@[j].memory_total == reported_total(pre.last_known_vram_total@, news[j])
            },
{
    let t0 = pre.last_known_vram_total@;
    let f0 = pre.vram_fail_count@;
    let keep = uuid_set(news);
    assert forall|j: int| 0 <= j < news.len() && (#[trigger] news[j]).uuid@ == u implies {
        &&& post.vram_fail_count@.get(u) == fails_after(f0, news[j]).get(u)
        &&& post.last_known_vram_total@.get(u) == totals_after(t0, news[j]).get(u)
        &&& post.metrics@[j].memory_used == reported_used(pre.metrics@, f0, news[j])
        &&& post.metrics@[j].memory_total == reported_total(t0, news[j])
    } by {
        assert(news.take(news.len() as int) =~= news);
        lemma_caches_at(t0, f0, news, j, news.len() as int);
        assert(keep.contains(u)) by {
            assert(news[j].uuid@ == u);
        }
        assert forall|i: int| 0 <= i < news.take(j).len() implies (#[trigger] news.take(j)[i]).uuid@ != u by {
            assert(news.take(j)[i] == news[i]);
            assert(news[i].uuid@ != news[j].uuid@);
        }
        lemma_caches_elsewhere(t0, f0, news.take(j), u);
    }
}

/// `apps[i + 1]` is `apps[i]` after a refresh with the snapshots
/// `batches[i]`, whose UUIDs are distinct, and the live PIDs `alives[i]`.
pub open spec fn refresh_run(apps: Seq<App>, batches: Seq<Seq<GpuMetrics>>, alives: Seq<Seq<u32>>) -> bool {
    &&& apps.len() == batches.len() + 1
    &&& alives.len() == batches.len()
    &&& forall|i: int|
        #![trigger batches[i]]
        0 <= i < batches.len() ==> uuids_distinct(batches[i]) && refresh_outcome(
            apps[i],
            batches[i],
            alives[i],
            apps[i + 1],
        )
}

/// The number of refreshes in a row, ending with the last of `batches`, that
/// report the device `u` without a memory-use reading.
pub open spec fn missing_memory_streak(batches: Seq<Seq<GpuMetrics>>, u: Seq<char>) -> nat
    decreases batches.len(),
{
    if batches.len() == 0 {
        0
    } else {
        let b = batches.last();
        let i = last_index_of(b, u);
        if i >= 0 && b[i].memory_used is None {
            missing_memory_streak(batches.drop_last(), u) + 1
        } else {
            0
        }
    }
}

/// The total memory last reported for the device `u` over `batches`,
/// provided every refresh since has reported the device.
pub open spec fn total_still_known(batches: Seq<Seq<GpuMetrics>>, u: Seq<char>) -> Option<u64>
    decreases batches.len(),
{
    if batches.len() == 0 {
        None
    } else {
        let b = batches.last();
        let i = last_index_of(b, u);
        if i < 0 {
            None
        } else {
            match b[i].memory_total {
                Some(t) => Some(t),
                None => total_still_known(batches.drop_last(), u),
            }
        }
    }
}

proof fn lemma_run_prefix(apps: Seq<App>, batches: Seq<Seq<GpuMetrics>>, alives: Seq<Seq<u32>>)
    requires
        refresh_run(apps, batches, alives),
        batches.len() > 0,
    ensures
        refresh_run(apps.drop_last(), batches.drop_last(), alives.drop_last()),
        uuids_distinct(batches.last()),
        refresh_outcome(apps[apps.len() - 2], batches.last(), alives.last(), apps.last()),
{
    let n = batches.len() as int;
    assert forall|i: int| #![trigger batches.drop_last()[i]] 0 <= i < n - 1 implies uuids_distinct(
        batches.drop_last()[i],
    ) && refresh_outcome(
        apps.drop_last()[i],
        batches.drop_last()[i],
        alives.drop_last()[i],
        apps.drop_last()[i + 1],
    ) by {
        assert(batches.drop_last()[i] == batches[i]);
        assert(uuids_distinct(batches[i]) && refresh_outcome(apps[i], batches[i], alives[i], apps[i + 1]));
    }
    assert(batches.last() == batches[n - 1]);
    assert(uuids_distinct(batches[n - 1]));
}

proof fn lemma_run_tracked(
    apps: Seq<App>,
    batches: Seq<Seq<GpuMetrics>>,
    alives: Seq<Seq<u32>>,
    u: Seq<char>,
)
    requires
        refresh_run(apps, batches, alives),
        !apps[0].vram_fail_count@.contains_key(u),
        !apps[0].last_known_vram_total@.contains_key(u),
        batches.len() < u32::MAX,
    ensures
        apps.last().vram_fail_count@.get(u) == if missing_memory_streak(batches, u) > 0 {
            Some(missing_memory_streak(batches, u) as u32)
        } else {
            None
        },
        apps.last().last_known_vram_total@.get(u) == total_still_known(batches, u),
        missing_memory_streak(batches, u) <= batches.len(),
    decreases batches.len(),
{
    if batches.len() > 0 {
        lemma_run_prefix(apps, batches, alives);
        lemma_run_tracked(apps.drop_last(), batches.drop_last(), alives.drop_last(), u);
        let pre = apps[apps.len() - 2];
        assert(apps.drop_last().last() == pre);
        let b = batches.last();
        lemma_refresh_step(pre, b, alives.last(), apps.last(), u);
        let j = last_index_of(b, u);
        lemma_last_index_in_range(b, u);
        if j >= 0 {
            assert(b[j].uuid@ == u);
        } else {
            assert(!uuid_set(b).contains(u)) by {
                if uuid_set(b).contains(u) {
                    let i = choose|i: int| 0 <= i < b.len() && #[trigger] b[i].uuid@ == u;
                    lemma_last_index_found(b, u, i);
                }
            }
        }
    }
}

proof fn lemma_last_index_found(s: Seq<GpuMetrics>, u: Seq<char>, i: int)
    requires
        0 <= i < s.len(),
        s[i].uuid@ == u,
    ensures
        last_index_of(s, u) >= i,
    decreases s.len(),
{
    if i < s.len() - 1 {
        assert(s.drop_last()[i] == s[i]);
        lemma_last_index_found(s.drop_last(), u, i);
    }
}

/// Over a run of refreshes with distinct UUIDs that starts with no failure
/// counted for the device `u`, its failure counter is the number of
/// refreshes in a row, ending with the last, that reported it without a
/// memory-use reading: a reading, or a refresh without the device, clears
/// it. In the last refresh a missing reading is filled in from the device's
/// previous snapshot only while that number is at most
/// `VRAM_CARRY_FORWARD_TTL`, and is left missing after that.
pub proof fn law_failures_across_refreshes(
    apps: Seq<App>,
    batches: Seq<Seq<GpuMetrics>>,
    alives: Seq<Seq<u32>>,
    u: Seq<char>,
)
    requires
        refresh_run(apps, batches, alives),
        !apps[0].vram_fail_count@.contains_key(u),
        !apps[0].last_known_vram_total@.contains_key(u),
        batches.len() < u32::MAX,
    ensures
        ({
            let k = missing_memory_streak(batches, u);
            apps.last().vram_fail_count@.get(u) == if k > 0 {
                Some(k as u32)
            } else {
                None
            }
        }),
        batches.len() > 0 ==> {
            let b = batches.last();
            let pre = apps[apps.len() - 2];
            let j = last_index_of(b, u);
            let i = last_index_of(pre.metrics@, u);
            j >= 0 ==> apps.last().metrics@[j].memory_used == match b[j].memory_used {
                Some(v) => Some(v),
                None => if missing_memory_streak(batches, u) <= VRAM_CARRY_FORWARD_TTL && i >= 0 {
                    pre.metrics@[i].memory_used
                } else {
                    None
                },
            }
        },
{
    lemma_run_tracked(apps, batches, alives, u);
    if batches.len() > 0 {
        lemma_run_prefix(apps, batches, alives);
        lemma_run_tracked(apps.drop_last(), batches.drop_last(), alives.drop_last(), u);
        let pre = apps[apps.len() - 2];
        assert(apps.drop_last().last() == pre);
        let b = batches.last();
        lemma_refresh_step(pre, b, alives.last(), apps.last(), u);
        let j = last_index_of(b, u);
        lemma_last_index_in_range(b, u);
        if j >= 0 {
            assert(b[j].uuid@ == u);
        }
    }
}

/// Over a run of refreshes with distinct UUIDs that starts with no total
/// memory known for the device `u`, the total remembered for it is the last
/// one reported, as long as every refresh since has reported the device,
/// however many of them lacked a total. In the last refresh the device shows
/// its own total, else that remembered one.
pub proof fn law_total_survives_refreshes(
    apps: Seq<App>,
    batches: Seq<Seq<GpuMetrics>>,
    alives: Seq<Seq<u32>>,
    u: Seq<char>,
)
    requires
        refresh_run(apps, batches, alives),
        !apps[0].vram_fail_count@.contains_key(u),
        !apps[0].last_known_vram_total@.contains_key(u),
        batches.len() < u32::MAX,
    ensures
        apps.last().last_known_vram_total@.get(u) == total_still_known(batches, u),
        batches.len() > 0 ==> {
            let b = batches.last();
            let j = last_index_of(b, u);
            j >= 0 ==> apps.last().metrics@[j].memory_total == match b[j].memory_total {
                Some(t) => Some(t),
                None => total_still_known(batches.drop_last(), u),
            }
        },
{
    lemma_run_tracked(apps, batches, alives, u);
    if batches.len() > 0 {
        lemma_run_prefix(apps, batches, alives);
        lemma_run_tracked(apps.drop_last(), batches.drop_last(), alives.drop_last(), u);
        let pre = apps[apps.len() - 2];
        assert(apps.drop_last().last() == pre);
        let b = batches.last();
        lemma_refresh_step(pre, b, alives.last(), apps.last(), u);
        let j = last_index_of(b, u);
        lemma_last_index_in_range(b, u);
        if j >= 0 {
            assert(b[j].uuid@ == u);
        }
    }
}

/// Every device shown has a history.
pub open spec fn histories_cover_devices(app: App) -> bool {
    forall|j: int| 0 <= j < app.metrics@.len() ==> app.history@.contains_key(#[trigger] app.metrics@[j].uuid@)
}

/// `post` follows `pre` by a refresh, or by a step that keeps the data:
/// navigation, a key or tick event, quitting.
pub open spec fn app_step(pre: App, post: App) -> bool {
    ||| exists|news: Seq<GpuMetrics>, alive: Seq<u32>| #[trigger] refresh_outcome(pre, news, alive, post)
    ||| same_data(pre, post)
}

proof fn lemma_refresh_covers(pre: App, news: Seq<GpuMetrics>, alive: Seq<u32>, post: App)
    requires
        refresh_outcome(pre, news, alive, post),
    ensures
        histories_cover_devices(post),
{
    let hv = history_views(pre.history@);
    let h = histories_after(hv, post.metrics@);
    lemma_refreshed_uuids(pre, news, alive, post);
    lemma_histories_dom(hv, post.metrics@);
    assert(history_views(post.history@).dom() =~= post.history@.dom());
    assert forall|j: int| 0 <= j < post.metrics@.len() implies post.history@.contains_key(
        #[trigger] post.metrics@[j].uuid@,
    ) by {
        let k = post.metrics@[j].uuid@;
        assert(uuid_set(post.metrics@).contains(k));
        assert(h.dom().contains(k));
    }
}

/// In every state reached from a dashboard without devices, by refreshes
/// and by navigation, events and quitting, each device shown has a history;
/// so the selected device has a history exactly when a device is selected,
/// and `selected_history` answers exactly when `selected_metrics` does.
pub proof fn law_selected_device_has_history(apps: Seq<App>)
    requires
        apps.len() > 0,
        apps[0].metrics@.len() == 0,
        forall|i: int| 0 <= i < apps.len() - 1 ==> app_step(#[trigger] apps[i], apps[i + 1]),
    ensures
        forall|k: int|
            0 <= k < apps.len() ==> {
                let a = #[trigger] apps[k];
                &&& histories_cover_devices(a)
                &&& (a.selected_gpu < a.metrics@.len() && a.history@.contains_key(
                    a.metrics@[a.selected_gpu as int].uuid@,
                )) <==> a.selected_gpu < a.metrics@.len()
            },
    decreases apps.len(),
{
    if apps.len() > 1 {
        let p = apps.drop_last();
        assert forall|i: int| 0 <= i < p.len() - 1 implies app_step(#[trigger] p[i], p[i + 1]) by {
            assert(p[i] == apps[i]);
            assert(app_step(apps[i], apps[i + 1]));
        }
        law_selected_device_has_history(p);
        let n = apps.len() - 1;
        assert(p[n - 1] == apps[n - 1]);
        assert(histories_cover_devices(apps[n - 1]));
        assert(app_step(apps[n - 1], apps[n]));
        if exists|news: Seq<GpuMetrics>, alive: Seq<u32>| #[trigger] refresh_outcome(apps[n - 1], news, alive, apps[n]) {
            let (news, alive) = choose|news: Seq<GpuMetrics>, alive: Seq<u32>| #[trigger] refresh_outcome(
                apps[n - 1],
                news,
                alive,
                apps[n],
            );
            lemma_refresh_covers(apps[n - 1], news, alive, apps[n]);
        }
        assert forall|k: int| 0 <= k < apps.len() implies {
            let a = #[trigger] apps[k];
            &&& histories_cover_devices(a)
            &&& (a.selected_gpu < a.metrics@.len() && a.history@.contains_key(
                a.metrics@[a.selected_gpu as int].uuid@,
            )) <==> a.selected_gpu < a.metrics@.len()
        } by {
            if k < n {
                assert(p[k] == apps[k]);
            }
            let a = apps[k];
            if a.selected_gpu < a.metrics@.len() {
                assert(a.history@.contains_key(a.metrics@[a.selected_gpu as int].uuid@));
            }
        }
    } else {
        let a = apps[0];
        assert(histories_cover_devices(a));
    }
}

} // verus!
