use mig_gpu_mon::metrics::{GpuMetrics, GpuProcessInfo};
use mig_gpu_mon::processes::{
    device_processes, merge_process_lists, mig_processes, parent_processes_for_instance, shown_pids,
    top_processes, ProcEntry,
};

fn e(pid: u32, vram: Option<u64>) -> ProcEntry {
    ProcEntry { pid, vram, gpu_instance_id: None }
}

fn on(pid: u32, vram: Option<u64>, gi: Option<u32>) -> ProcEntry {
    ProcEntry { pid, vram, gpu_instance_id: gi }
}

fn pids(v: &[ProcEntry]) -> Vec<u32> {
    v.iter().map(|p| p.pid).collect()
}

#[test]
fn top_processes_orders_known_memory_first() {
    let list = vec![e(5, None), e(1, Some(10)), e(3, None), e(2, Some(30)), e(4, Some(20))];
    assert_eq!(pids(&top_processes(&list)), vec![2, 4, 1, 3, 5]);
}

#[test]
fn top_processes_keeps_five_and_ties_in_order() {
    let list = vec![
        e(9, Some(1)),
        e(8, Some(7)),
        e(7, Some(7)),
        e(6, Some(7)),
        e(5, None),
        e(4, Some(2)),
        e(3, Some(100)),
    ];
    assert_eq!(pids(&top_processes(&list)), vec![3, 8, 7, 6, 4]);
    assert!(top_processes(&Vec::new()).is_empty());
}

#[test]
fn merge_keeps_first_occurrence_of_each_pid() {
    let compute = vec![e(1, Some(5)), e(2, None), e(1, Some(99))];
    let graphics = vec![e(2, Some(7)), e(3, Some(1))];
    let merged = merge_process_lists(&compute, &graphics);
    assert_eq!(pids(&merged), vec![1, 2, 3]);
    assert_eq!(merged[0].vram, Some(5));
    assert_eq!(merged[1].vram, None);
}

#[test]
fn device_processes_counts_before_truncating() {
    let compute: Vec<ProcEntry> = (1..=7).map(|p| e(p, Some(p as u64))).collect();
    let graphics = vec![e(3, None), e(8, None)];
    let (count, top) = device_processes(&compute, &graphics);
    assert_eq!(count, 8);
    assert_eq!(pids(&top), vec![7, 6, 5, 4, 3]);
}

#[test]
fn mig_processes_filter_by_instance() {
    let parent = vec![on(1, Some(5), Some(1)), on(2, Some(9), Some(2)), on(3, Some(7), Some(1))];
    let (count, top) = mig_processes(&parent, Some(1));
    assert_eq!(count, 2);
    assert_eq!(pids(&top), vec![3, 1]);
}

#[test]
fn mig_processes_show_all_without_instance_ids() {
    let parent = vec![e(1, Some(5)), e(2, Some(9))];
    let (count, top) = mig_processes(&parent, Some(1));
    assert_eq!(count, 2);
    assert_eq!(pids(&top), vec![2, 1]);
    let with_ids = vec![on(1, Some(5), Some(1))];
    let (count, top) = mig_processes(&with_ids, None);
    assert_eq!(count, 1);
    assert_eq!(pids(&top), vec![1]);
}

fn device(procs: &[u32]) -> GpuMetrics {
    GpuMetrics {
        index: 0,
        name: "GPU".to_string(),
        uuid: "GPU-1".to_string(),
        is_mig_instance: false,
        parent_gpu_index: None,
        gpu_util: None,
        memory_util: None,
        sm_util: None,
        memory_used: None,
        memory_total: None,
        temperature: None,
        power_usage: None,
        power_limit: None,
        process_count: procs.len() as u32,
        top_processes: procs
            .iter()
            .map(|&pid| GpuProcessInfo { pid, name: "p".to_string(), vram_used: None })
            .collect(),
        architecture: None,
        compute_capability: None,
        ecc_enabled: None,
        temp_shutdown: None,
        temp_slowdown: None,
        clock_graphics_mhz: None,
        clock_sm_mhz: None,
        clock_memory_mhz: None,
        pcie_tx_kbps: None,
        pcie_rx_kbps: None,
        pcie_gen: None,
        pcie_width: None,
        performance_state: None,
        throttle_reasons: None,
        encoder_util: None,
        decoder_util: None,
        ecc_errors_corrected: None,
        ecc_errors_uncorrected: None,
    }
}

#[test]
fn shown_pids_lists_every_device() {
    let ms = vec![device(&[4, 2]), device(&[]), device(&[9])];
    assert_eq!(shown_pids(&ms), vec![4, 2, 9]);
}

#[test]
fn memory_in_mebibytes() {
    let mut m = device(&[]);
    m.memory_used = Some(3 * 1024 * 1024 + 1);
    m.memory_total = Some(1024 * 1024 - 1);
    assert_eq!(m.memory_used_mb(), Some(3));
    assert_eq!(m.memory_total_mb(), Some(0));
    let p = GpuProcessInfo { pid: 1, name: "x".to_string(), vram_used: Some(5 * 1024 * 1024) };
    assert_eq!(p.vram_used_mb(), Some(5));
    let q = GpuProcessInfo { pid: 1, name: "x".to_string(), vram_used: None };
    assert_eq!(q.vram_used_mb(), None);
}

#[test]
fn instance_with_own_processes_keeps_them() {
    let parent = vec![on(1, Some(10), Some(2)), on(2, Some(20), Some(3))];
    let own = vec![GpuProcessInfo { pid: 9, name: "own".to_string(), vram_used: Some(1) }];
    assert!(parent_processes_for_instance(&own, &parent, Some(2)).is_none());
    let (count, top) = parent_processes_for_instance(&Vec::new(), &parent, Some(2)).unwrap();
    assert_eq!(count, 1);
    assert_eq!(pids(&top), vec![1]);
    let (count, top) = parent_processes_for_instance(&Vec::new(), &parent, None).unwrap();
    assert_eq!(count, 2);
    assert_eq!(pids(&top), vec![2, 1]);
}
