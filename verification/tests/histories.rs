use std::collections::VecDeque;

use mig_gpu_mon::history::{
    push_ring, push_with_ttl, MetricsHistory, SystemHistory, SPARKLINE_CARRY_FORWARD_TTL,
};
use mig_gpu_mon::metrics::GpuMetrics;

fn contents<T: Copy>(b: &VecDeque<T>) -> Vec<T> {
    b.iter().copied().collect()
}

fn reading(gpu: Option<u32>, used: Option<u64>) -> GpuMetrics {
    GpuMetrics {
        index: 0,
        name: "GPU".to_string(),
        uuid: "GPU-1".to_string(),
        is_mig_instance: false,
        parent_gpu_index: None,
        gpu_util: gpu,
        memory_util: None,
        sm_util: None,
        memory_used: used,
        memory_total: None,
        temperature: None,
        power_usage: Some(250_500),
        power_limit: None,
        process_count: 0,
        top_processes: Vec::new(),
        architecture: None,
        compute_capability: None,
        ecc_enabled: None,
        temp_shutdown: None,
        temp_slowdown: None,
        clock_graphics_mhz: None,
        clock_sm_mhz: None,
        clock_memory_mhz: None,
        pcie_tx_kbps: None,
        pcie_rx_kbps: None,
        pcie_gen: None,
        pcie_width: None,
        performance_state: None,
        throttle_reasons: None,
        encoder_util: None,
        decoder_util: None,
        ecc_errors_corrected: None,
        ecc_errors_uncorrected: None,
    }
}

#[test]
fn ring_keeps_the_newest_values() {
    let mut b = VecDeque::new();
    for v in 1..=5u32 {
        push_ring(&mut b, v, 3);
    }
    assert_eq!(contents(&b), vec![3, 4, 5]);
}

#[test]
fn ring_below_capacity_only_appends() {
    let mut b = VecDeque::new();
    push_ring(&mut b, 7u32, 3);
    push_ring(&mut b, 8u32, 3);
    assert_eq!(contents(&b), vec![7, 8]);
}

#[test]
fn ring_of_zero_capacity_keeps_one() {
    let mut b = VecDeque::new();
    push_ring(&mut b, 1u32, 0);
    push_ring(&mut b, 2u32, 0);
    assert_eq!(contents(&b), vec![2]);
}

#[test]
fn missing_value_never_fabricated() {
    let mut b: VecDeque<u32> = VecDeque::new();
    let run = push_with_ttl(&mut b, 0, None, 0, 3);
    assert!(b.is_empty());
    assert_eq!(run, 1);
    let run = push_with_ttl(&mut b, run, Some(9), 0, 3);
    assert_eq!(run, 0);
    let run = push_with_ttl(&mut b, run, None, 0, 3);
    let run = push_with_ttl(&mut b, run, None, 0, 3);
    let run = push_with_ttl(&mut b, run, None, 0, 3);
    assert_eq!(run, 3);
    assert_eq!(contents(&b), vec![9, 9, 9]);
}

#[test]
fn missing_value_repeats_for_ten_readings_then_drops_to_zero() {
    let mut b: VecDeque<u32> = VecDeque::new();
    let mut run = push_with_ttl(&mut b, 0, Some(45), 0, 300);
    for _ in 0..10 {
        run = push_with_ttl(&mut b, run, None, 0, 300);
    }
    assert_eq!(run, SPARKLINE_CARRY_FORWARD_TTL);
    assert_eq!(contents(&b), vec![45; 11]);
    run = push_with_ttl(&mut b, run, None, 0, 300);
    assert_eq!(run, 11);
    assert_eq!(*b.back().unwrap(), 0);
    for _ in 0..5 {
        run = push_with_ttl(&mut b, run, None, 0, 300);
    }
    assert_eq!(run, 11);
    assert_eq!(b.len(), 17);
    assert_eq!(contents(&b)[11..].to_vec(), vec![0; 6]);
    run = push_with_ttl(&mut b, run, Some(7), 0, 300);
    assert_eq!(run, 0);
    run = push_with_ttl(&mut b, run, None, 0, 300);
    assert_eq!(run, 1);
    assert_eq!(*b.back().unwrap(), 7);
}

#[test]
fn history_gap_longer_than_ttl_records_zeros() {
    let mut h = MetricsHistory::new(300);
    h.push(&reading(Some(45), Some(2 * 1024 * 1024)));
    for _ in 0..11 {
        h.push(&reading(None, None));
    }
    assert_eq!(h.gpu_util.len(), 12);
    assert_eq!(contents(&h.gpu_util)[..11].to_vec(), vec![45; 11]);
    assert_eq!(*h.gpu_util.back().unwrap(), 0);
    assert_eq!(*h.memory_used_mb.back().unwrap(), 0);
    assert_eq!(h.memory_used_mb[10], 2);
    assert_eq!(h.none_counts[0], 11);
    assert_eq!(h.none_counts[2], 11);
    assert_eq!(h.none_counts[5], 0);
    assert!(h.temperature.is_empty());
    assert_eq!(h.none_counts[4], 11);
}

#[test]
fn metrics_history_records_each_metric() {
    let mut h = MetricsHistory::new(2);
    assert_eq!(h.max_entries, 2);
    h.push(&reading(Some(10), Some(3 * 1024 * 1024 + 5)));
    h.push(&reading(None, None));
    h.push(&reading(Some(30), Some(1024 * 1024)));
    assert_eq!(contents(&h.gpu_util), vec![10, 30]);
    assert_eq!(contents(&h.memory_used_mb), vec![3, 1]);
    assert_eq!(contents(&h.power_usage_mw), vec![250_500, 250_500]);
    assert!(h.memory_util.is_empty());
    assert!(h.temperature.is_empty());
}

#[test]
fn system_history_is_bounded() {
    let mut h: SystemHistory<f32, f64> = SystemHistory::new(2);
    h.push(10.0, 50.0);
    h.push(20.0, 60.0);
    h.push(30.0, 70.0);
    assert_eq!(contents(&h.cpu_total), vec![20.0, 30.0]);
    assert_eq!(contents(&h.ram_percent), vec![60.0, 70.0]);
    assert_eq!(h.max_entries, 2);
}
