use mig_gpu_mon::app::{App, MAX_HISTORY, VRAM_CARRY_FORWARD_TTL};
use mig_gpu_mon::event::{AppEvent, KeyCode, KeyInput};
use mig_gpu_mon::metrics::{GpuMetrics, GpuProcessInfo};

fn snapshot(uuid: &str) -> GpuMetrics {
    GpuMetrics {
        index: 0,
        name: format!("GPU {uuid}"),
        uuid: uuid.to_string(),
        is_mig_instance: false,
        parent_gpu_index: None,
        gpu_util: Some(40),
        memory_util: Some(20),
        sm_util: None,
        memory_used: Some(2 * 1024 * 1024 * 1024),
        memory_total: Some(8 * 1024 * 1024 * 1024),
        temperature: Some(55),
        power_usage: Some(120_000),
        power_limit: Some(300_000),
        process_count: 0,
        top_processes: Vec::new(),
        architecture: Some("Ampere"),
        compute_capability: Some("8.0".to_string()),
        ecc_enabled: Some(true),
        temp_shutdown: Some(92),
        temp_slowdown: Some(90),
        clock_graphics_mhz: Some(1410),
        clock_sm_mhz: Some(1410),
        clock_memory_mhz: Some(1215),
        pcie_tx_kbps: Some(1000),
        pcie_rx_kbps: Some(2000),
        pcie_gen: Some(4),
        pcie_width: Some(16),
        performance_state: Some("P0"),
        throttle_reasons: Some("None".to_string()),
        encoder_util: Some(0),
        decoder_util: Some(0),
        ecc_errors_corrected: Some(0),
        ecc_errors_uncorrected: Some(0),
    }
}

fn process(pid: u32, vram: Option<u64>) -> GpuProcessInfo {
    GpuProcessInfo { pid, name: format!("proc{pid}"), vram_used: vram }
}

fn app() -> App {
    App::new("535.129.03".to_string(), "12.2".to_string())
}

fn key(code: KeyCode) -> AppEvent {
    AppEvent::Key(KeyInput { code, ctrl: false })
}

#[test]
fn new_app_is_running_and_empty() {
    let a = app();
    assert!(a.running);
    assert_eq!(a.selected_gpu, 0);
    assert!(a.metrics.is_empty());
    assert_eq!(a.history.len(), 0);
    assert_eq!(a.driver_version, "535.129.03");
    assert_eq!(a.cuda_version, "12.2");
    assert!(a.selected_metrics().is_none());
    assert!(a.selected_history().is_none());
}

#[test]
fn update_stores_snapshots_and_histories() {
    let mut a = app();
    a.update_metrics_with_liveness(vec![snapshot("A"), snapshot("B")], &Vec::new());
    assert_eq!(a.metrics.len(), 2);
    assert_eq!(a.history.len(), 2);
    let h = a.history.get(&"A".to_string()).unwrap();
    assert_eq!(h.max_entries, MAX_HISTORY);
    assert_eq!(h.gpu_util.iter().copied().collect::<Vec<_>>(), vec![40]);
    assert_eq!(h.memory_used_mb.iter().copied().collect::<Vec<_>>(), vec![2048]);
    assert_eq!(h.power_usage_mw.iter().copied().collect::<Vec<_>>(), vec![120_000]);
    assert_eq!(a.selected_metrics().unwrap().uuid, "A");
    assert_eq!(a.selected_history().unwrap().gpu_util.len(), 1);
}

#[test]
fn vanished_devices_lose_their_history() {
    let mut a = app();
    a.update_metrics_with_liveness(vec![snapshot("A"), snapshot("B")], &Vec::new());
    a.update_metrics_with_liveness(vec![snapshot("C"), snapshot("D")], &Vec::new());
    assert_eq!(a.history.len(), 2);
    assert!(a.history.get(&"A".to_string()).is_none());
    assert!(a.history.get(&"C".to_string()).is_some());
    assert!(a.history.get(&"D".to_string()).is_some());
}

#[test]
fn selection_is_clamped_after_devices_disappear() {
    let mut a = app();
    a.update_metrics_with_liveness(vec![snapshot("A"), snapshot("B"), snapshot("C")], &Vec::new());
    a.next_gpu();
    a.next_gpu();
    assert_eq!(a.selected_gpu, 2);
    a.update_metrics_with_liveness(vec![snapshot("A")], &Vec::new());
    assert_eq!(a.selected_gpu, 0);
    a.update_metrics_with_liveness(Vec::new(), &Vec::new());
    assert_eq!(a.selected_gpu, 0);
    assert!(a.selected_metrics().is_none());
}

#[test]
fn next_and_prev_wrap_around() {
    let mut a = app();
    a.next_gpu();
    assert_eq!(a.selected_gpu, 0);
    a.prev_gpu();
    assert_eq!(a.selected_gpu, 0);
    a.update_metrics_with_liveness(vec![snapshot("A"), snapshot("B"), snapshot("C")], &Vec::new());
    a.prev_gpu();
    assert_eq!(a.selected_gpu, 2);
    a.next_gpu();
    assert_eq!(a.selected_gpu, 0);
    a.next_gpu();
    a.prev_gpu();
    assert_eq!(a.selected_gpu, 0);
    for _ in 0..3 {
        a.next_gpu();
    }
    assert_eq!(a.selected_gpu, 0);
}

#[test]
fn keys_move_selection_and_quit_stops() {
    let mut a = app();
    a.update_metrics_with_liveness(vec![snapshot("A"), snapshot("B")], &Vec::new());
    a.handle_event(key(KeyCode::Tab));
    assert_eq!(a.selected_gpu, 1);
    a.handle_event(key(KeyCode::Right));
    assert_eq!(a.selected_gpu, 0);
    a.handle_event(key(KeyCode::Down));
    assert_eq!(a.selected_gpu, 1);
    a.handle_event(key(KeyCode::Up));
    assert_eq!(a.selected_gpu, 0);
    a.handle_event(key(KeyCode::BackTab));
    assert_eq!(a.selected_gpu, 1);
    a.handle_event(key(KeyCode::Left));
    assert_eq!(a.selected_gpu, 0);
    a.handle_event(key(KeyCode::Char('x')));
    a.handle_event(AppEvent::Tick);
    assert_eq!(a.selected_gpu, 0);
    assert!(a.running);
    a.handle_event(AppEvent::Quit);
    assert!(!a.running);
}

#[test]
fn quit_stops_the_loop() {
    let mut a = app();
    a.quit();
    assert!(!a.running);
}

#[test]
fn memory_total_is_carried_indefinitely() {
    let mut a = app();
    a.update_metrics_with_liveness(vec![snapshot("A")], &Vec::new());
    for _ in 0..20 {
        let mut m = snapshot("A");
        m.memory_total = None;
        m.memory_used = None;
        a.update_metrics_with_liveness(vec![m], &Vec::new());
        assert_eq!(a.metrics[0].memory_total, Some(8 * 1024 * 1024 * 1024));
    }
}

#[test]
fn memory_use_is_carried_for_ttl_failures_then_missing() {
    let mut a = app();
    a.update_metrics_with_liveness(vec![snapshot("A")], &Vec::new());
    for tick in 1..=(VRAM_CARRY_FORWARD_TTL + 2) {
        let mut m = snapshot("A");
        m.memory_used = None;
        a.update_metrics_with_liveness(vec![m], &Vec::new());
        if tick <= VRAM_CARRY_FORWARD_TTL {
            assert_eq!(a.metrics[0].memory_used, Some(2 * 1024 * 1024 * 1024), "tick {tick}");
            assert_eq!(*a.vram_fail_count.get(&"A".to_string()).unwrap(), tick);
        } else {
            assert_eq!(a.metrics[0].memory_used, None, "tick {tick}");
        }
    }
    a.update_metrics_with_liveness(vec![snapshot("A")], &Vec::new());
    assert_eq!(a.metrics[0].memory_used, Some(2 * 1024 * 1024 * 1024));
    assert!(a.vram_fail_count.get(&"A".to_string()).is_none());
}

#[test]
fn missing_memory_of_a_new_device_stays_missing() {
    let mut a = app();
    let mut m = snapshot("A");
    m.memory_used = None;
    a.update_metrics_with_liveness(vec![m], &Vec::new());
    assert_eq!(a.metrics[0].memory_used, None);
    assert_eq!(*a.vram_fail_count.get(&"A".to_string()).unwrap(), 1);
}

#[test]
fn only_live_processes_are_carried() {
    let mut a = app();
    let mut first = snapshot("A");
    first.top_processes = vec![process(100, Some(1 << 30)), process(200, None), process(300, Some(5))];
    first.process_count = 3;
    a.update_metrics_with_liveness(vec![first], &Vec::new());
    a.update_metrics_with_liveness(vec![snapshot("A")], &vec![300, 100]);
    let pids: Vec<u32> = a.metrics[0].top_processes.iter().map(|p| p.pid).collect();
    assert_eq!(pids, vec![100, 300]);
    assert_eq!(a.metrics[0].process_count, 2);
    assert_eq!(a.metrics[0].top_processes[0].name, "proc100");
}

#[test]
fn dead_processes_are_not_carried() {
    let mut a = app();
    let mut first = snapshot("A");
    first.top_processes = vec![process(100, Some(1))];
    first.process_count = 1;
    a.update_metrics_with_liveness(vec![first], &Vec::new());
    a.update_metrics_with_liveness(vec![snapshot("A")], &vec![999]);
    assert!(a.metrics[0].top_processes.is_empty());
    assert_eq!(a.metrics[0].process_count, 0);
}

#[test]
fn reported_processes_are_never_replaced() {
    let mut a = app();
    let mut first = snapshot("A");
    first.top_processes = vec![process(100, Some(1))];
    a.update_metrics_with_liveness(vec![first], &Vec::new());
    let mut second = snapshot("A");
    second.top_processes = vec![process(7, Some(9))];
    second.process_count = 1;
    a.update_metrics_with_liveness(vec![second], &vec![100]);
    assert_eq!(a.metrics[0].top_processes.len(), 1);
    assert_eq!(a.metrics[0].top_processes[0].pid, 7);
}

#[test]
fn missing_reading_repeats_in_history() {
    let mut a = app();
    a.update_metrics_with_liveness(vec![snapshot("A")], &Vec::new());
    let mut m = snapshot("A");
    m.gpu_util = None;
    a.update_metrics_with_liveness(vec![m], &Vec::new());
    let h = a.history.get(&"A".to_string()).unwrap();
    assert_eq!(h.gpu_util.iter().copied().collect::<Vec<_>>(), vec![40, 40]);
}

#[test]
fn update_metrics_checks_liveness_itself() {
    let mut a = app();
    let mut first = snapshot("A");
    first.top_processes = vec![process(1, Some(1)), process(u32::MAX - 1, Some(2))];
    a.update_metrics(vec![first]);
    a.update_metrics(vec![snapshot("A")]);
    let pids: Vec<u32> = a.metrics[0].top_processes.iter().map(|p| p.pid).collect();
    assert_eq!(pids, vec![1]);
}

#[test]
fn failure_streak_restarts_when_device_is_not_reported() {
    let mut a = app();
    a.update_metrics_with_liveness(vec![snapshot("A"), snapshot("B")], &Vec::new());
    for _ in 0..5 {
        let mut m = snapshot("A");
        m.memory_used = None;
        a.update_metrics_with_liveness(vec![m, snapshot("B")], &Vec::new());
    }
    assert_eq!(*a.vram_fail_count.get(&"A".to_string()).unwrap(), 5);
    a.update_metrics_with_liveness(vec![snapshot("B")], &Vec::new());
    assert!(a.vram_fail_count.get(&"A".to_string()).is_none());
    assert!(a.last_known_vram_total.get(&"A".to_string()).is_none());
    let mut m = snapshot("A");
    m.memory_used = None;
    m.memory_total = None;
    a.update_metrics_with_liveness(vec![m, snapshot("B")], &Vec::new());
    assert_eq!(*a.vram_fail_count.get(&"A".to_string()).unwrap(), 1);
    assert_eq!(a.metrics[0].memory_used, None);
    assert_eq!(a.metrics[0].memory_total, None);
}

#[test]
fn total_survives_many_refreshes_without_one() {
    let mut a = app();
    let mut first = snapshot("A");
    first.memory_total = Some(80);
    a.update_metrics_with_liveness(vec![first], &Vec::new());
    for i in 0..50u64 {
        let mut m = snapshot("A");
        m.memory_total = None;
        m.memory_used = if i % 3 == 0 { None } else { Some(i) };
        a.update_metrics_with_liveness(vec![m], &Vec::new());
        assert_eq!(a.metrics[0].memory_total, Some(80));
        assert_eq!(*a.last_known_vram_total.get(&"A".to_string()).unwrap(), 80);
    }
    let mut m = snapshot("A");
    m.memory_total = Some(40);
    a.update_metrics_with_liveness(vec![m], &Vec::new());
    assert_eq!(*a.last_known_vram_total.get(&"A".to_string()).unwrap(), 40);
}

#[test]
fn selected_history_follows_selected_device() {
    let mut a = app();
    assert_eq!(a.selected_history().is_some(), a.selected_metrics().is_some());
    a.update_metrics_with_liveness(vec![snapshot("A"), snapshot("B"), snapshot("C")], &Vec::new());
    for step in 0..8 {
        if step == 3 {
            a.update_metrics_with_liveness(vec![snapshot("C"), snapshot("D")], &Vec::new());
        }
        a.handle_event(key(KeyCode::Down));
        let m = a.selected_metrics().unwrap();
        let h = a.selected_history().unwrap();
        assert_eq!(h.gpu_util.len(), a.history.get(&m.uuid).unwrap().gpu_util.len());
    }
    a.update_metrics_with_liveness(Vec::new(), &Vec::new());
    assert!(a.selected_metrics().is_none());
    assert!(a.selected_history().is_none());
}

#[test]
fn long_gap_in_history_drops_to_zero() {
    let mut a = app();
    a.update_metrics_with_liveness(vec![snapshot("A")], &Vec::new());
    for _ in 0..11 {
        let mut m = snapshot("A");
        m.gpu_util = None;
        a.update_metrics_with_liveness(vec![m], &Vec::new());
    }
    let h = a.history.get(&"A".to_string()).unwrap();
    let g: Vec<u32> = h.gpu_util.iter().copied().collect();
    assert_eq!(g.len(), 12);
    assert_eq!(g[..11].to_vec(), vec![40; 11]);
    assert_eq!(g[11], 0);
    assert_eq!(h.none_counts[0], 11);
    assert_eq!(h.none_counts[1], 0);
}

#[test]
fn vanished_device_is_pruned_even_when_new_uuids_repeat() {
    let mut a = app();
    let mut x = snapshot("X");
    x.memory_used = None;
    a.update_metrics_with_liveness(vec![x], &Vec::new());
    assert!(a.vram_fail_count.get(&"X".to_string()).is_some());
    a.update_metrics_with_liveness(vec![snapshot("N/A"), snapshot("N/A")], &Vec::new());
    assert!(a.history.get(&"X".to_string()).is_none());
    assert!(a.vram_fail_count.get(&"X".to_string()).is_none());
    assert!(a.last_known_vram_total.get(&"X".to_string()).is_none());
    assert_eq!(a.history.len(), 1);
    assert_eq!(a.history.get(&"N/A".to_string()).unwrap().gpu_util.len(), 2);
    assert_eq!(a.metrics.len(), 2);
}
