use mig_gpu_mon::display::Tone;
use mig_gpu_mon::metrics::{GpuMetrics, GpuProcessInfo};
use mig_gpu_mon::panels::{decimal_text, detail_lines, top_process_lines};

fn process(pid: u32, name: &str, vram: Option<u64>) -> GpuProcessInfo {
    GpuProcessInfo { pid, name: name.to_string(), vram_used: vram }
}

fn texts(lines: &[Vec<(String, Tone)>]) -> Vec<String> {
    lines.iter().map(|l| l.iter().map(|(t, _)| t.as_str()).collect::<String>()).collect()
}

fn bare(uuid: &str) -> GpuMetrics {
    GpuMetrics {
        index: 0,
        name: "NVIDIA A100".to_string(),
        uuid: uuid.to_string(),
        is_mig_instance: false,
        parent_gpu_index: None,
        gpu_util: None,
        memory_util: None,
        sm_util: None,
        memory_used: None,
        memory_total: None,
        temperature: None,
        power_usage: None,
        power_limit: None,
        process_count: 0,
        top_processes: Vec::new(),
        architecture: None,
        compute_capability: None,
        ecc_enabled: None,
        temp_shutdown: None,
        temp_slowdown: None,
        clock_graphics_mhz: None,
        clock_sm_mhz: None,
        clock_memory_mhz: None,
        pcie_tx_kbps: None,
        pcie_rx_kbps: None,
        pcie_gen: None,
        pcie_width: None,
        performance_state: None,
        throttle_reasons: None,
        encoder_util: None,
        decoder_util: None,
        ecc_errors_corrected: None,
        ecc_errors_uncorrected: None,
    }
}

#[test]
fn process_table_columns_line_up() {
    let procs = vec![
        process(1234, "python3", Some(2048 * 1024 * 1024)),
        process(7, "a-very-long-process-name", None),
    ];
    let lines = top_process_lines(&procs);
    let t = texts(&lines);
    assert_eq!(t[0], "PID     Process               VRAM");
    assert_eq!(t[1], "1234    python3            2048 MB");
    assert_eq!(t[2], "7       a-very-long-pro        N/A");
    assert_eq!(t.len(), 3);
    assert!(t.iter().all(|row| row.chars().count() == 34));
    assert_eq!(lines[0][0].1, Tone::CyanBold);
    assert_eq!(lines[1][0].1, Tone::Muted);
    assert_eq!(lines[1][1].1, Tone::White);
    assert_eq!(lines[1][2].1, Tone::Yellow);
}

#[test]
fn process_table_shows_at_most_five_rows() {
    let procs: Vec<GpuProcessInfo> = (1..=8).map(|p| process(p, "w", Some(0))).collect();
    let t = texts(&top_process_lines(&procs));
    assert_eq!(t.len(), 6);
    assert!(t[5].starts_with("5 "));
}

#[test]
fn empty_process_table_says_so() {
    let lines = top_process_lines(&Vec::new());
    assert_eq!(texts(&lines)[1], "  No compute processes");
    assert_eq!(lines[1][0].1, Tone::Muted);
    assert_eq!(lines.len(), 2);
}

#[test]
fn decimal_text_renders_numbers() {
    assert_eq!(decimal_text(0), "0");
    assert_eq!(decimal_text(18446744073709551615), "18446744073709551615");
}

#[test]
fn detail_of_a_bare_device() {
    let m = bare("GPU-0123456789abcdef0123456789");
    let lines = detail_lines(&m, None, None, None);
    let t = texts(&lines);
    assert_eq!(
        t,
        vec![
            "Name: NVIDIA A100".to_string(),
            "UUID: GPU-0123456789abcdef".to_string(),
            String::new(),
            "VRAM N/A".to_string(),
            "GPU: N/A  Mem: N/A".to_string(),
            "Processes: 0".to_string(),
        ]
    );
    assert_eq!(lines[3][1].1, Tone::Muted);
    assert_eq!(lines[4][1].1, Tone::Muted);
}

#[test]
fn detail_of_a_full_mig_instance() {
    let mut m = bare("MIG-1");
    m.is_mig_instance = true;
    m.parent_gpu_index = Some(1);
    m.name = "MIG 0 (GPU 1: H100)".to_string();
    m.architecture = Some("Hopper");
    m.compute_capability = Some("9.0".to_string());
    m.memory_used = Some(3 * 1024 * 1024 * 1024);
    m.memory_total = Some(10 * 1024 * 1024 * 1024);
    m.gpu_util = Some(45);
    m.memory_util = Some(12);
    m.sm_util = Some(40);
    m.decoder_util = Some(3);
    m.clock_graphics_mhz = Some(1980);
    m.performance_state = Some("P0");
    m.temperature = Some(85);
    m.temp_slowdown = Some(90);
    m.power_usage = Some(250_000);
    m.power_limit = Some(700_000);
    m.pcie_gen = Some(5);
    m.pcie_width = Some(16);
    m.ecc_enabled = Some(true);
    m.ecc_errors_corrected = Some(2);
    m.ecc_errors_uncorrected = Some(1);
    m.throttle_reasons = Some("SW Power Cap".to_string());
    m.process_count = 3;
    let lines = detail_lines(
        &m,
        Some(("30.0".to_string(), Tone::Green)),
        Some(("250.0".to_string(), "700.0".to_string())),
        None,
    );
    let t = texts(&lines);
    assert_eq!(t[0], "Name: MIG 0 (GPU 1: H100) [Parent: GPU 1]");
    assert_eq!(t[1], "UUID: MIG-1  Arch: Hopper  CC: 9.0");
    assert_eq!(t[3], "VRAM 3072 MB / 10240 MB (30.0%)");
    assert_eq!(t[4], "GPU: 45%  Mem: 12%  SM: 40%");
    assert_eq!(t[5], "Dec: 3%");
    assert_eq!(t[6], "Clk: 1980 MHz  P0");
    assert_eq!(t[7], "Temp: 85\u{b0}C (\u{2193}90)  Power: 250.0/700.0W");
    assert_eq!(t[8], "PCIe: Gen5 x16");
    assert_eq!(t[9], "ECC: On  Corr:2  Uncorr:1");
    assert_eq!(t[10], "Throttle: SW Power Cap");
    assert_eq!(t[11], "Processes: 3");
    assert_eq!(t.len(), 12);
    assert_eq!(lines[3][3].1, Tone::Green);
    assert_eq!(lines[6][2].1, Tone::Plain);
    assert_eq!(lines[6][3].1, Tone::Green);
    assert_eq!(lines[7][1].1, Tone::Red);
    assert_eq!(lines[9][2].1, Tone::Yellow);
    assert_eq!(lines[9][3].1, Tone::Alert);
    assert_eq!(lines[10][1].1, Tone::Alert);
}

#[test]
fn detail_leaves_out_what_cannot_be_shown() {
    let mut m = bare("GPU-1");
    m.memory_used = Some(1024);
    m.memory_total = None;
    m.power_usage = Some(1000);
    m.pcie_tx_kbps = Some(2048);
    m.pcie_rx_kbps = Some(1024);
    m.ecc_enabled = Some(false);
    m.throttle_reasons = Some("None".to_string());
    m.temperature = Some(50);
    m.temp_slowdown = Some(88);
    m.temp_shutdown = Some(92);
    let lines = detail_lines(
        &m,
        Some(("0.1".to_string(), Tone::Green)),
        Some(("1.0".to_string(), "2.0".to_string())),
        Some(("2.0".to_string(), "1.0".to_string())),
    );
    let t = texts(&lines);
    assert_eq!(t[3], "VRAM N/A");
    assert_eq!(t[5], "Temp: 50\u{b0}C (\u{2193}88 \u{2715}92)");
    assert_eq!(t[6], "PCIe: TX:2.0 RX:1.0 MB/s");
    assert_eq!(t[7], "ECC: Off");
    assert_eq!(t[8], "Throttle: None");
    assert_eq!(lines[7][1].1, Tone::Muted);
    assert_eq!(lines[8][1].1, Tone::Green);
    assert_eq!(t.len(), 10);
}

#[test]
fn snapshots_and_histories_can_be_cloned() {
    let m = bare("GPU-9");
    let c = m.clone();
    assert_eq!(c.uuid, "GPU-9");
    let mut h = mig_gpu_mon::history::MetricsHistory::new(3);
    let mut r = bare("GPU-9");
    r.gpu_util = Some(5);
    h.push(&r);
    let h2 = h.clone();
    assert_eq!(h2.gpu_util.len(), 1);
    assert_eq!(h2.max_entries, 3);
}
